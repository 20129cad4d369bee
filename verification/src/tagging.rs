//! Reading a machine-tagging reply: the life domains a saying speaks to, matched against a
//! fixed taxonomy, and the principle it establishes. These facets steer retrieval and feed the
//! low-confidence principle bridge; they are never displayed.
use vstd::prelude::*;
use crate::prompt::views;
use crate::text::{
    join, join_strings, chars_of, contains, contains_exec, lowercase, slice_chars, split_chars, split_on, starts_with,
    starts_with_exec, string_from_chars, to_lowercase, trim, trim_chars,
};

verus! {

/// The life-domain taxonomy a tagger chooses from.
pub open spec fn taxonomy() -> Seq<Seq<char>> {
    seq![
        "money/provision"@,
        "fear/anxiety"@,
        "grief"@,
        "marriage/divorce"@,
        "parenting"@,
        "conflict/forgiveness"@,
        "ambition/status"@,
        "honesty"@,
        "illness"@,
        "purpose/calling"@,
        "enemies"@,
        "doubt"@,
        "prayer"@,
        "wealth/generosity"@,
        "judgment of others"@,
        "work"@,
        "power"@,
        "loneliness"@,
        "temptation"@,
        "death"@,
    ]
}

/// The life-domain taxonomy, in its fixed order.
pub fn taxonomy_domains() -> (r: Vec<&'static str>)
    ensures
        r@.map_values(|s: &str| s@) == taxonomy(),
{
    let r: Vec<&'static str> = vec![
        "money/provision",
        "fear/anxiety",
        "grief",
        "marriage/divorce",
        "parenting",
        "conflict/forgiveness",
        "ambition/status",
        "honesty",
        "illness",
        "purpose/calling",
        "enemies",
        "doubt",
        "prayer",
        "wealth/generosity",
        "judgment of others",
        "work",
        "power",
        "loneliness",
        "temptation",
        "death",
    ];
    assert(r@.map_values(|s: &str| s@) =~= taxonomy());
    r
}

/// A taxonomy domain `t` matches a reply's part `p` when they are equal or one contains the
/// other.
pub open spec fn domain_matches(t: Seq<char>, p: Seq<char>) -> bool {
    t == p || contains(p, t) || contains(t, p)
}

/// The first domain of `ts` that matches `p`.
pub open spec fn first_match(ts: Seq<Seq<char>>, p: Seq<char>) -> Option<Seq<char>>
    decreases ts.len(),
{
    if ts.len() == 0 {
        None
    } else if domain_matches(ts[0], p) {
        Some(ts[0])
    } else {
        first_match(ts.drop_first(), p)
    }
}

/// The canonical domains `parts` name, added to `ds` in order, each once. A part that is
/// blank once trimmed names no domain.
pub open spec fn add_domains(ds: Seq<Seq<char>>, parts: Seq<Seq<char>>) -> Seq<Seq<char>>
    decreases parts.len(),
{
    if parts.len() == 0 {
        ds
    } else {
        let before = add_domains(ds, parts.drop_last());
        if trim(parts.last()).len() == 0 {
            before
        } else {
            match first_match(taxonomy(), trim(parts.last())) {
                Some(c) => if before.contains(c) {
                    before
                } else {
                    before.push(c)
                },
                None => before,
            }
        }
    }
}

/// The characters of `l` after its first ten, if it has that many.
pub open spec fn after_label(l: Seq<char>) -> Seq<char> {
    if l.len() >= 10 {
        l.skip(10)
    } else {
        Seq::empty()
    }
}

/// What one line adds: a `domains:` line (any casing) its canonical domains; a `principle:`
/// line its principle, in the line's own casing, when not blank; any other line nothing.
pub open spec fn tag_line(acc: (Seq<Seq<char>>, Seq<Seq<char>>), line: Seq<char>) -> (Seq<Seq<char>>, Seq<Seq<char>>) {
    let l = trim(line);
    let low = lowercase(l);
    if starts_with(low, "domains:"@) {
        (add_domains(acc.0, split_on(low.skip(8), ',')), acc.1)
    } else if starts_with(low, "principle:"@) {
        let p = trim(after_label(l));
        if p.len() > 0 {
            (acc.0, acc.1.push(p))
        } else {
            acc
        }
    } else {
        acc
    }
}

/// The domains and principles read from the lines, in order.
pub open spec fn parse_tags(lines: Seq<Seq<char>>) -> (Seq<Seq<char>>, Seq<Seq<char>>)
    decreases lines.len(),
{
    if lines.len() == 0 {
        (Seq::empty(), Seq::empty())
    } else {
        tag_line(parse_tags(lines.drop_last()), lines.last())
    }
}

/// The first taxonomy domain matching `p`.
fn find_domain(domains: &Vec<&'static str>, p: &Vec<char>) -> (r: Option<&'static str>)
    requires
        domains@.map_values(|s: &str| s@) == taxonomy(),
    ensures
        match first_match(taxonomy(), p@) {
            Some(c) => r matches Some(s) && s@ == c,
            None => r is None,
        },
{
    let ghost ts = taxonomy();
    let mut i: usize = 0;
    assert(ts.skip(0) =~= ts);
    while i < domains.len()
        invariant
            0 <= i <= domains@.len(),
            domains@.map_values(|s: &str| s@) == ts,
            ts == taxonomy(),
            first_match(ts, p@) == first_match(ts.skip(i as int), p@),
        decreases domains.len() - i,
    {
        let t = chars_of(domains[i]);
        proof {
            assert(ts.skip(i as int).drop_first() =~= ts.skip(i + 1));
            assert(ts.skip(i as int)[0] == ts[i as int]);
            assert(ts[i as int] == domains@[i as int]@);
        }
        let same = t.len() == p.len() && contains_exec(&t, p);
        if same || contains_exec(p, &t) || contains_exec(&t, p) {
            proof {
                if same {
                    assert(t@ =~= p@) by {
                        let k = choose|k: int| crate::text::occurs_at(t@, p@, k);
                        assert forall|j: int| 0 <= j < t@.len() implies t@[j] == p@[j] by {
                            assert(t@.subrange(k, k + p@.len()) == p@);
                            assert(k == 0);
                        }
                    }
                }
            }
            return Some(domains[i]);
        }
        proof {
            assert(!domain_matches(ts[i as int], p@)) by {
                if ts[i as int] == p@ {
                    assert(t@ == p@);
                    assert(crate::text::occurs_at(t@, p@, 0)) by {
                        assert(t@.subrange(0, p@.len() as int) =~= p@);
                    }
                }
            }
        }
        i = i + 1;
    }
    None
}

fn contains_str(v: &Vec<String>, s: &str) -> (b: bool)
    ensures
        b == views(v@).contains(s@),
{
    let mut i: usize = 0;
    while i < v.len()
        invariant
            0 <= i <= v@.len(),
            forall|k: int| 0 <= k < i ==> views(v@)[k] != s@,
        decreases v.len() - i,
    {
        if crate::text::str_eq(v[i].as_str(), s) {
            assert(views(v@)[i as int] == s@);
            return true;
        }
        i = i + 1;
    }
    false
}

/// Parse a tagging reply into its canonical domains (matched against the taxonomy, in order,
/// each once; a part naming none is dropped) and its principle lines. Lenient about casing
/// and surrounding prose. Lines are split at `\n`; a trailing `\r` falls to the trim.
pub fn parse_principle_tags(reply: &str) -> (r: (Vec<String>, Vec<String>))
    ensures
        (views(r.0@), views(r.1@)) == parse_tags(split_on(reply@, '\n')),
{
    let tax = taxonomy_domains();
    let chars = chars_of(reply);
    let lines = split_chars(&chars, '\n');
    let ghost ls = split_on(reply@, '\n');
    let dom_label = chars_of("domains:");
    let pri_label = chars_of("principle:");
    proof {
        reveal_strlit("domains:");
        reveal_strlit("principle:");
    }
    let mut domains: Vec<String> = Vec::new();
    let mut principles: Vec<String> = Vec::new();
    let mut i: usize = 0;
    while i < lines.len()
        invariant
            0 <= i <= lines@.len(),
            lines@.len() == ls.len(),
            forall|k: int| 0 <= k < lines@.len() ==> #[trigger] lines@[k]@ == ls[k],
            tax@.map_values(|s: &str| s@) == taxonomy(),
            dom_label@ == "domains:"@,
            pri_label@ == "principle:"@,
            dom_label@.len() == 8,
            pri_label@.len() == 10,
            (views(domains@), views(principles@)) == parse_tags(ls.take(i as int)),
        decreases lines.len() - i,
    {
        proof {
            assert(ls.take(i + 1).drop_last() =~= ls.take(i as int));
            assert(ls.take(i + 1).last() == ls[i as int]);
        }
        let l = trim_chars(&lines[i]);
        let ls_str = string_from_chars(l.as_slice());
        let low_str = to_lowercase(ls_str.as_str());
        let low = chars_of(low_str.as_str());
        if starts_with_exec(&low, &dom_label) {
            let rest = slice_chars(&low, 8, low.len());
            let parts = split_chars(&rest, ',');
            let ghost ps = split_on(low@.skip(8), ',');
            proof {
                assert(rest@ =~= low@.skip(8));
            }
            let ghost d0 = views(domains@);
            let mut j: usize = 0;
            while j < parts.len()
                invariant
                    0 <= j <= parts@.len(),
                    parts@.len() == ps.len(),
                    forall|k: int| 0 <= k < parts@.len() ==> #[trigger] parts@[k]@ == ps[k],
                    tax@.map_values(|s: &str| s@) == taxonomy(),
                    views(domains@) == add_domains(d0, ps.take(j as int)),
                decreases parts.len() - j,
            {
                proof {
                    assert(ps.take(j + 1).drop_last() =~= ps.take(j as int));
                    assert(ps.take(j + 1).last() == ps[j as int]);
                }
                let p = trim_chars(&parts[j]);
                if p.len() > 0 {
                    match find_domain(&tax, &p) {
                        Some(c) => {
                            if !contains_str(&domains, c) {
                                let ghost before = views(domains@);
                                domains.push(String::from_str(c));
                                proof {
                                    assert(views(domains@) =~= before.push(c@));
                                }
                            }
                        },
                        None => {},
                    }
                }
                j = j + 1;
            }
            proof {
                assert(ps.take(ps.len() as int) =~= ps);
            }
        } else if starts_with_exec(&low, &pri_label) {
            let rest = if l.len() >= 10 {
                slice_chars(&l, 10, l.len())
            } else {
                Vec::new()
            };
            proof {
                if l@.len() >= 10 {
                    assert(rest@ =~= l@.skip(10));
                } else {
                    assert(rest@ =~= Seq::<char>::empty());
                }
            }
            let p = trim_chars(&rest);
            if p.len() > 0 {
                let ghost before = views(principles@);
                principles.push(string_from_chars(p.as_slice()));
                proof {
                    assert(views(principles@) =~= before.push(p@));
                }
            }
        }
        i = i + 1;
    }
    proof {
        assert(ls.take(ls.len() as int) =~= ls);
    }
    (domains, principles)
}


proof fn lemma_first_match_member(ts: Seq<Seq<char>>, p: Seq<char>)
    ensures
        first_match(ts, p) matches Some(c) ==> ts.contains(c),
    decreases ts.len(),
{
    if ts.len() > 0 && !domain_matches(ts[0], p) {
        lemma_first_match_member(ts.drop_first(), p);
        if let Some(c) = first_match(ts.drop_first(), p) {
            let k = choose|k: int| 0 <= k < ts.drop_first().len() && ts.drop_first()[k] == c;
            assert(ts[k + 1] == c);
        }
    } else if ts.len() > 0 {
        assert(ts[0] == ts[0]);
        assert(ts.contains(ts[0]));
    }
}

proof fn lemma_first_match_found(ts: Seq<Seq<char>>, p: Seq<char>, k: int)
    requires
        0 <= k < ts.len(),
        domain_matches(ts[k], p),
    ensures
        first_match(ts, p) matches Some(c) && exists|j: int| 0 <= j <= k && c == #[trigger] ts[j],
    decreases ts.len(),
{
    if !domain_matches(ts[0], p) {
        let t = ts.drop_first();
        assert(t[k - 1] == ts[k]);
        lemma_first_match_found(t, p, k - 1);
        let c = first_match(t, p)->Some_0;
        let j = choose|j: int| 0 <= j <= k - 1 && c == #[trigger] t[j];
        assert(ts[j + 1] == c);
    } else {
        assert(ts[0] == ts[0]);
    }
}

/// A part of a `domains:` line that mentions a taxonomy domain names it: reading the part
/// keeps a taxonomy domain, that one or one listed before it (the first that matches).
pub proof fn lemma_part_mentioning_a_domain_keeps_one(
    ds: Seq<Seq<char>>,
    parts: Seq<Seq<char>>,
    part: Seq<char>,
    k: int,
)
    requires
        0 <= k < taxonomy().len(),
        contains(trim(part), taxonomy()[k]),
    ensures
        exists|j: int|
            0 <= j <= k && #[trigger] add_domains(ds, parts.push(part)).contains(taxonomy()[j]),
{
    reveal_strlit("money/provision");
    reveal_strlit("fear/anxiety");
    reveal_strlit("grief");
    reveal_strlit("marriage/divorce");
    reveal_strlit("parenting");
    reveal_strlit("conflict/forgiveness");
    reveal_strlit("ambition/status");
    reveal_strlit("honesty");
    reveal_strlit("illness");
    reveal_strlit("purpose/calling");
    reveal_strlit("enemies");
    reveal_strlit("doubt");
    reveal_strlit("prayer");
    reveal_strlit("wealth/generosity");
    reveal_strlit("judgment of others");
    reveal_strlit("work");
    reveal_strlit("power");
    reveal_strlit("loneliness");
    reveal_strlit("temptation");
    reveal_strlit("death");
    let ts = taxonomy();
    let p = trim(part);
    assert(ts[k].len() > 0);
    let at = choose|a: int| crate::text::occurs_at(p, ts[k], a);
    assert(p.len() > 0);
    lemma_first_match_found(ts, p, k);
    let c = first_match(ts, p)->Some_0;
    let j = choose|j: int| 0 <= j <= k && c == #[trigger] ts[j];
    let all = parts.push(part);
    assert(all.drop_last() =~= parts);
    assert(all.last() == part);
    let before = add_domains(ds, parts);
    if before.contains(c) {
        assert(add_domains(ds, all) == before);
    } else {
        assert(add_domains(ds, all) == before.push(c));
        assert(before.push(c)[before.len() as int] == c);
    }
    assert(add_domains(ds, all).contains(ts[j]));
}

/// The domains kept so far are canonical and distinct.
pub open spec fn canonical_set(ds: Seq<Seq<char>>) -> bool {
    ds.no_duplicates() && forall|i: int| 0 <= i < ds.len() ==> taxonomy().contains(#[trigger] ds[i])
}

proof fn lemma_add_domains_canonical(ds: Seq<Seq<char>>, parts: Seq<Seq<char>>)
    requires
        canonical_set(ds),
    ensures
        canonical_set(add_domains(ds, parts)),
    decreases parts.len(),
{
    if parts.len() > 0 {
        lemma_add_domains_canonical(ds, parts.drop_last());
        let before = add_domains(ds, parts.drop_last());
        lemma_first_match_member(taxonomy(), trim(parts.last()));
        if let Some(c) = first_match(taxonomy(), trim(parts.last())) {
            if !before.contains(c) {
                let after = before.push(c);
                assert forall|i: int, j: int| 0 <= i < after.len() && 0 <= j < after.len() && i != j implies after[i]
                    != after[j] by {
                    if i < before.len() && j < before.len() {
                    } else if i == before.len() {
                        assert(after[j] == before[j]);
                    } else {
                        assert(after[i] == before[i]);
                    }
                }
                assert forall|i: int| 0 <= i < after.len() implies taxonomy().contains(#[trigger] after[i]) by {
                    if i < before.len() {
                        assert(after[i] == before[i]);
                    }
                }
            }
        }
    }
}

/// Whatever the reply says, the domains read from it are taxonomy domains, each at most once.
pub proof fn lemma_parsed_domains_canonical(lines: Seq<Seq<char>>)
    ensures
        canonical_set(parse_tags(lines).0),
    decreases lines.len(),
{
    if lines.len() == 0 {
        assert(parse_tags(lines).0 =~= Seq::<Seq<char>>::empty());
    } else {
        lemma_parsed_domains_canonical(lines.drop_last());
        let acc = parse_tags(lines.drop_last());
        let l = trim(lines.last());
        let low = lowercase(l);
        if starts_with(low, "domains:"@) {
            lemma_add_domains_canonical(acc.0, split_on(low.skip(8), ','));
        }
    }
}


/// The instruction that asks the generation model to tag a saying: domains only from the
/// taxonomy, one principle derived from the saying itself, in exactly two labeled lines.
pub open spec fn tagging_instruction_text() -> Seq<char> {
    "You label a saying with the life DOMAINS it speaks to and the governing PRINCIPLE it establishes. Choose domains ONLY from this list: "@
        + join(taxonomy(), ", "@)
        + ". State one short principle, derived from the saying itself \u{2014} never invent beyond it. Output EXACTLY two lines and nothing else:\nDOMAINS: <comma-separated domains from the list>\nPRINCIPLE: <one short sentence>"@
}

/// The tagging instruction.
pub fn tagging_instruction() -> (r: String)
    ensures
        r@ == tagging_instruction_text(),
{
    let tax = taxonomy_domains();
    let mut names: Vec<String> = Vec::new();
    let mut i: usize = 0;
    while i < tax.len()
        invariant
            0 <= i <= tax@.len(),
            tax@.map_values(|s: &str| s@) == taxonomy(),
            names@.map_values(|p: String| p@) == taxonomy().take(i as int),
        decreases tax.len() - i,
    {
        let ghost before = names@.map_values(|p: String| p@);
        names.push(String::from_str(tax[i]));
        proof {
            assert(names@.map_values(|p: String| p@) =~= before.push(tax@[i as int]@));
            assert(taxonomy().take(i + 1) =~= taxonomy().take(i as int).push(taxonomy()[i as int]));
        }
        i = i + 1;
    }
    proof {
        assert(taxonomy().take(tax@.len() as int) =~= taxonomy());
    }
    let list = join_strings(names.as_slice(), ", ");
    let mut r = String::from_str(
        "You label a saying with the life DOMAINS it speaks to and the governing PRINCIPLE it establishes. Choose domains ONLY from this list: ",
    );
    r.append(list.as_str());
    r.append(
        ". State one short principle, derived from the saying itself \u{2014} never invent beyond it. Output EXACTLY two lines and nothing else:\nDOMAINS: <comma-separated domains from the list>\nPRINCIPLE: <one short sentence>",
    );
    r
}

} // verus!
