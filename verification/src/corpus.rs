//! Reading the corpus and sidecar files: which lines hold records, and which records change
//! the store. Reading the file and writing the store are the application's.
use vstd::prelude::*;
use crate::prompt::views;
use crate::text::{chars_of, split_chars, split_on, string_from_chars, trim, trim_str};
use crate::wire::{Json, Wire, entries, json, jstr_array, jstring, obj, obj_push};

verus! {

/// A line without its trailing carriage return, as `str::lines` yields it.
pub open spec fn strip_cr(l: Seq<char>) -> Seq<char> {
    if l.len() > 0 && l.last() == '\r' {
        l.drop_last()
    } else {
        l
    }
}

/// The record lines of a JSONL text: each non-blank line with its 1-based line number.
pub open spec fn record_lines(lines: Seq<Seq<char>>) -> Seq<(int, Seq<char>)>
    decreases lines.len(),
{
    if lines.len() == 0 {
        Seq::empty()
    } else {
        let before = record_lines(lines.drop_last());
        let l = strip_cr(lines.last());
        if trim(l).len() > 0 {
            before.push((lines.len() as int, l))
        } else {
            before
        }
    }
}

/// The non-blank lines of a JSONL text, each with its 1-based line number for error reports.
pub fn jsonl_records(content: &str) -> (r: Vec<(usize, String)>)
    ensures
        r@.map_values(|x: (usize, String)| (x.0 as int, x.1@)) == record_lines(split_on(content@, '\n')),
{
    let chars = chars_of(content);
    let lines = split_chars(&chars, '\n');
    let ghost ls = split_on(content@, '\n');
    let mut r: Vec<(usize, String)> = Vec::new();
    let mut i: usize = 0;
    while i < lines.len()
        invariant
            0 <= i <= lines@.len(),
            lines@.len() == ls.len(),
            forall|k: int| 0 <= k < lines@.len() ==> #[trigger] lines@[k]@ == ls[k],
            r@.map_values(|x: (usize, String)| (x.0 as int, x.1@)) == record_lines(ls.take(i as int)),
        decreases lines.len() - i,
    {
        proof {
            assert(ls.take(i + 1).drop_last() =~= ls.take(i as int));
            assert(ls.take(i + 1).last() == ls[i as int]);
        }
        let line = &lines[i];
        let l = if line.len() > 0 && line[line.len() - 1] == '\r' {
            crate::text::slice_chars(line, 0, line.len() - 1)
        } else {
            crate::text::slice_chars(line, 0, line.len())
        };
        proof {
            assert(l@ =~= strip_cr(ls[i as int]));
        }
        let t = crate::text::trim_chars(&l);
        if t.len() > 0 {
            let ghost before = r@.map_values(|x: (usize, String)| (x.0 as int, x.1@));
            r.push((i + 1, string_from_chars(l.as_slice())));
            proof {
                assert(r@.map_values(|x: (usize, String)| (x.0 as int, x.1@)) =~= before.push(
                    ((i + 1) as int, l@),
                ));
            }
        }
        i = i + 1;
    }
    proof {
        assert(ls.take(ls.len() as int) =~= ls);
    }
    r
}

/// A machine-drafted modern rendering is applied only when it is not blank.
pub fn draft_applies(text_modern: &str) -> (b: bool)
    ensures
        b == (trim(text_modern@).len() > 0),
{
    let t = trim_str(text_modern);
    !t.as_str().is_empty()
}

/// A principle-index tag is applied only when it carries a domain or a principle.
pub fn tag_applies(domains: &Vec<String>, principles: &Vec<String>) -> (b: bool)
    ensures
        b == (domains@.len() > 0 || principles@.len() > 0),
{
    domains.len() > 0 || principles.len() > 0
}

/// The translation a Tanakh verse is stored under: its own, or JPS 1917 when unnamed.
pub fn tanakh_translation(translation: String) -> (r: String)
    ensures
        translation@.len() == 0 ==> r@ == "JPS 1917"@,
        translation@.len() > 0 ==> r@ == translation@,
{
    if translation.as_str().is_empty() {
        String::from_str("JPS 1917")
    } else {
        translation
    }
}

/// The instruction that asks the generation model for a modern rendering of a saying.
pub const DRAFT_SYSTEM: &'static str = "Rewrite the given saying in plain, natural, present-day English. Preserve the exact meaning and any concrete imagery. Do NOT add commentary, framing, names, explanation, or new content. Output only the rewritten line.";

/// One sidecar row of a machine-drafted modern rendering, flagged as a draft.
pub open spec fn draft_row_json(id: Seq<char>, reference: Seq<char>, draft: Seq<char>) -> Json {
    Json::Object(
        seq![
            ("id"@, Json::Str(id)),
            ("ref"@, Json::Str(reference)),
            ("text_modern"@, Json::Str(trim(draft))),
            ("machine_draft"@, Json::Bool(true)),
        ],
    )
}

/// The sidecar row for a drafted rendering: the draft trimmed, and flagged.
pub fn draft_row(id: String, reference: String, draft: &str) -> (w: Wire)
    ensures
        json(w) == draft_row_json(id@, reference@, draft@),
{
    let mut f: Vec<(String, Wire)> = Vec::new();
    obj_push(&mut f, "id", jstring(id));
    obj_push(&mut f, "ref", jstring(reference));
    obj_push(&mut f, "text_modern", jstring(trim_str(draft)));
    obj_push(&mut f, "machine_draft", Wire::Bool(true));
    assert(entries(f@) =~= seq![
        ("id"@, Json::Str(id@)),
        ("ref"@, Json::Str(reference@)),
        ("text_modern"@, Json::Str(trim(draft@))),
        ("machine_draft"@, Json::Bool(true)),
    ]);
    obj(f)
}

/// One sidecar row of principle-index facets, flagged as machine-tagged.
pub open spec fn tag_row_json(id: Seq<char>, reference: Seq<char>, domains: Seq<Seq<char>>, principles: Seq<Seq<char>>) -> Json {
    Json::Object(
        seq![
            ("id"@, Json::Str(id)),
            ("ref"@, Json::Str(reference)),
            ("domains"@, Json::Array(domains.map_values(|s: Seq<char>| Json::Str(s)))),
            ("principles"@, Json::Array(principles.map_values(|s: Seq<char>| Json::Str(s)))),
            ("machine_tagged"@, Json::Bool(true)),
        ],
    )
}

/// The sidecar row for a tagged saying.
pub fn tag_row(id: String, reference: String, domains: &Vec<String>, principles: &Vec<String>) -> (w: Wire)
    ensures
        json(w) == tag_row_json(id@, reference@, views(domains@), views(principles@)),
{
    let mut f: Vec<(String, Wire)> = Vec::new();
    obj_push(&mut f, "id", jstring(id));
    obj_push(&mut f, "ref", jstring(reference));
    obj_push(&mut f, "domains", jstr_array(domains.as_slice()));
    obj_push(&mut f, "principles", jstr_array(principles.as_slice()));
    obj_push(&mut f, "machine_tagged", Wire::Bool(true));
    proof {
        assert(domains@.map_values(|s: String| Json::Str(s@)) =~= views(domains@).map_values(
            |s: Seq<char>| Json::Str(s),
        ));
        assert(principles@.map_values(|s: String| Json::Str(s@)) =~= views(principles@).map_values(
            |s: Seq<char>| Json::Str(s),
        ));
        assert(entries(f@) =~= seq![
            ("id"@, Json::Str(id@)),
            ("ref"@, Json::Str(reference@)),
            ("domains"@, Json::Array(views(domains@).map_values(|s: Seq<char>| Json::Str(s)))),
            ("principles"@, Json::Array(views(principles@).map_values(|s: Seq<char>| Json::Str(s)))),
            ("machine_tagged"@, Json::Bool(true)),
        ]);
    }
    obj(f)
}

} // verus!
