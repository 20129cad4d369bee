use jesus_twin::tagging::{parse_principle_tags, taxonomy_domains};

#[test]
fn parse_principle_tags_extracts_canonical_domains_and_principle() {
    let reply = "DOMAINS: fear/anxiety, money/provision, made-up-domain\n\
                 PRINCIPLE: God provides; worry changes nothing.";
    let (domains, principles) = parse_principle_tags(reply);
    assert_eq!(domains, vec!["fear/anxiety", "money/provision"]);
    assert_eq!(principles, vec!["God provides; worry changes nothing."]);
}

#[test]
fn parse_principle_tags_is_lenient_about_casing_and_noise() {
    let reply = "Here are the tags.\ndomains: Prayer\nprinciple: Ask, and keep asking.\nthanks!";
    let (domains, principles) = parse_principle_tags(reply);
    assert_eq!(domains, vec!["prayer"]);
    assert_eq!(principles, vec!["Ask, and keep asking."]);
}

#[test]
fn repeated_domains_are_kept_once() {
    let (domains, _) = parse_principle_tags("domains: grief, Grief, grief and loss\ndomains: grief");
    assert_eq!(domains, vec!["grief"]);
}

#[test]
fn a_part_inside_a_domain_matches_it() {
    let (domains, _) = parse_principle_tags("DOMAINS: money, judgment");
    assert_eq!(domains, vec!["money/provision", "judgment of others"]);
}

#[test]
fn blank_principle_and_crlf_lines() {
    let (domains, principles) = parse_principle_tags("PRINCIPLE:   \r\nDomains: work\r\n");
    assert!(principles.is_empty());
    assert_eq!(domains, vec!["work"]);
}

#[test]
fn taxonomy_has_twenty_domains_in_order() {
    let t = taxonomy_domains();
    assert_eq!(t.len(), 20);
    assert_eq!(t[0], "money/provision");
    assert_eq!(t[19], "death");
}

#[test]
fn blank_domain_part_names_no_domain() {
    let (domains, principles) = parse_principle_tags("DOMAINS: prayer,\nPRINCIPLE: Ask.");
    assert_eq!(domains, vec!["prayer".to_string()]);
    assert_eq!(principles, vec!["Ask.".to_string()]);
    let (domains, _) = parse_principle_tags("domains: , ,grief");
    assert_eq!(domains, vec!["grief".to_string()]);
}
