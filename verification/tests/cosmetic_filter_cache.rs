use std::collections::HashSet;

use adblock::cosmetic_filter_cache::{CosmeticFilterCache, ProceduralOrActionFilter};
use adblock::filters::cosmetic::CosmeticFilter;

fn cache(rules: &[&str]) -> CosmeticFilterCache {
    CosmeticFilterCache::new(
        rules.iter().map(|r| CosmeticFilter::parse(r, false).unwrap()).collect(),
    )
}

fn set(v: &[String]) -> HashSet<String> {
    v.iter().cloned().collect()
}

fn strings(v: &[&str]) -> HashSet<String> {
    v.iter().map(|s| s.to_string()).collect()
}

#[test]
fn hostname_rules_and_exceptions() {
    let c = cache(&[
        "example.com##.banner",
        "sub.example.com#@#.banner",
        "example.com##.sidebar",
        "##div.generic",
        "sub.example.com#@#div.generic",
    ]);
    let top = c.hostname_cosmetic_resources("example.com", false);
    assert_eq!(set(&top.hide_selectors), strings(&[".banner", ".sidebar", "div.generic"]));
    assert!(top.exceptions.is_empty());

    let sub = c.hostname_cosmetic_resources("sub.example.com", false);
    assert_eq!(set(&sub.hide_selectors), strings(&[".sidebar"]));
    assert_eq!(set(&sub.exceptions), strings(&[".banner", "div.generic"]));

    let generic_off = c.hostname_cosmetic_resources("example.com", true);
    assert_eq!(set(&generic_off.hide_selectors), strings(&[".banner", ".sidebar"]));
    assert!(generic_off.generichide);
}

#[test]
fn negated_hostnames_make_a_hidden_generic_rule() {
    let c = cache(&["~example.com##.promo"]);
    let elsewhere = c.hostname_cosmetic_resources("other.org", false);
    assert!(elsewhere.exceptions.is_empty());
    let classes = vec!["promo".to_string()];
    assert_eq!(c.hidden_class_id_selectors(&classes, &[], &elsewhere.exceptions), vec![".promo".to_string()]);
    let excluded = c.hostname_cosmetic_resources("example.com", false);
    assert_eq!(set(&excluded.exceptions), strings(&[".promo"]));
    assert!(c.hidden_class_id_selectors(&classes, &[], &excluded.exceptions).is_empty());
}

#[test]
fn entities_match_any_public_suffix() {
    let c = cache(&["google.*##.ads"]);
    assert_eq!(set(&c.hostname_cosmetic_resources("www.google.de", false).hide_selectors), strings(&[".ads"]));
    assert_eq!(set(&c.hostname_cosmetic_resources("google.com", false).hide_selectors), strings(&[".ads"]));
    assert!(c.hostname_cosmetic_resources("notgoogle.com", false).hide_selectors.is_empty());
}

#[test]
fn styles_become_procedural_actions() {
    let c = cache(&["example.com##.box:style(color: red)", "sub.example.com#@#.box:style(color: red)"]);
    let r = c.hostname_cosmetic_resources("example.com", false);
    assert_eq!(r.procedural_actions.len(), 1);
    assert_eq!(
        r.procedural_actions[0].as_css(),
        Some((".box".to_string(), "color: red".to_string()))
    );
    assert!(r.hide_selectors.is_empty());
    let sub = c.hostname_cosmetic_resources("sub.example.com", false);
    assert!(sub.procedural_actions.is_empty());
}

#[test]
fn scriptlets_and_their_exceptions() {
    let c = cache(&[
        "example.com##+js(set-constant, a, 1)",
        "example.com##+js(nowebrtc)",
        "sub.example.com#@#+js(nowebrtc)",
        "other.example.com#@#+js()",
    ]);
    assert_eq!(
        set(&c.hostname_cosmetic_resources("example.com", false).script_injections),
        strings(&["set-constant, a, 1", "nowebrtc"])
    );
    assert_eq!(
        set(&c.hostname_cosmetic_resources("sub.example.com", false).script_injections),
        strings(&["set-constant, a, 1"])
    );
    assert!(c.hostname_cosmetic_resources("other.example.com", false).script_injections.is_empty());
}

#[test]
fn complex_selectors_are_keyed_by_their_first_class() {
    let c = cache(&["##.a .b", "##.a", "###x > span", "##.a .b"]);
    let classes = vec!["a".to_string()];
    let ids = vec!["x".to_string()];
    assert_eq!(
        c.hidden_class_id_selectors(&classes, &ids, &[]),
        vec![".a".to_string(), ".a .b".to_string(), ".a .b".to_string(), "#x > span".to_string()]
    );
    let exceptions = vec![".a .b".to_string()];
    assert_eq!(
        c.hidden_class_id_selectors(&classes, &ids, &exceptions),
        vec![".a".to_string(), "#x > span".to_string()]
    );
}

#[test]
fn as_css_of_a_hiding_filter() {
    let f = ProceduralOrActionFilter::from_css(".x".to_string(), "display: none".to_string());
    assert_eq!(f.as_css(), Some((".x".to_string(), "display: none".to_string())));
}

#[test]
fn empty_cache_gives_nothing() {
    let c = CosmeticFilterCache::empty();
    let r = c.hostname_cosmetic_resources("example.com", false);
    assert!(r.hide_selectors.is_empty() && r.exceptions.is_empty() && r.script_injections.is_empty());
}
