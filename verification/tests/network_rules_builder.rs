use adblock::filters::fb_network_builder::{NetworkFilterListId, NetworkRulesBuilder};
use adblock::filters::network::NetworkFilter;
use adblock::lists::ParseOptions;

fn parse(lines: &[&str]) -> Vec<NetworkFilter> {
    lines
        .iter()
        .map(|l| NetworkFilter::parse(l, true, ParseOptions::default()).unwrap())
        .collect()
}

fn counts(b: &NetworkRulesBuilder) -> Vec<usize> {
    vec![
        b.list_rule_count(NetworkFilterListId::Csp),
        b.list_rule_count(NetworkFilterListId::Exceptions),
        b.list_rule_count(NetworkFilterListId::Importants),
        b.list_rule_count(NetworkFilterListId::Redirects),
        b.list_rule_count(NetworkFilterListId::RemoveParam),
        b.list_rule_count(NetworkFilterListId::Filters),
        b.list_rule_count(NetworkFilterListId::GenericHide),
        b.list_rule_count(NetworkFilterListId::TaggedFiltersAll),
    ]
}

#[test]
fn filters_are_routed_to_their_lists() {
    let b = NetworkRulesBuilder::from_rules(
        parse(&[
            "||a.com^$csp=script-src 'none'",
            "@@||b.com^",
            "||c.com^$important",
            "||d.com^$redirect=noop.js",
            "||e.com^$redirect-rule=noop.js",
            "||f.com^$removeparam=utm",
            "||g.com^",
            "@@||h.com^$generichide",
            "||i.com^$tag=t",
        ]),
        true,
    );
    assert_eq!(counts(&b), vec![1, 1, 1, 2, 1, 2, 1, 1]);
}

#[test]
fn badfilter_cancels_before_routing() {
    let b = NetworkRulesBuilder::from_rules(parse(&["||g.com^", "||g.com^$badfilter", "||x.com^"]), false);
    assert_eq!(counts(&b), vec![0, 0, 0, 0, 0, 1, 0, 0]);
}

#[test]
fn incremental_builder_adds_and_removes() {
    let mut b = NetworkRulesBuilder::new_incremental();
    assert_eq!(counts(&b), vec![0; 8]);
    b.set_optimize(true);
    let fs = parse(&["||g.com^", "||k.com^", "@@||g.com^"]);
    let id = fs[0].get_id();
    for f in fs {
        b.add_routed_network_filter(f);
    }
    assert_eq!(counts(&b), vec![0, 1, 0, 0, 0, 2, 0, 0]);
    b.remove_by_filter_id(id);
    assert_eq!(counts(&b), vec![0, 1, 0, 0, 0, 1, 0, 0]);
}
