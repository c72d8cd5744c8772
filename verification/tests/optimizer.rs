use adblock::engine::Engine;
use adblock::filters::network::NetworkFilter;
use adblock::filters::network_matchers::check_pattern;
use adblock::lists::{parse_filters, ParseOptions};
use adblock::optimizer::{fusion, optimize, select};
use adblock::request::Request;

fn check_regex_match(filter: &NetworkFilter, path: &str, matches: bool) {
    let url = format!("https://example.com{}", path);
    let request = Request::new(&url, "https://example.com", "", "").unwrap();
    let is_match = check_pattern(filter, &request);
    assert!(is_match == matches, "Expected {} match {} = {}", filter.to_string(), path, matches);
}

fn lines(rules: &[&str]) -> Vec<String> {
    rules.iter().map(|r| String::from(*r)).collect()
}

#[test]
fn combines_simple_regex_patterns() {
    let rules = vec![
        String::from("/static/ad-"),
        String::from("/static/ad."),
        String::from("/static/ad/*"),
        String::from("/static/ads/*"),
        String::from("/static/adv/*"),
    ];

    let (filters, _) = parse_filters(&rules, true, ParseOptions::default());

    filters.iter().for_each(|f| assert!(select(f), "Expected rule to be selected"));

    let fused = fusion(&filters);

    assert!(fused.is_regex(), "Expected rule to be regex");
    assert_eq!(
        fused.to_string(),
        "/static/ad- <+> /static/ad. <+> /static/ad/* <+> /static/ads/* <+> /static/adv/*"
    );

    check_regex_match(&fused, "/static/ad-", true);
    check_regex_match(&fused, "/static/ad.", true);
    check_regex_match(&fused, "/static/ad%", false);
    check_regex_match(&fused, "/static/ads-", false);
    check_regex_match(&fused, "/static/ad/", true);
    check_regex_match(&fused, "/static/ad", false);
    check_regex_match(&fused, "/static/ad/foobar", true);
    check_regex_match(&fused, "/static/ad/foobar/asd?q=1", true);
    check_regex_match(&fused, "/static/ads/", true);
    check_regex_match(&fused, "/static/ads", false);
    check_regex_match(&fused, "/static/ads/foobar", true);
    check_regex_match(&fused, "/static/ads/foobar/asd?q=1", true);
    check_regex_match(&fused, "/static/adv/", true);
    check_regex_match(&fused, "/static/adv", false);
    check_regex_match(&fused, "/static/adv/foobar", true);
    check_regex_match(&fused, "/static/adv/foobar/asd?q=1", true);
}

#[test]
fn separates_pattern_by_grouping() {
    let rules = vec![
        String::from("/analytics-v1."),
        String::from("/v1/pixel?"),
        String::from("/api/v1/stat?"),
        String::from("/analytics/v1/*$domain=~my.leadpages.net"),
        String::from("/v1/ads/*"),
    ];

    let (filters, _) = parse_filters(&rules, true, ParseOptions::default());

    // `optimize` puts the merged filters first, then those it left alone.
    let optimized = optimize(filters);
    let (fused, skipped) = optimized.split_at(1);

    assert_eq!(fused.len(), 1);
    let filter = fused.get(0).unwrap();
    assert_eq!(filter.to_string(), "/analytics-v1. <+> /v1/pixel? <+> /api/v1/stat? <+> /v1/ads/*");

    assert!(filter.matches(&Request::new("https://example.com/v1/pixel?", "https://my.leadpages.net", "", "").unwrap()));

    assert_eq!(skipped.len(), 1);
    let filter = skipped.get(0).unwrap();
    assert_eq!(filter.to_string(), "/analytics/v1/*$domain=~my.leadpages.net");

    assert!(filter.matches(
        &Request::new("https://example.com/analytics/v1/foobar", "https://foo.leadpages.net", "", "").unwrap()
    ))
}

#[test]
fn fusion_of_a_match_all_pattern_matches_everything() {
    let (filters, _) = parse_filters(&lines(&["/static/ad-", "$image"]), true, ParseOptions::default());
    assert_eq!(filters.len(), 2);
    let fused = fusion(&filters);
    assert!(fused.is_regex());
    // The rule text of the first filter is kept as it is.
    assert_eq!(fused.to_string(), "/static/ad-");
    check_regex_match(&fused, "/anything/at/all", true);
}

#[test]
fn optimize_keeps_filters_it_may_not_merge() {
    let (filters, _) =
        parse_filters(&lines(&["||ads.example.com^", "/banner/$domain=news.com", "/ad-$redirect=noop.js"]), true, ParseOptions::default());
    assert!(filters.iter().all(|f| !select(f)));
    let optimized = optimize(filters);
    let texts: Vec<String> = optimized.iter().map(|f| f.to_string()).collect();
    assert_eq!(texts, vec!["||ads.example.com^", "/banner/$domain=news.com", "/ad-$redirect=noop.js"]);
}

#[test]
fn optimize_leaves_a_lone_filter_of_its_options_alone() {
    let (filters, _) = parse_filters(&lines(&["/static/ad-", "/static/ad.$script"]), true, ParseOptions::default());
    let optimized = optimize(filters);
    let texts: Vec<String> = optimized.iter().map(|f| f.to_string()).collect();
    assert_eq!(texts, vec!["/static/ad-", "/static/ad.$script"]);
}

#[test]
fn engine_with_optimizations_reports_the_merged_rule() {
    let rules = lines(&["/static/ad-", "/static/ad."]);
    let merged = Engine::from_rules_parametrised(&rules, true, false, true, true);
    let result = merged.check_network_urls("https://example.com/static/ad-", "https://example.com", "script");
    assert!(result.matched);
    assert_eq!(result.filter, Some(String::from("/static/ad- <+> /static/ad.")));

    let plain = Engine::from_rules_parametrised(&rules, true, false, true, false);
    let result = plain.check_network_urls("https://example.com/static/ad-", "https://example.com", "script");
    assert!(result.matched);
    assert_eq!(result.filter, Some(String::from("/static/ad-")));
}
