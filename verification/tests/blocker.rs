use std::collections::{HashMap, HashSet};

use adblock::blocker::{
    insert_dup, token_histogram, vec_hashmap_len, Blocker, BlockerError, BlockerOptions,
    CheckResult, NetworkFilterList,
};
use adblock::filters::network::NetworkFilter;
use adblock::lists::{parse_filters, ParseOptions};
use adblock::request::Request;
use adblock::resources::{MimeType, Resource, ResourceType};
use adblock::utils::fast_hash;

fn parse_all(filters: Vec<&str>) -> Vec<NetworkFilter> {
    filters
        .into_iter()
        .map(|f| NetworkFilter::parse(f, true, ParseOptions::default()))
        .filter_map(Result::ok)
        .collect()
}

#[test]
fn insert_dup_works() {
    let mut dup_map: HashMap<u64, Vec<String>> = HashMap::new();

    // inserts into empty
    insert_dup(&mut dup_map, 1, String::from("foo"));
    assert_eq!(dup_map.get(&1), Some(&vec![String::from("foo")]));

    // adds item
    insert_dup(&mut dup_map, 1, String::from("bar"));
    assert_eq!(
        dup_map.get(&1),
        Some(&vec![String::from("foo"), String::from("bar")])
    );

    // inserts into another key item
    insert_dup(&mut dup_map, 123, String::from("baz"));
    assert_eq!(dup_map.get(&123), Some(&vec![String::from("baz")]));
    assert_eq!(
        dup_map.get(&1),
        Some(&vec![String::from("foo"), String::from("bar")])
    );
}

#[test]
fn token_histogram_works() {
    // handle the case of just 1 token
    {
        let tokens = vec![(0, vec![vec![111]])];
        let (total_tokens, histogram) = token_histogram(&tokens);
        assert_eq!(total_tokens, 1);
        assert_eq!(histogram.get(&111), Some(&1));
        // include bad tokens
        assert_eq!(histogram.get(&fast_hash("http")), Some(&1));
        assert_eq!(histogram.get(&fast_hash("www")), Some(&1));
    }

    // handle the case of repeating tokens
    {
        let tokens = vec![(0, vec![vec![111]]), (1, vec![vec![111]])];
        let (total_tokens, histogram) = token_histogram(&tokens);
        assert_eq!(total_tokens, 2);
        assert_eq!(histogram.get(&111), Some(&2));
        // include bad tokens
        assert_eq!(histogram.get(&fast_hash("http")), Some(&2));
        assert_eq!(histogram.get(&fast_hash("www")), Some(&2));
    }

    // handle the different token set sizes
    {
        let tokens = vec![
            (0, vec![vec![111, 123, 132]]),
            (1, vec![vec![111], vec![123], vec![132]]),
            (2, vec![vec![111, 123], vec![132]]),
            (3, vec![vec![111, 111], vec![111]]),
        ];
        let (total_tokens, histogram) = token_histogram(&tokens);
        assert_eq!(total_tokens, 12);
        assert_eq!(histogram.get(&111), Some(&6));
        assert_eq!(histogram.get(&123), Some(&3));
        assert_eq!(histogram.get(&132), Some(&3));
        // include bad tokens
        assert_eq!(histogram.get(&fast_hash("http")), Some(&12));
        assert_eq!(histogram.get(&fast_hash("www")), Some(&12));
    }
}

#[test]
fn network_filter_list_new_works() {
    {
        let network_filters = parse_all(vec!["||foo.com"]);
        let filter_list = NetworkFilterList::new(network_filters, false);
        let maybe_matching_filter = filter_list.filter_map.get(&fast_hash("foo"));
        assert!(maybe_matching_filter.is_some(), "Expected filter not found");
    }
    // choses least frequent token
    {
        let network_filters = parse_all(vec!["||foo.com", "||bar.com/foo"]);
        let filter_list = NetworkFilterList::new(network_filters, false);
        assert_eq!(
            filter_list.filter_map.get(&fast_hash("bar")).unwrap().len(),
            1
        );
        assert_eq!(
            filter_list.filter_map.get(&fast_hash("foo")).unwrap().len(),
            1
        );
    }
    // choses blacklisted token when no other choice
    {
        let network_filters = parse_all(vec!["||foo.com", "||foo.com/bar", "||www"]);
        let filter_list = NetworkFilterList::new(network_filters, false);
        assert!(
            filter_list.filter_map.get(&fast_hash("www")).is_some(),
            "Filter matching {} not found",
            "www"
        );
        assert_eq!(
            filter_list.filter_map.get(&fast_hash("www")).unwrap().len(),
            1
        );
    }
    // uses domain as token when only one domain
    {
        let network_filters = parse_all(vec!["||foo.com", "||foo.com$domain=bar.com"]);
        let filter_list = NetworkFilterList::new(network_filters, false);
        assert!(
            filter_list.filter_map.get(&fast_hash("bar.com")).is_some(),
            "Filter matching {} not found",
            "bar.com"
        );
        assert_eq!(
            filter_list
                .filter_map
                .get(&fast_hash("bar.com"))
                .unwrap()
                .len(),
            1
        );
    }
    // dispatches filter to multiple buckets per domain options if no token in main part
    {
        let network_filters = parse_all(vec!["foo*$domain=bar.com|baz.com"]);
        let filter_list = NetworkFilterList::new(network_filters, false);
        assert_eq!(filter_list.filter_map.len(), 2);
        assert!(
            filter_list.filter_map.get(&fast_hash("bar.com")).is_some(),
            "Filter matching {} not found",
            "bar.com"
        );
        assert_eq!(
            filter_list
                .filter_map
                .get(&fast_hash("bar.com"))
                .unwrap()
                .len(),
            1
        );
        assert!(
            filter_list.filter_map.get(&fast_hash("baz.com")).is_some(),
            "Filter matching {} not found",
            "baz.com"
        );
        assert_eq!(
            filter_list
                .filter_map
                .get(&fast_hash("baz.com"))
                .unwrap()
                .len(),
            1
        );
    }
}

#[test]
fn filter_add_badfilter_error() {
    let blocker_options: BlockerOptions = BlockerOptions {
        debug: false,
        enable_optimizations: false,
        load_cosmetic_filters: false,
        load_network_filters: true,
    };

    let mut blocker = Blocker::new(Vec::new(), &blocker_options);

    let filter = NetworkFilter::parse("adv$badfilter", true, ParseOptions::default()).unwrap();
    let added = blocker.filter_add(filter);
    assert!(added.is_err());
    assert_eq!(added.err().unwrap(), BlockerError::BadFilterAddUnsupported);
}

fn options() -> BlockerOptions {
    BlockerOptions {
        debug: true,
        enable_optimizations: false,
        load_cosmetic_filters: false,
        load_network_filters: true,
    }
}

#[test]
fn added_filter_exists_and_refuses_duplicates() {
    let mut blocker = Blocker::new(Vec::new(), &options());
    let filter = NetworkFilter::parse("adv", true, ParseOptions::default()).unwrap();
    let copy = NetworkFilter::parse("adv", true, ParseOptions::default()).unwrap();
    assert_eq!(blocker.filter_exists(&filter), Ok(false));
    assert!(blocker.filter_add(filter).is_ok());
    assert_eq!(blocker.filter_exists(&copy), Ok(true));
    assert_eq!(blocker.filter_add(copy), Err(BlockerError::FilterExists));
}

#[test]
fn badfilter_cancels_filter_with_same_id() {
    let filters = parse_all(vec!["||example.com^", "||example.com^$badfilter"]);
    let blocker = Blocker::new(filters, &options());
    let request = Request::new("https://example.com/ads.js", "https://example.com/", "script", "").unwrap();
    let result = blocker.check(&request);
    assert!(!result.matched);
    assert!(result.filter.is_none());
}

#[test]
fn exception_overrides_block() {
    let filters = parse_all(vec!["||example.com/ads^", "@@||example.com/ads/good.js"]);
    let blocker = Blocker::new(filters, &options());
    let bad = Request::new("https://example.com/ads/bad.js", "https://news.com/", "script", "").unwrap();
    let good = Request::new("https://example.com/ads/good.js", "https://news.com/", "script", "").unwrap();
    let r1 = blocker.check(&bad);
    assert!(r1.matched);
    assert_eq!(r1.filter, Some("||example.com/ads^".to_string()));
    let r2 = blocker.check(&good);
    assert!(!r2.matched);
    assert_eq!(r2.filter, Some("||example.com/ads^".to_string()));
    assert_eq!(r2.exception, Some("@@||example.com/ads/good.js".to_string()));
}

#[test]
fn important_ignores_exceptions() {
    let filters = parse_all(vec!["||example.com/ads^$important", "@@||example.com/ads/"]);
    let blocker = Blocker::new(filters, &options());
    let req = Request::new("https://example.com/ads/x.js", "https://news.com/", "script", "").unwrap();
    let r = blocker.check(&req);
    assert!(r.matched);
    assert!(r.important);
    assert!(r.exception.is_none());
}

#[test]
fn nothing_loaded_blocks_nothing() {
    let filters = parse_all(vec!["ads"]);
    let mut opts = options();
    opts.load_network_filters = false;
    let blocker = Blocker::new(filters, &opts);
    let req = Request::new("https://example.com/ads.js", "", "script", "").unwrap();
    let r = blocker.check(&req);
    assert!(!r.matched);
    assert!(r.filter.is_none());
}

#[test]
fn redirect_uses_base64_of_resource_data() {
    let filters = parse_all(vec!["ad-banner$redirect=noop.txt"]);
    let mut blocker = Blocker::new(filters, &options());
    blocker.resource_add(Resource {
        name: "noop.txt".to_owned(),
        aliases: vec!["noop".to_owned()],
        kind: ResourceType::Mime(MimeType::TextPlain),
        content: "abc".to_owned(),
    });
    assert!(blocker.resource_get("noop").is_some());
    let req = Request::new("http://example.com/ad-banner.gif", "", "image", "").unwrap();
    let r = blocker.check(&req);
    assert!(r.matched);
    assert_eq!(r.redirect, Some("data:text/plain;base64,YWJj".to_owned()));
}

#[test]
fn tags_enable_and_disable() {
    let filters = parse_all(vec!["adv$tag=stuff"]);
    let mut blocker = Blocker::new(filters, &options());
    let req = Request::new("http://example.com/advert.html", "", "", "").unwrap();
    assert!(!blocker.check(&req).matched);
    blocker.tags_enable(&["stuff"]);
    assert_eq!(blocker.tags_enabled(), vec!["stuff".to_string()]);
    assert!(blocker.check(&req).matched);
    blocker.tags_disable(&["stuff"]);
    assert!(blocker.tags_enabled().is_empty());
    assert!(!blocker.check(&req).matched);
    blocker.with_tags(&["other", "stuff"]);
    assert!(blocker.check(&req).matched);
}

fn list_requests_filters(filters: &[&str], requests: &[(Request, bool)]) {
    let network_filters = parse_all(filters.to_vec());
    let filter_list = NetworkFilterList::new(network_filters, false);
    for (req, expected_result) in requests {
        let matched_rule = filter_list.check(req);
        if *expected_result {
            assert!(matched_rule.is_some(), "Expected match for {}", req.url);
        } else {
            assert!(
                matched_rule.is_none(),
                "Expected no match for {}, matched with {:?}",
                req.url,
                matched_rule.map(|f| f.to_string())
            );
        }
    }
}

fn from_url(url: &str) -> Request {
    Request::new(url, "", "", "").unwrap()
}

#[test]
fn network_filter_list_check_works_plain_filter() {
    // includes cases with fall back to 0 bucket (no tokens from a rule)
    let filters = [
        "foo",
        "-foo-",
        "&fo.o=+_-",
        "foo/bar/baz",
        "com/bar/baz",
        "https://bar.com/bar/baz",
    ];
    let url_results = [
        ("https://bar.com/foo", true),
        ("https://bar.com/baz/foo", true),
        ("https://bar.com/q=foo/baz", true),
        ("https://foo.com", true),
        ("https://bar.com/baz/42-foo-q", true),
        ("https://bar.com?baz=42&fo.o=+_-", true),
        ("https://bar.com/foo/bar/baz", true),
        ("https://bar.com/bar/baz", true),
    ];
    let requests: Vec<_> = url_results.iter().map(|(u, e)| (from_url(u), *e)).collect();
    list_requests_filters(&filters, &requests);
}

#[test]
fn network_filter_list_check_works_hostname_anchor() {
    let filters = ["||foo.com", "||bar.com/bar", "||coo.baz.", "||foo.bar.com^", "||foo.baz^"];
    let url_results = [
        ("https://foo.com/bar", true),
        ("https://bar.com/bar", true),
        ("https://baz.com/bar", false),
        ("https://baz.foo.com/bar", true),
        ("https://coo.baz.com/bar", true),
        ("https://foo.bar.com/bar", true),
        ("https://foo.baz.com/bar", false),
        ("https://baz.com", false),
        ("https://foo-bar.baz.com/bar", false),
        ("https://foo.de", false),
        ("https://bar.foo.de", false),
    ];
    let requests: Vec<_> = url_results.iter().map(|(u, e)| (from_url(u), *e)).collect();
    list_requests_filters(&filters, &requests);
}

#[test]
fn network_filter_list_check_works_unicode() {
    let filters = ["||firstrowsports.li/frame/", "||fırstrowsports.eu/pu/", "||atđhe.net/pu/"];
    let requests = vec![
        (from_url("https://firstrowsports.li/frame/bar"), true),
        (from_url("https://secondrowsports.li/frame/bar"), false),
        (from_url("https://fırstrowsports.eu/pu/foo"), true),
        (from_url("https://xn--frstrowsports-39b.eu/pu/foo"), true),
        (from_url("https://atđhe.net/pu/foo"), true),
        (from_url("https://xn--athe-1ua.net/pu/foo"), true),
    ];
    list_requests_filters(&filters, &requests);
}

#[test]
fn network_filter_list_check_works_regex_escaping() {
    let filters = [
        r#"/^https?:\/\/.*(bitly|bit)\.(com|ly)\/.*/$domain=123movies.com|1337x.to"#,
        r#"/\:\/\/data.*\.com\/[a-zA-Z0-9]{30,}/$third-party,xmlhttprequest"#,
    ];
    let requests = vec![
        (Request::new("https://bit.ly/bar/", "http://123movies.com", "", "").unwrap(), true),
        (
            Request::new(
                "https://data.foo.com/9VjjrjU9Or2aqkb8PDiqTBnULPgeI48WmYEHkYer",
                "http://123movies.com",
                "xmlhttprequest",
                "",
            )
            .unwrap(),
            true,
        ),
    ];
    list_requests_filters(&filters, &requests);
}

fn unoptimized() -> BlockerOptions {
    BlockerOptions {
        debug: false,
        enable_optimizations: false,
        load_cosmetic_filters: false,
        load_network_filters: true,
    }
}

fn blocker_from(filters: &[&str]) -> Blocker {
    let lines: Vec<String> = filters.iter().map(|f| f.to_string()).collect();
    let (network_filters, _) = parse_filters(&lines, true, ParseOptions::default());
    Blocker::new(network_filters, &unoptimized())
}

fn blocker_requests(blocker: &Blocker, requests: &[(Request, bool)]) {
    for (req, expected_result) in requests {
        let matched_rule = blocker.check(req);
        if *expected_result {
            assert!(matched_rule.matched, "Expected match for {}", req.url);
        } else {
            assert!(
                !matched_rule.matched,
                "Expected no match for {}, matched with {:?}",
                req.url,
                matched_rule.filter
            );
        }
    }
}

fn enabled_set(blocker: &Blocker) -> HashSet<String> {
    blocker.tags_enabled.iter().cloned().collect()
}

fn string_set(v: &[&str]) -> HashSet<String> {
    v.iter().map(|s| s.to_string()).collect()
}

#[test]
fn badfilter_does_not_match() {
    let blocker = blocker_from(&["||foo.com$badfilter"]);
    let requests = vec![(Request::new("https://foo.com", "https://bar.com", "image", "").unwrap(), false)];
    blocker_requests(&blocker, &requests);
}

#[test]
fn badfilter_cancels_with_same_id() {
    let blocker = blocker_from(&[
        "||foo.com$domain=bar.com|foo.com,badfilter",
        "||foo.com$domain=foo.com|bar.com",
    ]);
    let requests = vec![(Request::new("https://foo.com", "https://bar.com", "image", "").unwrap(), false)];
    blocker_requests(&blocker, &requests);
}

#[test]
fn badfilter_does_not_cancel_similar_filter() {
    let blocker = blocker_from(&[
        "||foo.com$domain=bar.com|foo.com,badfilter",
        "||foo.com$domain=foo.com|bar.com,image",
    ]);
    let requests = vec![(Request::new("https://foo.com", "https://bar.com", "image", "").unwrap(), true)];
    blocker_requests(&blocker, &requests);
}

const TAGGED: [&str; 4] = [
    "adv$tag=stuff",
    "somelongpath/test$tag=stuff",
    "||brianbondy.com/$tag=brian",
    "||brave.com$tag=brian",
];

#[test]
fn tags_enable_works() {
    let mut blocker = blocker_from(&TAGGED);
    blocker.tags_enable(&["stuff"]);
    assert_eq!(enabled_set(&blocker), string_set(&["stuff"]));
    assert_eq!(vec_hashmap_len(&blocker.filters_tagged.filter_map), 2);
    let requests = vec![
        (from_url("http://example.com/advert.html"), true),
        (from_url("http://example.com/somelongpath/test/2.html"), true),
        (from_url("https://brianbondy.com/about"), false),
        (from_url("https://brave.com/about"), false),
    ];
    blocker_requests(&blocker, &requests);
}

#[test]
fn blocker_tags_enable_adds_tags() {
    let mut blocker = blocker_from(&TAGGED);
    blocker.tags_enable(&["stuff"]);
    blocker.tags_enable(&["brian"]);
    assert_eq!(enabled_set(&blocker), string_set(&["brian", "stuff"]));
    assert_eq!(vec_hashmap_len(&blocker.filters_tagged.filter_map), 4);
    let requests = vec![
        (from_url("http://example.com/advert.html"), true),
        (from_url("http://example.com/somelongpath/test/2.html"), true),
        (from_url("https://brianbondy.com/about"), true),
        (from_url("https://brave.com/about"), true),
    ];
    blocker_requests(&blocker, &requests);
}

#[test]
fn blocker_tags_disable_works() {
    let mut blocker = blocker_from(&TAGGED);
    blocker.tags_enable(&["brian", "stuff"]);
    assert_eq!(enabled_set(&blocker), string_set(&["brian", "stuff"]));
    assert_eq!(vec_hashmap_len(&blocker.filters_tagged.filter_map), 4);
    blocker.tags_disable(&["stuff"]);
    assert_eq!(enabled_set(&blocker), string_set(&["brian"]));
    assert_eq!(vec_hashmap_len(&blocker.filters_tagged.filter_map), 2);
    let requests = vec![
        (from_url("http://example.com/advert.html"), false),
        (from_url("http://example.com/somelongpath/test/2.html"), false),
        (from_url("https://brianbondy.com/about"), true),
        (from_url("https://brave.com/about"), true),
    ];
    blocker_requests(&blocker, &requests);
}

#[test]
fn filter_add_tagged() {
    let blocker_options = BlockerOptions {
        debug: false,
        enable_optimizations: true,
        load_cosmetic_filters: false,
        load_network_filters: true,
    };
    let mut blocker = Blocker::new(Vec::new(), &blocker_options);
    blocker.tags_enable(&["brian"]);
    for f in TAGGED.iter() {
        blocker
            .filter_add(NetworkFilter::parse(f, true, ParseOptions::default()).unwrap())
            .unwrap();
    }
    let requests = vec![
        (from_url("http://example.com/advert.html"), false),
        (from_url("http://example.com/somelongpath/test/2.html"), false),
        (from_url("https://brianbondy.com/about"), true),
        (from_url("https://brave.com/about"), true),
    ];
    blocker_requests(&blocker, &requests);
}

#[test]
fn vec_hashmap_len_counts_every_value() {
    let mut map: HashMap<u64, Vec<u8>> = HashMap::new();
    assert_eq!(vec_hashmap_len(&map), 0);
    insert_dup(&mut map, 1, 10);
    insert_dup(&mut map, 1, 11);
    insert_dup(&mut map, 7, 12);
    assert_eq!(vec_hashmap_len(&map), 3);
}

#[test]
fn check_all_reports_every_match() {
    let network_filters = parse_all(vec!["||foo.com^", "ads", "||foo.com/ads$script", "||bar.com"]);
    let filter_list = NetworkFilterList::new(network_filters, false);
    let req = Request::new("https://foo.com/ads/x.js", "", "script", "").unwrap();
    let all = filter_list.check_all(&req);
    let rules: HashSet<String> = all.iter().map(|c| c.to_string()).collect();
    assert_eq!(rules, string_set(&["||foo.com^", "ads", "||foo.com/ads$script"]));
    let first = filter_list.check(&req).unwrap().to_string();
    assert!(rules.contains(&first));
    let other = Request::new("https://baz.com/", "", "script", "").unwrap();
    assert!(filter_list.check_all(&other).is_empty());
}

#[test]
fn check_result_without_rule_shows_mask_in_binary() {
    let f = NetworkFilter::parse("||foo.com^", false, ParseOptions::default()).unwrap();
    let r = CheckResult::from_filter(&f);
    assert!(r.raw_line.is_none());
    assert_eq!(r.to_string(), format!("{:b}", f.mask.bits));
}

#[test]
fn tags_disable_undoes_enable() {
    let mut blocker = blocker_from(&TAGGED);
    blocker.tags_enable(&["brian"]);
    blocker.tags_enable(&["stuff", "other"]);
    blocker.tags_disable(&["stuff", "other"]);
    assert_eq!(enabled_set(&blocker), string_set(&["brian"]));
}

#[test]
fn tagged_important_and_redirect_filters_always_apply() {
    let blocker = blocker_from(&["||a.com^$important,tag=t", "||b.com^$redirect=noop.js,tag=t", "@@||a.com^"]);
    assert_eq!(vec_hashmap_len(&blocker.importants.filter_map), 1);
    assert_eq!(vec_hashmap_len(&blocker.redirects.filter_map), 1);
    assert!(blocker.tagged_filters_all.is_empty());
    blocker_requests(&blocker, &[(from_url("https://a.com/x.js"), true)]);
}

#[test]
fn filter_add_appends_one_entry_per_token_group() {
    let fs: Vec<NetworkFilter> = ["||a.com/ads^", "banner", "$domain=x.com|y.com"]
        .iter()
        .map(|l| NetworkFilter::parse(l, true, ParseOptions::default()).unwrap())
        .collect();
    let mut list = NetworkFilterList::new(fs, false);
    let before = vec_hashmap_len(&list.filter_map);
    let f = NetworkFilter::parse("/tracker.js$domain=a.com|b.com", true, ParseOptions::default()).unwrap();
    let groups = f.get_tokens().len();
    list.filter_add(f.clone());
    assert_eq!(vec_hashmap_len(&list.filter_map), before + groups);
    assert_eq!(list.filter_exists(&f), Ok(true));
}

#[test]
fn new_blocker_finds_every_kept_filter() {
    let lines = ["||a.com^", "@@||b.com^", "||c.com^$important", "||d.com^$redirect=noop.js",
        "||e.com^$tag=t", "||f.com^", "||f.com^$badfilter"];
    let blocker = blocker_from(&lines);
    for l in &lines[..5] {
        let f = NetworkFilter::parse(l, true, ParseOptions::default()).unwrap();
        assert_eq!(blocker.filter_exists(&f), Ok(true), "{}", l);
    }
    let cancelled = NetworkFilter::parse("||f.com^", true, ParseOptions::default()).unwrap();
    assert_eq!(blocker.filter_exists(&cancelled), Ok(false));
}

#[test]
fn redirect_base64_pads_and_encodes_utf8() {
    for (content, encoded) in [("é", "w6k="), ("ab", "YWI="), ("abcd", "YWJjZA==")] {
        let filters = parse_all(vec!["ad-banner$redirect=noop.txt"]);
        let mut blocker = Blocker::new(filters, &options());
        blocker.resource_add(Resource {
            name: "noop.txt".to_owned(),
            aliases: vec![],
            kind: ResourceType::Mime(MimeType::TextPlain),
            content: content.to_owned(),
        });
        let req = Request::new("http://example.com/ad-banner.gif", "", "image", "").unwrap();
        let r = blocker.check(&req);
        assert_eq!(r.redirect, Some(format!("data:text/plain;base64,{}", encoded)));
    }
}

#[test]
fn resource_read_after_write() {
    let mut blocker = Blocker::new(vec![], &options());
    blocker.resource_add(Resource {
        name: "a.js".to_owned(),
        aliases: vec!["a".to_owned()],
        kind: ResourceType::Mime(MimeType::ApplicationJavascript),
        content: "x".to_owned(),
    });
    blocker.resource_add(Resource {
        name: "b.js".to_owned(),
        aliases: vec![],
        kind: ResourceType::Mime(MimeType::ApplicationJavascript),
        content: "y".to_owned(),
    });
    assert!(blocker.resource_get("a").is_some());
    assert!(blocker.resource_get("a.js").is_some());
    assert!(blocker.resource_get("b.js").is_some());
    assert!(blocker.resource_get("c.js").is_none());
}
