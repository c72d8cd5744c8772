use std::collections::HashSet;

use adblock::engine::Engine;
use adblock::match_debug_stats::{reset, take, MatchDebugStats, MatchStage};
use adblock::request::Request;
use adblock::resources::{MimeType, Resource, ResourceType};

#[test]
fn engine_tags_enable_adds_tags() {
    let filters = vec![
        String::from("adv$tag=stuff"),
        String::from("somelongpath/test$tag=stuff"),
        String::from("||brianbondy.com/$tag=brian"),
        String::from("||brave.com$tag=brian"),
    ];
    let url_results = vec![
        ("http://example.com/advert.html", true),
        ("http://example.com/somelongpath/test/2.html", true),
        ("https://brianbondy.com/about", true),
        ("https://brave.com/about", true),
    ];

    let mut engine = Engine::from_rules(&filters);
    engine.tags_enable(&["stuff"]);
    engine.tags_enable(&["brian"]);

    url_results.into_iter().for_each(|(url, expected_result)| {
        let matched_rule = engine.check_network_urls(&url, "", "");
        if expected_result {
            assert!(matched_rule.matched, "Expected match for {}", url);
        } else {
            assert!(!matched_rule.matched, "Expected no match for {}, matched with {:?}", url, matched_rule.filter);
        }
    });
}

#[test]
fn engine_tags_disable_works() {
    let filters = vec![
        String::from("adv$tag=stuff"),
        String::from("somelongpath/test$tag=stuff"),
        String::from("||brianbondy.com/$tag=brian"),
        String::from("||brave.com$tag=brian"),
    ];
    let url_results = vec![
        ("http://example.com/advert.html", false),
        ("http://example.com/somelongpath/test/2.html", false),
        ("https://brianbondy.com/about", true),
        ("https://brave.com/about", true),
    ];

    let mut engine = Engine::from_rules(&filters);
    engine.tags_enable(&["brian", "stuff"]);
    engine.tags_disable(&["stuff"]);

    url_results.into_iter().for_each(|(url, expected_result)| {
        let matched_rule = engine.check_network_urls(&url, "", "");
        if expected_result {
            assert!(matched_rule.matched, "Expected match for {}", url);
        } else {
            assert!(!matched_rule.matched, "Expected no match for {}, matched with {:?}", url, matched_rule.filter);
        }
    });
}

#[test]
fn exception_tags_inactive_by_default() {
    let filters = vec![
        String::from("adv"),
        String::from("||brianbondy.com/$tag=brian"),
        String::from("@@||brianbondy.com/$tag=brian"),
    ];
    let url_results = vec![
        ("http://example.com/advert.html", true),
        ("https://brianbondy.com/about", false),
        ("https://brianbondy.com/advert", true),
    ];

    let engine = Engine::from_rules(&filters);

    url_results.into_iter().for_each(|(url, expected_result)| {
        let matched_rule = engine.check_network_urls(&url, "", "");
        if expected_result {
            assert!(matched_rule.matched, "Expected match for {}", url);
        } else {
            assert!(!matched_rule.matched, "Expected no match for {}, matched with {:?}", url, matched_rule.filter);
        }
    });
}

#[test]
fn exception_tags_works() {
    let filters = vec![
        String::from("adv"),
        String::from("||brianbondy.com/$tag=brian"),
        String::from("@@||brianbondy.com/$tag=brian"),
    ];
    let url_results = vec![
        ("http://example.com/advert.html", true),
        ("https://brianbondy.com/about", false),
        ("https://brianbondy.com/advert", false),
    ];

    let mut engine = Engine::from_rules(&filters);
    engine.tags_enable(&["brian", "stuff"]);

    url_results.into_iter().for_each(|(url, expected_result)| {
        let matched_rule = engine.check_network_urls(&url, "", "");
        if expected_result {
            assert!(matched_rule.matched, "Expected match for {}", url);
        } else {
            assert!(!matched_rule.matched, "Expected no match for {}, matched with {:?}", url, matched_rule.filter);
        }
    });
}

#[test]
fn redirect_resource_insertion_works() {
    let mut engine = Engine::from_rules(&["ad-banner$redirect=nooptext".to_owned()]);

    engine.resource_add(Resource {
        name: "nooptext".to_owned(),
        aliases: vec![],
        kind: ResourceType::Mime(MimeType::TextPlain),
        content: "".to_owned(),
    });

    let url = "http://example.com/ad-banner.gif";
    let matched_rule = engine.check_network_urls(url, "", "");
    assert!(matched_rule.matched, "Expected match for {}", url);
    assert_eq!(matched_rule.redirect, Some("data:text/plain;base64,".to_owned()), "Expected redirect to contain resource");
}

#[test]
fn redirect_resource_lookup_works() {
    let script = r#"
(function() {
	;
})();

        "#;

    let mut engine = Engine::default();

    engine.resource_add(Resource {
        name: "noopjs".to_owned(),
        aliases: vec![],
        kind: ResourceType::Mime(MimeType::ApplicationJavascript),
        content: script.to_owned(),
    });
    let inserted_resource = engine.resource_get("noopjs");
    assert!(inserted_resource.is_some());
    let resource = inserted_resource.unwrap();
    assert_eq!(resource.content_type, "application/javascript");
    assert_eq!(&resource.data, script);
}

fn static_assert_sync<S: Sync>() {
    let _ = core::marker::PhantomData::<S>::default();
}

#[test]
fn assert_engine_sync() {
    static_assert_sync::<Engine>();
}

#[test]
fn collects_filter_check_and_match_stage() {
    let mut stats = MatchDebugStats::default();
    reset(&mut stats);
    let engine = Engine::new_with_list_text("||example.com^$script");
    let request =
        Request::new("https://example.com/ads.js", "https://foo.com/", "script", "").unwrap();
    assert!(engine.check_network_request_with_stats(&request, &mut stats).matched);
    let stats = take(&mut stats);
    assert!(stats.filters_checked >= 1);
    assert_eq!(stats.filters_matched, 1);
    assert_eq!(stats.last_match_stage, Some(MatchStage::Pattern));
}

#[test]
fn unparsable_url_is_reported() {
    let engine = Engine::from_rules(&["ads".to_owned()]);
    let r = engine.check_network_urls("not a url", "", "");
    assert!(!r.matched);
    assert_eq!(r.error, Some("Error parsing request".to_owned()));
}

#[test]
fn hostnames_check_and_tag_exists() {
    let mut engine = Engine::from_rules(&["||tracker.com^$third-party".to_owned()]);
    let r = engine.check_network_urls_with_hostnames("https://tracker.com/t.js", "tracker.com", "news.com", "script", None);
    assert!(r.matched);
    let r = engine.check_network_urls_with_hostnames("https://tracker.com/t.js", "tracker.com", "tracker.com", "script", None);
    assert!(!r.matched);
    assert!(!engine.tag_exists("x"));
    engine.with_tags(&["x"]);
    assert!(engine.tag_exists("x"));
}

#[test]
fn generichide() {
    let filters = vec![
        String::from("##.donotblock"),
        String::from("##a[href=\"generic.com\"]"),
        String::from("@@||example.com$generichide"),
        String::from("example.com##.block"),
        String::from("@@||example2.com/test.html$generichide"),
        String::from("example2.com##.block"),
    ];
    let url_results = vec![
        ("https://example.com", vec![".block"], true),
        ("https://example.com/test.html", vec![".block"], true),
        ("https://example2.com", vec![".block", "a[href=\"generic.com\"]"], false),
        ("https://example2.com/test.html", vec![".block"], true),
    ];

    let engine = Engine::from_rules(&filters);

    url_results.into_iter().for_each(|(url, expected_result, expected_generichide)| {
        let result = engine.url_cosmetic_resources(url);
        assert_eq!(
            result.hide_selectors.iter().cloned().collect::<HashSet<_>>(),
            expected_result.iter().map(|s| s.to_string()).collect::<HashSet<_>>()
        );
        assert_eq!(result.generichide, expected_generichide);
    });
}

#[test]
fn class_and_id_rules_follow_the_page() {
    let filters = vec![
        String::from("##.ad"),
        String::from("###banner"),
        String::from("##.ad > .inner"),
        String::from("example.com#@#.ad"),
    ];
    let engine = Engine::from_rules(&filters);
    let classes = vec!["ad".to_string(), "other".to_string()];
    let ids = vec!["banner".to_string()];
    let none: Vec<String> = vec![];
    assert_eq!(
        engine.hidden_class_id_selectors(&classes, &ids, &none),
        vec![".ad".to_string(), ".ad > .inner".to_string(), "#banner".to_string()]
    );
    let resources = engine.url_cosmetic_resources("https://example.com/page");
    assert_eq!(resources.exceptions, vec![".ad".to_string()]);
    assert_eq!(
        engine.hidden_class_id_selectors(&classes, &ids, &resources.exceptions),
        vec![".ad > .inner".to_string(), "#banner".to_string()]
    );
}

#[test]
fn filter_add_and_exists() {
    let mut engine = Engine::default();
    assert!(!engine.filter_exists("||ads.example.com^"));
    engine.filter_add("||ads.example.com^");
    assert!(engine.filter_exists("||ads.example.com^"));
    assert!(!engine.filter_exists("not a [valid filter$unknownoption"));
    engine.filter_add("example.org##.promo");
    let resources = engine.url_cosmetic_resources("https://www.example.org/");
    assert!(resources.hide_selectors.contains(&".promo".to_string()));
    let other = engine.url_cosmetic_resources("https://example.net/");
    assert!(other.hide_selectors.is_empty());
}

#[test]
fn url_without_host_gets_nothing() {
    let engine = Engine::from_rules(&[String::from("##.ad-generic")]);
    let resources = engine.url_cosmetic_resources("not a url");
    assert!(resources.hide_selectors.is_empty());
    assert!(!resources.generichide);
}

#[test]
fn from_rules_matches_parametrised_defaults() {
    let rules: Vec<String> = ["||ads.com^", "@@||ads.com/ok^", "banner$image", "example.com##.ad", "##.generic"]
        .iter()
        .map(|s| s.to_string())
        .collect();
    let a = Engine::from_rules(&rules);
    let b = Engine::from_rules_parametrised(&rules, true, true, false, true);
    for (url, ty) in [("https://ads.com/x", "script"), ("https://ads.com/ok/x", "script"), ("https://x.org/banner.png", "image")] {
        let ra = a.check_network_urls(url, "https://example.com", ty);
        let rb = b.check_network_urls(url, "https://example.com", ty);
        assert_eq!(ra.matched, rb.matched);
        assert_eq!(ra.filter, rb.filter);
        assert_eq!(ra.exception, rb.exception);
    }
    let ca = a.url_cosmetic_resources("https://example.com/page");
    let cb = b.url_cosmetic_resources("https://example.com/page");
    assert_eq!(ca.hide_selectors, cb.hide_selectors);
    assert_eq!(ca.generichide, cb.generichide);
}
