use adblock::lists::{parse_filter, FilterFormat, FilterSet, ParseOptions, ParsedFilter, RuleTypes};

#[test]
fn parse_hosts_style() {
    {
        let input = "www.malware.com";
        let result = parse_filter(input, true, ParseOptions { format: FilterFormat::Hosts, ..Default::default() });
        assert!(result.is_ok());
    }
    {
        let input = "www.malware.com/virus.txt";
        let result = parse_filter(input, true, ParseOptions { format: FilterFormat::Hosts, ..Default::default() });
        assert!(result.is_err());
    }
    {
        let input = "127.0.0.1 www.malware.com";
        let result = parse_filter(input, true, ParseOptions { format: FilterFormat::Hosts, ..Default::default() });
        assert!(result.is_ok());
    }
    {
        let input = "127.0.0.1\t\twww.malware.com";
        let result = parse_filter(input, true, ParseOptions { format: FilterFormat::Hosts, ..Default::default() });
        assert!(result.is_ok());
    }
    {
        let input = "0.0.0.0    www.malware.com";
        let result = parse_filter(input, true, ParseOptions { format: FilterFormat::Hosts, ..Default::default() });
        assert!(result.is_ok());
    }
    {
        let input = "0.0.0.0    www.malware.com     # replace after issue #289336 is addressed";
        let result = parse_filter(input, true, ParseOptions { format: FilterFormat::Hosts, ..Default::default() });
        assert!(result.is_ok());
    }
    {
        let input = "! Title: list.txt";
        let result = parse_filter(input, true, ParseOptions { format: FilterFormat::Hosts, ..Default::default() });
        assert!(result.is_err());
    }
    {
        let input = "127.0.0.1 localhost";
        let result = parse_filter(input, true, ParseOptions { format: FilterFormat::Hosts, ..Default::default() });
        assert!(result.is_err());
    }
    {
        let input = "127.0.0.1 com";
        let result = parse_filter(input, true, ParseOptions { format: FilterFormat::Hosts, ..Default::default() });
        assert!(result.is_err());
    }
    {
        let input = ".com";
        let result = parse_filter(input, true, ParseOptions { format: FilterFormat::Hosts, ..Default::default() });
        assert!(result.is_err());
    }
    {
        let input = "*.com";
        let result = parse_filter(input, true, ParseOptions { format: FilterFormat::Hosts, ..Default::default() });
        assert!(result.is_err());
    }
    {
        let input = "www.";
        let result = parse_filter(input, true, ParseOptions { format: FilterFormat::Hosts, ..Default::default() });
        assert!(result.is_err());
    }
}

#[test]
fn parse_filter_failed_fuzz_1() {
    let input = "Ѥ";
    let result = parse_filter(input, true, Default::default());
    assert!(result.is_ok());
}

#[test]
fn parse_filter_failed_fuzz_2() {
    assert!(parse_filter(r#"###\\\00DB \008D"#, true, Default::default()).is_ok());
    assert!(parse_filter(r#"###\Û"#, true, Default::default()).is_ok());
}

#[test]
fn parse_filter_failed_fuzz_3() {
    let input = "||$3p=/";
    let result = parse_filter(input, true, Default::default());
    assert!(result.is_ok());
}

#[test]
fn parse_filter_failed_fuzz_4() {
    // \\##+js(,\xdd\x8d
    let parsed = parse_filter(
        &String::from_utf8(vec![92, 35, 35, 43, 106, 115, 40, 44, 221, 141]).unwrap(),
        true,
        Default::default(),
    );
    assert!(parsed.is_ok());
}

#[test]
fn comments_and_rule_types() {
    assert!(parse_filter("! comment", true, Default::default()).is_err());
    assert!(parse_filter("# comment", true, Default::default()).is_err());
    assert!(parse_filter("[Adblock Plus 2.0]", true, Default::default()).is_err());
    assert!(parse_filter("   ", true, Default::default()).is_err());
    assert!(parse_filter("example.com#$#abort-on-property-read x", true, Default::default()).is_err());
    match parse_filter("  ||ads.com^  ", true, Default::default()) {
        Ok(ParsedFilter::Network(f)) => assert_eq!(f.raw_line, Some("||ads.com^".to_string())),
        _ => panic!("expected a network filter"),
    }
    match parse_filter("example.com##.ad", true, Default::default()) {
        Ok(ParsedFilter::Cosmetic(f)) => assert_eq!(f.selector, ".ad".to_string()),
        _ => panic!("expected a cosmetic filter"),
    }
    let network_only = ParseOptions { rule_types: RuleTypes::NetworkOnly, ..Default::default() };
    assert!(parse_filter("example.com##.ad", true, network_only).is_err());
    let cosmetic_only = ParseOptions { rule_types: RuleTypes::CosmeticOnly, ..Default::default() };
    assert!(parse_filter("||ads.com^", true, cosmetic_only).is_err());
}

#[test]
fn filter_set_collects_lines() {
    let mut set = FilterSet::new(true);
    set.add_filter_list("||a.com^\r\nexample.com##.ad\n! comment\n\n||b.com^\n", Default::default());
    assert_eq!(set.network_filters.len(), 2);
    assert_eq!(set.cosmetic_filters.len(), 1);
    assert!(set.add_filter("##.banner", Default::default()).is_ok());
    assert_eq!(set.cosmetic_filters.len(), 2);
    assert!(set.add_filter("! nope", Default::default()).is_err());
    assert_eq!(set.network_filters.len(), 2);
}

#[test]
fn hosts_style_refuses_unicode_white_space() {
    let r = adblock::filters::network::NetworkFilter::parse_hosts_style("ex\u{a0}ample.com", true);
    assert!(matches!(r, Err(adblock::filters::network::NetworkFilterError::FilterParseError)));
    let r = adblock::filters::network::NetworkFilter::parse_hosts_style("ex\u{3000}ample.com", true);
    assert!(matches!(r, Err(adblock::filters::network::NetworkFilterError::FilterParseError)));
    assert!(adblock::filters::network::NetworkFilter::parse_hosts_style("example.com", true).is_ok());
}
