use adblock::lists::{parse_filter, FilterFormat, ParseOptions, RuleTypes};

fn utf8_parsing(data: &[u8]) {
    if let Ok(filter_str) = std::str::from_utf8(data) {
        if filter_str.len() > 10000 {
            return;
        }
        for format in [FilterFormat::Standard, FilterFormat::Hosts] {
            for rule_types in [RuleTypes::All, RuleTypes::NetworkOnly, RuleTypes::CosmeticOnly] {
                let options = ParseOptions { format, rule_types, ..Default::default() };
                let _ = parse_filter(filter_str, true, options);
            }
        }
    }
}

fn lossy_parsing(data: &[u8]) {
    let filter_str = String::from_utf8_lossy(data);
    if filter_str.len() > 10000 {
        return;
    }
    for prefix in ["||", "@@", "!", "###", "##", "/", "|"] {
        let prefixed_filter = format!("{}{}", prefix, filter_str);
        let _ = parse_filter(&prefixed_filter, true, ParseOptions::default());
    }
    for debug_flag in [true, false] {
        let _ = parse_filter(&filter_str, debug_flag, ParseOptions::default());
    }
}

#[test]
fn test_basic_functionality() {
    let test_cases: [&[u8]; 6] = [
        b"example.com",
        b"||example.com^",
        b"@@||example.com^",
        b"###ad-banner",
        b"! This is a comment",
        b"",
    ];
    for case in &test_cases {
        utf8_parsing(case);
        lossy_parsing(case);
    }
}

#[test]
fn test_edge_cases() {
    let long = vec![b'A'; 20000];
    let edge_cases: [&[u8]; 4] = [&[0u8; 1000][..], &[255u8; 100][..], b"\x00\x01\x02\x03", &long[..]];
    for case in &edge_cases {
        utf8_parsing(case);
        lossy_parsing(case);
    }
}
