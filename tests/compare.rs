use covcompare::coverage::Coverage;
use covcompare::events::{Attribute, Event};
use covcompare::extract::coverage_of_attributes;
use covcompare::text::{push_int, push_milli, push_signed_delta};
use covcompare::{compare, compare_coverage, compare_found, coverage_of_events, extract, parse_rate};

const BASE: &str = r#"<?xml version="1.0" ?>
<!DOCTYPE coverage SYSTEM "http://cobertura.sourceforge.net/xml/coverage-04.dtd">
<coverage branch-rate="0.7123" branches-covered="10" line-rate="0.8456" lines-covered="20" version="1.9" timestamp="1">
  <sources><source>/src</source></sources>
  <packages></packages>
</coverage>
"#;

const LOWER: &str = r#"<?xml version="1.0" ?>
<coverage branch-rate="0.6" line-rate="0.7">
  <packages></packages>
</coverage>
"#;

const ALPHA: &str = r#"<coverage line-rate="0.80" branch-rate="0.70"></coverage>"#;
const BETA: &str = r#"<coverage line-rate="0.75" branch-rate="0.70"></coverage>"#;

fn doc(s: &str) -> Option<&[u8]> {
    Some(s.as_bytes())
}

#[test]
fn test_add() {
    let result = compare(None, None, 2_000_000).unwrap();
    assert_eq!(result.0, 9);
}

#[test]
fn test_missing_file() -> Result<(), String> {
    match extract(None).unwrap() {
        Some(_) => Err("Should be none".to_owned()),
        None => Ok(()),
    }
}

#[test]
fn test_extract_nobase() -> Result<(), String> {
    match extract(doc(BASE)).unwrap() {
        Some(result) => {
            assert_eq!(result, Coverage { line: 845_600_000, branch: 712_300_000 });
            Ok(())
        }
        None => Err("Should be none".to_owned()),
    }
}

#[test]
fn test_compare_base_no_comp() -> Result<(), String> {
    let result = compare(doc(BASE), None, 2_000_000).unwrap();
    assert_eq!(result.0, 8);
    assert_eq!(result.1, "Nothing found to compare");
    Ok(())
}

#[test]
fn test_compare_same() -> Result<(), String> {
    let result = compare(doc(BASE), doc(BASE), 2_000_000).unwrap();
    assert_eq!(result.0, 0);
    Ok(())
}

#[test]
fn test_compare_different() -> Result<(), String> {
    let result = compare(doc(BASE), doc(LOWER), 2_000_000).unwrap();
    assert_eq!(result.0, 1);
    Ok(())
}

#[test]
fn missing_baseline_gives_nine_whatever_the_candidate() {
    let result = compare(None, doc(BASE), 0).unwrap();
    assert_eq!(result, (9, "No base result for comparison".to_string()));
    let result = compare(None, doc(r#"<coverage line-rate="x"/>"#), 50_000_000).unwrap();
    assert_eq!(result.0, 9);
}

#[test]
fn malformed_baseline_gives_nine() {
    let result = compare(doc("<coverage"), doc(BASE), 2_000_000).unwrap();
    assert_eq!(result.0, 9);
}

#[test]
fn malformed_candidate_gives_eight() {
    let result = compare(doc(BASE), doc("<a><b></a>"), 2_000_000).unwrap();
    assert_eq!(result.0, 8);
}

#[test]
fn regression_beyond_tolerance_reports_both_lines() {
    let (code, text) = compare(doc(ALPHA), doc(BETA), 2_000_000).unwrap();
    assert_eq!(code, 1);
    assert_eq!(
        text,
        "Line coverage changed from 0.800 to 0.750 (-0.050) \u{274c}\n\
         Branch coverage changed from 0.700 to 0.700 (+0.000) \u{2705}"
    );
    assert!(text.contains("from 0.800 to 0.750 (-0.050)"));
    assert!(text.contains("from 0.700 to 0.700 (+0.000)"));
}

#[test]
fn wide_tolerance_passes() {
    let (code, _) = compare(doc(ALPHA), doc(BETA), 60_000_000).unwrap();
    assert_eq!(code, 0);
}

#[test]
fn missing_line_rate_reads_as_zero() {
    let c = extract(doc(r#"<coverage branch-rate="0.5"/>"#)).unwrap().unwrap();
    assert_eq!(c, Coverage { line: 0, branch: 500_000_000 });
}

#[test]
fn document_without_coverage_reads_as_zero() {
    let c = extract(doc("<report><item/></report>")).unwrap().unwrap();
    assert_eq!(c, Coverage { line: 0, branch: 0 });
}

#[test]
fn first_coverage_element_wins() {
    let text = r#"<root><x:coverage xmlns:x="urn:a" line-rate="0.25"/><coverage line-rate="0.9"/></root>"#;
    let c = extract(doc(text)).unwrap().unwrap();
    assert_eq!(c, Coverage { line: 250_000_000, branch: 0 });
}

#[test]
fn bad_rate_is_an_error() {
    let e = extract(doc(r#"<coverage line-rate="abc"/>"#)).unwrap_err();
    assert_eq!(e.value, "abc");
    assert!(compare(doc(BASE), doc(r#"<coverage branch-rate="-1"/>"#), 0).is_err());
}

#[test]
fn parse_rate_reads_decimals() {
    assert_eq!(parse_rate("0.80"), Some(800_000_000));
    assert_eq!(parse_rate("1"), Some(1_000_000_000));
    assert_eq!(parse_rate(".5"), Some(500_000_000));
    assert_eq!(parse_rate("5."), Some(5_000_000_000));
    assert_eq!(parse_rate("0.1234567891"), Some(123_456_789));
    assert_eq!(parse_rate("999999999.999999999"), Some(999_999_999_999_999_999));
    assert_eq!(parse_rate("1000000000"), None);
    assert_eq!(parse_rate(""), None);
    assert_eq!(parse_rate("."), None);
    assert_eq!(parse_rate("1.2.3"), None);
    assert_eq!(parse_rate("+0.5"), None);
    assert_eq!(parse_rate("1e-3"), None);
}

#[test]
fn trunc_drops_digits_past_the_third_decimal() {
    let mut c = Coverage { line: 845_678_901, branch: 999_999_999 };
    c.trunc();
    assert_eq!(c, Coverage { line: 845_000_000, branch: 999_000_000 });
    let once = c;
    c.trunc();
    assert_eq!(c, once);
}

#[test]
fn truncation_decides_the_verdict() {
    // 0.7009 and 0.7001 both truncate to 0.700: no drop at all.
    let base = Coverage { line: 700_900_000, branch: 0 };
    let comp = Coverage { line: 700_100_000, branch: 0 };
    let (code, text) = compare_coverage(base, comp, 0);
    assert_eq!(code, 0);
    assert!(text.starts_with("Line coverage changed from 0.700 to 0.700 (+0.000)"));
}

#[test]
fn drop_equal_to_tolerance_passes() {
    let base = Coverage { line: 800_000_000, branch: 500_000_000 };
    let comp = Coverage { line: 798_000_000, branch: 500_000_000 };
    assert_eq!(compare_coverage(base, comp, 2_000_000).0, 0);
    assert_eq!(compare_coverage(base, comp, 1_999_999).0, 1);
}

#[test]
fn branch_regression_alone_fails() {
    let base = Coverage { line: 500_000_000, branch: 500_000_000 };
    let comp = Coverage { line: 900_000_000, branch: 400_000_000 };
    let (code, text) = compare_coverage(base, comp, 2_000_000);
    assert_eq!(code, 1);
    assert_eq!(
        text,
        "Line coverage changed from 0.500 to 0.900 (+0.400) \u{2705}\n\
         Branch coverage changed from 0.500 to 0.400 (-0.100) \u{274c}"
    );
}

#[test]
fn compare_found_codes() {
    let c = Coverage { line: 1, branch: 2 };
    assert_eq!(compare_found(None, Some(c), 0).0, 9);
    assert_eq!(compare_found(Some(c), None, 0), (8, "Nothing found to compare".to_string()));
    assert_eq!(compare_found(Some(c), Some(c), 0).0, 0);
}

#[test]
fn events_scan_stops_at_fault_or_first_coverage() {
    let start = |name: &str, attrs: Vec<(&str, &str)>| Event::Start {
        name: name.to_string(),
        attributes: attrs
            .into_iter()
            .map(|(n, v)| Attribute { name: n.to_string(), value: v.to_string() })
            .collect(),
    };
    let evs = vec![Event::Other, start("packages", vec![]), Event::Fault, start("coverage", vec![])];
    assert!(coverage_of_events(&evs).unwrap().is_none());
    let evs = vec![
        start("coverage", vec![("line-rate", "0.5"), ("branch-rate", "0.25"), ("version", "x")]),
        start("coverage", vec![("line-rate", "0.9")]),
    ];
    assert_eq!(
        coverage_of_events(&evs).unwrap(),
        Some(Coverage { line: 500_000_000, branch: 250_000_000 })
    );
    assert_eq!(coverage_of_events(&vec![]).unwrap(), Some(Coverage { line: 0, branch: 0 }));
    let attrs = vec![Attribute { name: "branch-rate".to_string(), value: "1.5x".to_string() }];
    assert_eq!(coverage_of_attributes(&attrs).unwrap_err().value, "1.5x");
}

#[test]
fn text_rendering() {
    let mut s = String::new();
    push_int(&mut s, 1203);
    assert_eq!(s, "1203");
    let mut s = String::new();
    push_milli(&mut s, 5);
    assert_eq!(s, "0.005");
    let mut s = String::new();
    push_milli(&mut s, 12_340);
    assert_eq!(s, "12.340");
    let mut s = String::new();
    push_signed_delta(&mut s, 800, 750);
    assert_eq!(s, "-0.050");
    let mut s = String::new();
    push_signed_delta(&mut s, 700, 700);
    assert_eq!(s, "+0.000");
}
