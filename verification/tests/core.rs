use finder::chat::{find_api_key, read_env_content, sse_line, take_line, SseLine};
use finder::citations::parse_citations;
use finder::layout::calc_input_height;
use finder::update::{current_version, newer_version};

#[test]
fn citations_dedup_first_occurrence() {
    let cits = parse_citations("See [a.md:3] and [a.md:3] and [b.md:10]");
    assert_eq!(cits.len(), 2);
    assert_eq!(cits[0].file, "a.md");
    assert_eq!(cits[0].line, 3);
    assert_eq!(cits[1].file, "b.md");
    assert_eq!(cits[1].line, 10);
}

#[test]
fn citations_greedy_file_part() {
    let cits = parse_citations("x [notes/a:b.md:12:34] y");
    assert_eq!(cits.len(), 1);
    assert_eq!(cits[0].file, "notes/a:b.md:12");
    assert_eq!(cits[0].line, 34);
}

#[test]
fn citations_reject_malformed() {
    assert!(parse_citations("[]").is_empty());
    assert!(parse_citations("[a.md]").is_empty());
    assert!(parse_citations("[:3]").is_empty());
    assert!(parse_citations("[a.md:]").is_empty());
    assert!(parse_citations("[a.md:3x]").is_empty());
    assert!(parse_citations("no brackets at all").is_empty());
    assert!(parse_citations("[a.md:3").is_empty());
}

#[test]
fn citations_skip_invalid_then_match() {
    let cits = parse_citations("[ab] then [c.md:7]");
    assert_eq!(cits.len(), 1);
    assert_eq!(cits[0].file, "c.md");
    assert_eq!(cits[0].line, 7);
}

#[test]
fn citations_overflowing_line_becomes_one() {
    let cits = parse_citations("[big.md:99999999999999999999999999999]");
    assert_eq!(cits.len(), 1);
    assert_eq!(cits[0].file, "big.md");
    assert_eq!(cits[0].line, 1);
}

#[test]
fn api_key_env_wins_when_non_empty() {
    let r = find_api_key(Some("envkey".to_string()), Some("OPENROUTER_API_KEY=filekey".to_string()), None);
    assert_eq!(r, Some("envkey".to_string()));
}

#[test]
fn api_key_empty_env_falls_through() {
    let r = find_api_key(
        Some(String::new()),
        Some("OPENROUTER_API_KEY=\"abc\"\n".to_string()),
        Some("OPENROUTER_API_KEY=home\n".to_string()),
    );
    assert_eq!(r, Some("abc".to_string()));
}

#[test]
fn api_key_home_file_is_last() {
    let r = find_api_key(None, Some("# nothing here\n".to_string()), Some("OPENROUTER_API_KEY='z'\n".to_string()));
    assert_eq!(r, Some("z".to_string()));
}

#[test]
fn api_key_absent_everywhere() {
    assert_eq!(find_api_key(None, None, None), None);
    assert_eq!(find_api_key(None, Some("OPENROUTER_API_KEY=\n".to_string()), None), None);
}

#[test]
fn env_file_first_match_wins() {
    let content = "x=1\nOPENROUTER_API_KEY = first\nOPENROUTER_API_KEY = second\n";
    assert_eq!(read_env_content(content), Some(" first".trim().to_string()));
}

#[test]
fn env_file_value_stops_at_second_equals() {
    assert_eq!(read_env_content("OPENROUTER_API_KEY=a=b\n"), Some("a".to_string()));
}

#[test]
fn sse_line_kinds() {
    assert!(matches!(sse_line(""), SseLine::Skip));
    assert!(matches!(sse_line(": keep-alive"), SseLine::Skip));
    assert!(matches!(sse_line("event: ping"), SseLine::Skip));
    assert!(matches!(sse_line("data: [DONE]"), SseLine::Done));
    match sse_line("data: {\"x\":1}") {
        SseLine::Data(p) => assert_eq!(p, "{\"x\":1}"),
        _ => panic!("expected a data line"),
    }
}

#[test]
fn take_line_splits_and_trims() {
    let mut buf = "  data: a \nrest".to_string();
    let line = take_line(&mut buf);
    assert_eq!(line, Some("data: a".to_string()));
    assert_eq!(buf, "rest");
    assert_eq!(take_line(&mut buf), None);
    assert_eq!(buf, "rest");
}

#[test]
fn newer_version_reports_difference() {
    let manifest = "[package]\nname = \"x\"\nversion = \"0.2.0\"\n";
    assert_eq!(newer_version(manifest, current_version()), Some("0.2.0".to_string()));
}

#[test]
fn newer_version_silent_when_equal_or_missing() {
    assert_eq!(newer_version("version = \"0.1.0\"\n", "0.1.0"), None);
    assert_eq!(newer_version("no such line\n", "0.1.0"), None);
    assert_eq!(newer_version("version\n", "0.1.0"), None);
}

#[test]
fn input_height_wraps_and_floors() {
    assert_eq!(calc_input_height(0, 80), 3);
    assert_eq!(calc_input_height(10, 80), 3);
    assert_eq!(calc_input_height(200, 80), 5);
    assert_eq!(calc_input_height(10, 4), 3);
    assert_eq!(calc_input_height(10, 0), 3);
}
