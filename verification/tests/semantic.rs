use finder::rag::{
    cache_subdir_name, extract_paragraphs, fingerprint_eq, fp_lookup, needs_rebuild,
    parse_line_number, Fingerprint, FpEntry, RagIndex,
};
use finder::search::LoadedFile;

fn fp(pairs: &[(&str, u64)]) -> Fingerprint {
    Fingerprint {
        entries: pairs
            .iter()
            .map(|(n, s)| FpEntry { name: n.to_string(), secs: *s })
            .collect(),
    }
}

#[test]
fn paragraphs_collapse_and_number() {
    let paras = extract_paragraphs("# Title\n\nhello world\nsecond line\n\n\nlast");
    assert_eq!(paras.len(), 3);
    assert_eq!(paras[0], (1, "# Title".to_string()));
    assert_eq!(paras[1], (3, "hello world second line".to_string()));
    assert_eq!(paras[2], (7, "last".to_string()));
}

#[test]
fn paragraphs_of_blank_text_are_none() {
    assert!(extract_paragraphs("").is_empty());
    assert!(extract_paragraphs("\n   \n\t\n").is_empty());
}

#[test]
fn fingerprint_later_record_overrides() {
    let dup = fp(&[("a.md", 1), ("a.md", 2)]);
    assert_eq!(fp_lookup(&dup, &"a.md".to_string()), Some(2));
    assert!(fingerprint_eq(&dup, &fp(&[("a.md", 2)])));
    assert!(!fingerprint_eq(&dup, &fp(&[("a.md", 1)])));
}

#[test]
fn paragraphs_accept_crlf_lines() {
    let paras = extract_paragraphs("a\r\nb\r\n\r\nc");
    assert_eq!(paras, vec![(1, "a b".to_string()), (4, "c".to_string())]);
}

#[test]
fn fingerprint_equality_ignores_order() {
    let a = fp(&[("a.md", 100), ("b.md", 200)]);
    let b = fp(&[("b.md", 200), ("a.md", 100)]);
    assert!(fingerprint_eq(&a, &b));
    assert_eq!(fp_lookup(&a, &"b.md".to_string()), Some(200));
    assert_eq!(fp_lookup(&a, &"c.md".to_string()), None);
}

#[test]
fn unchanged_fingerprint_is_a_cache_hit() {
    let a = fp(&[("a.md", 100), ("b.md", 200)]);
    let b = fp(&[("b.md", 200), ("a.md", 100)]);
    // the second of two identical openings rebuilds nothing
    assert!(!needs_rebuild(Some(&a), &b, true));
}

#[test]
fn any_drift_forces_a_rebuild() {
    let old = fp(&[("a.md", 100), ("b.md", 200)]);
    let touched = fp(&[("a.md", 100), ("b.md", 201)]);
    let added = fp(&[("a.md", 100), ("b.md", 200), ("c.md", 1)]);
    let removed = fp(&[("a.md", 100)]);
    assert!(needs_rebuild(Some(&old), &touched, true));
    assert!(needs_rebuild(Some(&old), &added, true));
    assert!(needs_rebuild(Some(&old), &removed, true));
    // the persisted fingerprint after such a rebuild differs from the old one
    assert!(!fingerprint_eq(&old, &touched));
    // no prior fingerprint, or missing index metadata, also rebuilds
    assert!(needs_rebuild(None, &old, true));
    assert!(needs_rebuild(Some(&old), &old, false));
}

#[test]
fn cache_name_is_a_hash_prefix() {
    assert_eq!(cache_subdir_name(""), "d41d8cd98f00b204");
    let n = cache_subdir_name("/home/user/notes");
    assert_eq!(n.len(), 16);
    assert!(n.chars().all(|c| c.is_ascii_hexdigit()));
    assert_ne!(n, cache_subdir_name("/home/user/other"));
}

#[test]
fn line_field_parsing() {
    assert_eq!(parse_line_number("123"), 123);
    assert_eq!(parse_line_number("+7"), 7);
    assert_eq!(parse_line_number("0"), 0);
    assert_eq!(parse_line_number(""), 0);
    assert_eq!(parse_line_number("x1"), 0);
    assert_eq!(parse_line_number("99999999999999999999999999999"), 0);
}

#[test]
fn index_round_trip_on_disk() {
    let dir = tempfile::tempdir().unwrap();
    let dir_path = dir.path().to_str().unwrap();
    let files = vec![
        LoadedFile {
            name: "a.md".to_string(),
            content: "# Title\n\nhello world\nmore text\n\nfoo bar".to_string(),
        },
    ];
    let ix = RagIndex::build(&files, dir_path).expect("index builds");
    let chunks = ix.search_chunks("hello", 20);
    assert_eq!(chunks.len(), 1);
    assert_eq!(chunks[0].file, "a.md");
    assert_eq!(chunks[0].line, 3);
    assert_eq!(chunks[0].content, "hello world more text");

    // nonsense query syntax yields an empty list, never an error
    assert!(ix.search_chunks("AND OR (", 20).is_empty());
    assert!(ix.search_chunks("hello", 0).is_empty());
    drop(ix);

    // reopening the persisted index answers without the source files
    let reopened = RagIndex::open(dir_path).expect("index reopens");
    let again = reopened.search_chunks("hello", 20);
    assert_eq!(again.len(), 1);
    assert_eq!(again[0].content, "hello world more text");
}
