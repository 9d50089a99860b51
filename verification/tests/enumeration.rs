use phaser::enumeration::{clean_entry, clean_subdomains};
use phaser::modules::{Module, SubdomainModule};
use phaser::subdomains::crtsh::Crtsh;
use phaser::text::{contains_str, split_char, trim_str, vec_contains_string};
use phaser::Error;

#[test]
fn trim_removes_outer_whitespace() {
    assert_eq!(trim_str("  a.example.com \t"), "a.example.com");
    assert_eq!(trim_str("a"), "a");
    assert_eq!(trim_str("   "), "");
    assert_eq!(trim_str(""), "");
    assert_eq!(trim_str("\u{00A0}x\u{3000}"), "x");
}

#[test]
fn split_on_newlines() {
    let pieces = split_char("a\nb\nc", '\n');
    assert_eq!(pieces, vec!["a".to_string(), "b".to_string(), "c".to_string()]);
    assert_eq!(split_char("", '\n'), vec!["".to_string()]);
    assert_eq!(split_char("a\n", '\n'), vec!["a".to_string(), "".to_string()]);
}

#[test]
fn substring_search() {
    assert!(contains_str("hello world", "lo wo"));
    assert!(contains_str("hello", ""));
    assert!(!contains_str("hello", "world"));
    assert!(!contains_str("ab", "abc"));
}

#[test]
fn membership_is_exact_and_case_sensitive() {
    let v = vec!["a.example.com".to_string(), "B.example.com".to_string()];
    assert!(vec_contains_string(&v, &"a.example.com".to_string()));
    assert!(!vec_contains_string(&v, &"b.example.com".to_string()));
    assert!(!vec_contains_string(&v, &"a.example.co".to_string()));
}

#[test]
fn record_cleaning_drops_wildcards_and_duplicates() {
    let record = "a.example.com\n*.b.example.com\n a.example.com ".to_string();
    let candidates = clean_entry(&record);
    // Per-record cleaning keeps duplicates; the union deduplicates.
    assert_eq!(
        candidates,
        vec!["a.example.com".to_string(), "a.example.com".to_string()]
    );

    let set = clean_subdomains(&vec![record]);
    assert_eq!(set, vec!["a.example.com".to_string()]);
}

#[test]
fn union_deduplicates_across_records() {
    let records = vec![
        "x.example.com\ny.example.com".to_string(),
        "y.example.com\nz.example.com".to_string(),
    ];
    let set = clean_subdomains(&records);
    assert_eq!(set.len(), 3);
    assert!(set.contains(&"x.example.com".to_string()));
    assert!(set.contains(&"y.example.com".to_string()));
    assert!(set.contains(&"z.example.com".to_string()));
}

#[test]
fn crtsh_query_url_is_deterministic() {
    let module = Crtsh::new();
    assert_eq!(
        module.query_url("example.com"),
        "https://crt.sh/?q=%25.example.com&output=json"
    );
}

#[test]
fn upstream_failures_are_hard_errors() {
    let module = Crtsh::new();

    // Non-success status: hard failure even with decodable records.
    let r = module.process_response(false, Some(vec!["a.example.com".to_string()]));
    assert_eq!(
        r,
        Err(Error::InvalidHttpResponse("subdomains/crtsh".to_string()))
    );

    // Undecodable body: hard failure.
    let r = module.process_response(true, None);
    assert_eq!(
        r,
        Err(Error::InvalidHttpResponse("subdomains/crtsh".to_string()))
    );

    // An empty but valid record list is a successful empty result.
    let r = module.process_response(true, Some(Vec::new()));
    assert_eq!(r, Ok(Vec::new()));
}

#[test]
fn crtsh_end_to_end_cleaning() {
    let module = Crtsh::new();
    let records = vec![
        "a.example.com\n*.b.example.com\n a.example.com ".to_string(),
        "c.example.com".to_string(),
    ];
    let subs = module.process_response(true, Some(records)).unwrap();
    assert_eq!(subs.len(), 2);
    assert!(subs.contains(&"a.example.com".to_string()));
    assert!(subs.contains(&"c.example.com".to_string()));
}
