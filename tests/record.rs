use rust_sock::record::{announcement, join_endpoints, parse_record, record_matches, split_fields};

fn toks(v: &[&str]) -> Vec<Vec<u8>> {
    v.iter().map(|s| s.as_bytes().to_vec()).collect()
}

#[test]
fn join_with_commas() {
    assert_eq!(join_endpoints(&toks(&["/a/sock", "127.0.0.1:1"])), b"/a/sock,127.0.0.1:1".to_vec());
    assert_eq!(join_endpoints(&toks(&["x"])), b"x".to_vec());
    assert_eq!(join_endpoints(&toks(&[])), Vec::<u8>::new());
}

#[test]
fn record_round_trip() {
    let t = toks(&["/a/sock", "[::1]:80", "b"]);
    assert_eq!(parse_record(&join_endpoints(&t)), t);
}

#[test]
fn record_trailing_separator_opens_no_entry() {
    assert_eq!(parse_record(b"a,b,"), toks(&["a", "b"]));
    assert_eq!(parse_record(b"a,,b"), toks(&["a", "", "b"]));
    assert_eq!(parse_record(b""), toks(&[]));
}

#[test]
fn fields_keep_every_empty_field() {
    assert_eq!(split_fields(b""), toks(&[""]));
    assert_eq!(split_fields(b"a,"), toks(&["a", ""]));
    assert_eq!(split_fields(b",x"), toks(&["", "x"]));
}

#[test]
fn record_matches_only_its_own_bytes() {
    let t = toks(&["a", "b"]);
    assert!(record_matches(b"a,b", &t));
    assert!(!record_matches(b"a,b,c", &t));
    assert!(!record_matches(b"a,c", &t));
}

#[test]
fn announcement_line() {
    assert_eq!(announcement(&toks(&["a", "b"])), b"RUST_SOCK=a,b\n".to_vec());
}
