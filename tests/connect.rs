use rust_sock::connect::Connector;
use rust_sock::endpoint::ConnectionType;

fn unix(p: &str) -> Option<ConnectionType> {
    Some(ConnectionType::Unix(p.as_bytes().to_vec()))
}

#[test]
fn skips_unresolved_candidates_to_the_third() {
    let mut c = Connector::new(vec![None, None, unix("/good")]);
    assert_eq!(c.next_attempt(), Some(2));
    assert_eq!(c.target(2), &ConnectionType::Unix(b"/good".to_vec()));
    assert_eq!(c.next_attempt(), None);
}

#[test]
fn failed_candidates_are_not_retried() {
    let mut c = Connector::new(vec![unix("/a"), None, unix("/b")]);
    assert_eq!(c.next_attempt(), Some(0));
    assert_eq!(c.next_attempt(), Some(2));
    assert_eq!(c.next_attempt(), None);
    assert_eq!(c.next_attempt(), None);
}

#[test]
fn no_candidates_means_all_failed() {
    let mut c = Connector::new(vec![]);
    assert_eq!(c.next_attempt(), None);
}
