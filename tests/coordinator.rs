use rust_sock::coordinator::{CoordStep, Coordinator, ProbeReply};
use rust_sock::message::Response;

#[test]
fn no_record_starts_listening() {
    let c = Coordinator::new(None);
    assert_eq!(c.next_step(), CoordStep::StartListening);
}

#[test]
fn live_daemon_is_attached() {
    let mut c = Coordinator::new(Some(b"/run/a/sock,127.0.0.1:7"));
    assert_eq!(c.next_step(), CoordStep::Probe(0));
    c.record_probe(&ProbeReply::Answered(Response::Success));
    assert_eq!(c.next_step(), CoordStep::Probe(1));
    c.record_probe(&ProbeReply::Answered(Response::Success));
    assert_eq!(c.next_step(), CoordStep::Attach);
    assert_eq!(c.entries(), &vec![b"/run/a/sock".to_vec(), b"127.0.0.1:7".to_vec()]);
}

#[test]
fn dead_endpoint_makes_record_stale() {
    let mut c = Coordinator::new(Some(b"/run/a/sock"));
    assert_eq!(c.next_step(), CoordStep::Probe(0));
    c.record_probe(&ProbeReply::Unreachable);
    assert_eq!(c.next_step(), CoordStep::StartListening);
}

#[test]
fn any_failed_probe_makes_record_stale() {
    let replies = vec![
        ProbeReply::Failed,
        ProbeReply::TimedOut,
        ProbeReply::Closed,
        ProbeReply::Answered(Response::Failure("busy".to_string())),
    ];
    for r in replies {
        let mut c = Coordinator::new(Some(b"a,b"));
        c.record_probe(&ProbeReply::Answered(Response::Success));
        c.record_probe(&r);
        assert_eq!(c.next_step(), CoordStep::StartListening);
    }
}
