use rust_sock::handle::{action_response, plan_request, plan_send_file, Action};
use rust_sock::message::{Request, Response};

fn write_file_of(a: Action) -> (String, Vec<u8>) {
    match a {
        Action::WriteFile { name, data } => (name, data),
        other => panic!("unexpected {:?}", other),
    }
}

#[test]
fn send_file_stores_under_its_name() {
    let a = plan_request(Request::SendFile { filename: "a.txt".to_string(), data: b"hi".to_vec() });
    assert_eq!(write_file_of(a), ("a.txt".to_string(), b"hi".to_vec()));
}

#[test]
fn send_file_strips_directories() {
    let a = plan_request(Request::SendFile { filename: "/etc/x/a.txt".to_string(), data: vec![1] });
    assert_eq!(write_file_of(a).0, "a.txt");
    let b = plan_request(Request::SendFile { filename: "../up/b.bin".to_string(), data: vec![] });
    assert_eq!(write_file_of(b).0, "b.bin");
}

#[test]
fn send_file_without_name_fails() {
    for f in ["", "/", "x/.."] {
        let a = plan_request(Request::SendFile { filename: f.to_string(), data: vec![] });
        match a {
            Action::Reply(Response::Failure(m)) => assert_eq!(m, "No filename"),
            other => panic!("unexpected {:?}", other),
        }
    }
}

#[test]
fn echo_and_ping_answer_success() {
    assert!(matches!(
        plan_request(Request::Echo { string: "ping".to_string() }),
        Action::Reply(Response::Success)
    ));
    assert!(matches!(plan_request(Request::Ping), Action::Reply(Response::Success)));
}

#[test]
fn open_path_is_handed_on() {
    match plan_request(Request::OpenVSCode { path: "/src".to_string() }) {
        Action::Open { path } => assert_eq!(path, "/src"),
        other => panic!("unexpected {:?}", other),
    }
}

#[test]
fn plan_send_file_by_name() {
    assert_eq!(write_file_of(plan_send_file(Some("n".to_string()), vec![3])), ("n".to_string(), vec![3]));
    assert!(matches!(plan_send_file(None, vec![3]), Action::Reply(Response::Failure(_))));
}

#[test]
fn outcome_becomes_response() {
    assert_eq!(action_response(Ok(())), Response::Success);
    assert_eq!(action_response(Err("disk full".to_string())), Response::Failure("disk full".to_string()));
}
