use rust_sock::endpoint::{ConnectionType, NetAddr};
use rust_sock::listen::{first_unresolved, unix_paths};
use rust_sock::location::{application_dir_from, push_component};

#[test]
fn every_token_must_resolve() {
    let ip = Some(ConnectionType::Ip(NetAddr::V4 { octets: [0, 0, 0, 0], port: 1 }));
    let ux = Some(ConnectionType::Unix(b"/s".to_vec()));
    assert_eq!(first_unresolved(&vec![ip.clone(), ux.clone()]), None);
    assert_eq!(first_unresolved(&vec![ip.clone(), None, ux.clone(), None]), Some(1));
    assert_eq!(first_unresolved(&vec![]), None);
}

#[test]
fn unix_socket_files_to_remove() {
    let ip = Some(ConnectionType::Ip(NetAddr::V4 { octets: [0, 0, 0, 0], port: 1 }));
    let r = unix_paths(&vec![Some(ConnectionType::Unix(b"/a".to_vec())), ip, None, Some(ConnectionType::Unix(b"/b".to_vec()))]);
    assert_eq!(r, vec![b"/a".to_vec(), b"/b".to_vec()]);
}

#[test]
fn push_adds_one_separator() {
    assert_eq!(push_component(b"/home/u/.config", b"rust-sock"), b"/home/u/.config/rust-sock".to_vec());
    assert_eq!(push_component(b"/home/u/", b"x"), b"/home/u/x".to_vec());
    assert_eq!(push_component(b"", b"x"), b"x".to_vec());
}

#[test]
fn application_dir_choice() {
    let n: &[u8] = b"rust-sock";
    assert_eq!(application_dir_from(Some(b"/c"), Some(b"/h"), n), Some(b"/c/rust-sock".to_vec()));
    assert_eq!(application_dir_from(None, Some(b"/h"), n), Some(b"/h/.rust-sock".to_vec()));
    assert_eq!(application_dir_from(None, None, n), None);
}
