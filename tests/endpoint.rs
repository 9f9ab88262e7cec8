use rust_sock::endpoint::{determine_connection_type, ConnectionType, NetAddr};

#[test]
fn address_resolves_to_network() {
    let a = NetAddr::V4 { octets: [127, 0, 0, 1], port: 8080 };
    assert_eq!(determine_connection_type(b"127.0.0.1:8080", Some(a)), Some(ConnectionType::Ip(a)));
}

#[test]
fn ipv6_address_resolves_to_network() {
    let a = NetAddr::V6 { segments: [0, 0, 0, 0, 0, 0, 0, 1], port: 9, flowinfo: 0, scope_id: 0 };
    assert_eq!(determine_connection_type(b"[::1]:9", Some(a)), Some(ConnectionType::Ip(a)));
}

#[test]
fn absolute_path_resolves_to_unix() {
    assert_eq!(
        determine_connection_type(b"/tmp/x/sock", None),
        Some(ConnectionType::Unix(b"/tmp/x/sock".to_vec()))
    );
}

#[test]
fn relative_path_is_unusable() {
    assert_eq!(determine_connection_type(b"tmp/sock", None), None);
    assert_eq!(determine_connection_type(b"", None), None);
    assert_eq!(determine_connection_type(b"not an address", None), None);
}
