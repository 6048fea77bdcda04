use netvr::discovery::{is_discovery_request, DiscoveryResponse, DISCOVERY_PORT};
use netvr::model::Heartbeat;

#[test]
fn default_response_is_valid() {
    let r = DiscoveryResponse::default();
    assert_eq!(&r.header(), b"netvr");
    assert!(r.validate_header());
}

#[test]
fn other_headers_are_invalid() {
    assert!(!DiscoveryResponse::from_header(*b"netvR").validate_header());
    assert!(!DiscoveryResponse::from_header([0; 5]).validate_header());
    assert!(DiscoveryResponse::from_header(*b"netvr").validate_header());
}

#[test]
fn discovery_request_is_exactly_netvr() {
    assert!(is_discovery_request(b"netvr"));
    assert!(!is_discovery_request(b"netvrx"));
    assert!(!is_discovery_request(b"netv"));
    assert!(!is_discovery_request(b"NETVR"));
    assert!(!is_discovery_request(b""));
}

#[test]
fn port_and_heartbeat() {
    assert_eq!(DISCOVERY_PORT, 13161);
    assert_eq!(&Heartbeat::default().bytes(), b"hello");
    assert_eq!(&Heartbeat::from_bytes(*b"abcde").bytes(), b"abcde");
}
