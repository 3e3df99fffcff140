use rmr_core::web::middleware::{
    authorize, bearer_token, client_is_trusted, forwarded_client, presented_api_key,
    request_allowed, IpBytes, TrustedNet,
};

fn v4(a: u8, b: u8, c: u8, d: u8) -> IpBytes {
    IpBytes { v6: false, octets: vec![a, b, c, d] }
}

fn v6_loopback() -> IpBytes {
    let mut octets = vec![0u8; 16];
    octets[15] = 1;
    IpBytes { v6: true, octets }
}

fn net(addr: IpBytes, prefix: u8) -> TrustedNet {
    TrustedNet { addr, prefix }
}

#[test]
fn forwarded_client_takes_first_entry() {
    assert_eq!(forwarded_client(" 10.0.0.7 , 192.168.1.1"), "10.0.0.7");
    assert_eq!(forwarded_client("::1"), "::1");
    assert_eq!(forwarded_client(""), "");
}

#[test]
fn api_key_sources() {
    assert_eq!(presented_api_key(Some("k1"), Some("Bearer k2")), Some("k1".to_string()));
    assert_eq!(presented_api_key(None, Some("Bearer k2")), Some("k2".to_string()));
    assert_eq!(presented_api_key(None, Some("Basic k2")), None);
    assert_eq!(presented_api_key(None, None), None);
    assert_eq!(bearer_token("Bearer "), Some(String::new()));
    assert_eq!(bearer_token("bearer x"), None);
}

#[test]
fn authorization_rule() {
    assert!(authorize(true, None, None));
    assert!(authorize(true, Some("wrong"), Some("right")));
    assert!(!authorize(false, Some("anything"), None));
    assert!(!authorize(false, None, Some("right")));
    assert!(!authorize(false, Some("wrong"), Some("right")));
    assert!(authorize(false, Some("right"), Some("right")));
}

#[test]
fn network_containment() {
    let lan = net(v4(192, 168, 1, 0), 24);
    assert!(lan.contains(&v4(192, 168, 1, 77)));
    assert!(!lan.contains(&v4(192, 168, 2, 77)));
    let odd = net(v4(10, 0, 0, 0), 9);
    assert!(odd.contains(&v4(10, 127, 255, 255)));
    assert!(!odd.contains(&v4(10, 128, 0, 0)));
    let host = net(v4(127, 0, 0, 1), 32);
    assert!(host.contains(&v4(127, 0, 0, 1)));
    assert!(!host.contains(&v4(127, 0, 0, 2)));
    let all = net(v4(1, 2, 3, 4), 0);
    assert!(all.contains(&v4(200, 1, 1, 1)));
    assert!(!all.contains(&v6_loopback()));
    let v6_host = net(v6_loopback(), 128);
    assert!(v6_host.contains(&v6_loopback()));
    assert!(!v6_host.contains(&v4(0, 0, 0, 1)));
    let unmasked = net(v4(192, 168, 1, 200), 24);
    assert!(unmasked.contains(&v4(192, 168, 1, 3)));
}

#[test]
fn trust_uses_forwarded_address_first() {
    let nets = vec![net(v4(127, 0, 0, 1), 32), net(v4(192, 168, 0, 0), 16)];
    assert!(client_is_trusted(Some(v4(192, 168, 5, 5)), Some(v4(8, 8, 8, 8)), &nets));
    assert!(!client_is_trusted(Some(v4(8, 8, 8, 8)), Some(v4(127, 0, 0, 1)), &nets));
    assert!(client_is_trusted(None, Some(v4(127, 0, 0, 1)), &nets));
    assert!(!client_is_trusted(None, None, &nets));
    assert!(!client_is_trusted(Some(v4(127, 0, 0, 1)), None, &Vec::new()));
}

#[test]
fn whole_request_decision() {
    let nets = vec![net(v4(127, 0, 0, 1), 32)];
    assert!(request_allowed(None, Some(v4(127, 0, 0, 1)), &nets, None, None, None));
    assert!(!request_allowed(None, Some(v4(10, 0, 0, 1)), &nets, None, None, None));
    assert!(request_allowed(
        None,
        Some(v4(10, 0, 0, 1)),
        &nets,
        None,
        Some("Bearer s3cret"),
        Some("s3cret")
    ));
    assert!(!request_allowed(
        None,
        Some(v4(10, 0, 0, 1)),
        &nets,
        Some("wrong"),
        Some("Bearer s3cret"),
        Some("s3cret")
    ));
    assert!(request_allowed(None, None, &nets, Some("s3cret"), None, Some("s3cret")));
}
