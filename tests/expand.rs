use device_scan::text::decimal_string;
use device_scan::util::{hosts_from, subnet_generator, IpWrapper, ScanError};

#[test]
fn pattern_without_wildcard_is_kept() {
    let r = subnet_generator(String::from("192.168.1.20"));
    assert_eq!(r, vec![String::from("192.168.1.20")]);
}

#[test]
fn empty_pattern_gives_one_empty_address() {
    let r = subnet_generator(String::new());
    assert_eq!(r, vec![String::new()]);
}

#[test]
fn one_wildcard_gives_255_addresses_in_order() {
    let r = subnet_generator(String::from("10.0.x.1"));
    assert_eq!(r.len(), 255);
    assert_eq!(r[0], "10.0.1.1");
    assert_eq!(r[4], "10.0.5.1");
    assert_eq!(r[254], "10.0.255.1");
    for (i, a) in r.iter().enumerate() {
        assert_eq!(*a, format!("10.0.{}.1", i + 1));
    }
}

#[test]
fn two_wildcards_first_varies_slowest() {
    let r = subnet_generator(String::from("1.x.x.2"));
    assert_eq!(r.len(), 255 * 255);
    assert_eq!(r[0], "1.1.1.2");
    assert_eq!(r[1], "1.1.2.2");
    assert_eq!(r[255], "1.2.1.2");
    assert_eq!(r[255 * 255 - 1], "1.255.255.2");
    assert!(r.iter().all(|a| !a.contains('x')));
}

#[test]
fn malformed_pattern_is_expanded_as_text() {
    let r = subnet_generator(String::from("1.2.3.4.x"));
    assert_eq!(r.len(), 255);
    assert_eq!(r[9], "1.2.3.4.10");
}

#[test]
fn decimal_notation_of_octets() {
    assert_eq!(decimal_string(0), "0");
    assert_eq!(decimal_string(7), "7");
    assert_eq!(decimal_string(10), "10");
    assert_eq!(decimal_string(99), "99");
    assert_eq!(decimal_string(100), "100");
    assert_eq!(decimal_string(255), "255");
}

#[test]
fn url_and_text_of_address() {
    let ip = IpWrapper(String::from("10.0.0.7"));
    assert_eq!(ip.url(), "https://10.0.0.7");
    assert_eq!(ip.to_string(), "10.0.0.7");
    assert_eq!(ip.duplicate().0, "10.0.0.7");
}

#[test]
fn hosts_keep_order() {
    let h = hosts_from(vec![String::from("a"), String::from("b")]);
    assert_eq!(h.len(), 2);
    assert_eq!(h[0].0, "a");
    assert_eq!(h[1].0, "b");
}

#[test]
fn error_messages() {
    assert_eq!(ScanError::Timeout.to_string(), "timeout occurred after 10s");
    assert_eq!(ScanError::Connection.to_string(), "connection failed");
    assert_eq!(
        ScanError::OtherError(String::from("dns")).to_string(),
        "other weird web error dns"
    );
    assert_eq!(ScanError::Configuration.to_string(), "more threads than ips to scan");
}
