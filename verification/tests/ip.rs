use rustychain::ip::is_private_address;

fn private(host: &str) -> bool {
    let chars: Vec<char> = host.chars().collect();
    is_private_address(&chars)
}

#[test]
fn private_ipv4_addresses() {
    assert!(private("10.1.2.3"));
    assert!(private("172.16.0.1"));
    assert!(private("172.31.255.255"));
    assert!(!private("172.15.0.1"));
    assert!(!private("172.32.0.1"));
    assert!(private("192.168.0.1"));
    assert!(private("127.0.0.2"));
    assert!(!private("8.8.8.8"));
    assert!(!private("010.0.0.1"));
    assert!(!private("10.0.0.256"));
    assert!(!private("10.0.0.1.2"));
    assert!(!private("10.0.0"));
}

#[test]
fn private_ipv6_addresses() {
    assert!(private("::1"));
    assert!(private("0:0:0:0:0:0:0:1"));
    assert!(private("fe80::1"));
    assert!(private("FEBF::"));
    assert!(!private("fec0::1"));
    assert!(!private("::ffff:10.0.0.1"));
    assert!(!private("1:2:3:4:5:6:7:8"));
    assert!(!private("1::2::3"));
    assert!(!private("::"));
    assert!(!private("[::1]"));
    assert!(!private("fe80::12345"));
    assert!(private("fe80::1.2.3.4"));
}
