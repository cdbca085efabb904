//! Classification of addresses against the reserved ranges, including the
//! fail-closed rule for unparseable text.

use check_ip::ip::is_non_routable;

#[test]
fn reserved_ipv4_ranges_are_non_routable() {
    let samples = vec![
        "127.0.0.1",
        "127.255.255.255",
        "10.0.0.1",
        "10.255.0.3",
        "172.16.0.1",
        "172.31.255.255",
        "192.168.0.1",
        "192.168.1.1",
        "169.254.10.20",
        "100.64.0.1",
        "100.127.255.255",
        "192.0.2.55",
        "198.51.100.7",
        "203.0.113.9",
        "0.0.0.0",
        "0.1.2.3",
        "224.0.0.251",
        "239.255.255.255",
        "240.0.0.1",
        "255.255.255.254",
        "192.88.99.1",
        "255.255.255.255",
    ];
    for s in samples {
        assert!(is_non_routable(s), "{} should be non-routable", s);
    }
}

#[test]
fn public_ipv4_addresses_are_routable() {
    let samples = vec![
        "8.8.8.8",
        "1.1.1.1",
        "172.15.0.1",
        "172.32.0.1",
        "100.63.0.1",
        "100.128.0.1",
        "192.0.3.1",
        "192.89.99.1",
        "198.51.101.1",
        "203.0.114.1",
        "223.255.255.255",
        "11.0.0.1",
        "126.255.255.255",
        "128.0.0.1",
        "9.9.9.9",
    ];
    for s in samples {
        assert!(!is_non_routable(s), "{} should be routable", s);
    }
}

#[test]
fn reserved_ipv6_ranges_are_non_routable() {
    let samples = vec![
        "::1",
        "::",
        "fe80::1",
        "fe80::abcd:1234",
        "febf::1",
        "fc00::1",
        "fdff::dead:beef",
        "ff00::1",
        "ff02::1",
        "2001:db8::5",
        "2001:db8:ffff:ffff:ffff:ffff:ffff:ffff",
        "fe80::1.2.3.4",
        "0:0:0:0:0:0:0:1",
        "0000:0000:0000:0000:0000:0000:0000:0001",
        "FC00::1",
        "Ff02::1",
    ];
    for s in samples {
        assert!(is_non_routable(s), "{} should be non-routable", s);
    }
}

#[test]
fn public_ipv6_addresses_are_routable() {
    let samples = vec![
        "2001:db9::1",
        "2607:f8b0::200e",
        "::2",
        "1:2:3:4:5:6:7:8",
        "1:2:3:4:5:6:7::",
        "1::8",
        "::ffff:8.8.8.8",
        "1:2:3:4:5:6:1.2.3.4",
        "fec0::1",
        "fbff::1",
        "2001:4860:4860::8888",
    ];
    for s in samples {
        assert!(!is_non_routable(s), "{} should be routable", s);
    }
}

#[test]
fn invalid_text_is_non_routable() {
    let samples = vec![
        "",
        "not-an-ip",
        "localhost",
        "1.2.3",
        "1.2.3.4.5",
        "256.1.1.1",
        "1.2.3.256",
        "01.2.3.4",
        "1.2.3.04",
        "1.2.3.4.",
        ".1.2.3.4",
        "1..2.3",
        "1.2.3.4 ",
        " 1.2.3.4",
        "1234.1.2.3",
        "127.1",
        "8.8.8.8/24",
        "1:2:3:4:5:6:7",
        "1:2:3:4:5:6:7:8:9",
        "1:2:3:4::5:6:7:8",
        "1:2:3:4:5:6:7:8::",
        "1::2::3",
        ":::",
        ":1::2",
        "g::1",
        "12345::",
        "1:2:3:4:5:1.2.3.4",
        "::ffff:1.2.3.4.5",
        "fe80::1%eth0",
        "1.2.3.4:80",
    ];
    for s in samples {
        assert!(is_non_routable(s), "{:?} should be rejected fail-closed", s);
    }
}
