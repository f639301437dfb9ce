use landscape::flow::{IpAddr, MacAddr};
use landscape::netaddr::{ip_to_string, ipv4_to_string, ipv6_to_string, mac_to_string};

#[test]
fn ipv4_text_is_dotted_decimal() {
    assert_eq!(ipv4_to_string(0), "0.0.0.0");
    assert_eq!(ipv4_to_string(0xc0a8_0001), "192.168.0.1");
    assert_eq!(ipv4_to_string(u32::MAX), "255.255.255.255");
    assert_eq!(ipv4_to_string(0x0a00_00ff), "10.0.0.255");
    assert_eq!(ipv4_to_string(0x0102_0304), "1.2.3.4");
}

#[test]
fn ipv6_text_is_the_canonical_form() {
    let samples: [(u128, &str); 12] = [
        (0, "::"),
        (1, "::1"),
        (0x2001_0db8_0000_0000_0000_0000_0000_0001, "2001:db8::1"),
        (0x2001_0db8_0000_0001_0000_0000_0000_0001, "2001:db8:0:1::1"),
        (0x2001_0db8_0000_0000_0001_0000_0000_0001, "2001:db8::1:0:0:1"),
        (0xfe80_0000_0000_0000_0202_b3ff_fe1e_8329, "fe80::202:b3ff:fe1e:8329"),
        (0x0000_0000_0000_0000_0000_ffff_c0a8_0001, "::ffff:192.168.0.1"),
        (0x0000_0000_0000_0000_0000_0000_c0a8_0001, "::c0a8:1"),
        (u128::MAX, "ffff:ffff:ffff:ffff:ffff:ffff:ffff:ffff"),
        (0x0001_0000_0001_0000_0001_0000_0001_0000, "1:0:1:0:1:0:1:0"),
        (0x2001_0db8_0001_0000_0000_0001_0000_0000, "2001:db8:1::1:0:0"),
        (0x0000_0001_0000_0000_0000_0000_0000_0000, "0:1::"),
    ];
    for (a, text) in samples {
        assert_eq!(ipv6_to_string(a), text, "{a:x}");
    }
}

#[test]
fn ip_and_mac_texts() {
    assert_eq!(ip_to_string(IpAddr::V4(0x0a00_0001)), "10.0.0.1");
    assert_eq!(ip_to_string(IpAddr::V6(1)), "::1");
    assert_eq!(mac_to_string(MacAddr::new(0, 0x1b, 0xac, 0xde, 0xf0, 0x0f)), "00:1b:ac:de:f0:0f");
}
