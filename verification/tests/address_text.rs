use worldsync::protocol::{Addr, IpAddr};

fn ours_v6(s: [u16; 8]) -> String {
    IpAddr::V6(s).to_string()
}

/// A plain statement of the text form: the first longest run of two or
/// more zero segments becomes `::`, the rest is lower-case hexadecimal.
fn expected_v6(s: [u16; 8]) -> String {
    if s[..5] == [0, 0, 0, 0, 0] && s[5] == 0xffff {
        return format!("::ffff:{}.{}.{}.{}", s[6] >> 8, s[6] & 0xff, s[7] >> 8, s[7] & 0xff);
    }
    let mut best = (0usize, 0usize);
    for start in 0..8 {
        let len = s[start..].iter().take_while(|x| **x == 0).count();
        if len > best.1 {
            best = (start, len);
        }
    }
    let hex = |part: &[u16]| part.iter().map(|x| format!("{:x}", x)).collect::<Vec<_>>().join(":");
    if best.1 > 1 {
        format!("{}::{}", hex(&s[..best.0]), hex(&s[best.0 + best.1..]))
    } else {
        hex(&s)
    }
}

#[test]
fn ipv6_unspecified_and_loopback() {
    assert_eq!(ours_v6([0; 8]), "::");
    assert_eq!(ours_v6([0, 0, 0, 0, 0, 0, 0, 1]), "::1");
}

#[test]
fn ipv6_documentation_address() {
    assert_eq!(ours_v6([0x2001, 0xdb8, 0, 0, 0, 0, 0, 1]), "2001:db8::1");
    assert_eq!(ours_v6([0xfe80, 0, 0, 0, 0x1ff, 0xfe23, 0x4567, 0x890a]), "fe80::1ff:fe23:4567:890a");
}

#[test]
fn ipv6_compresses_first_of_equal_zero_runs() {
    assert_eq!(ours_v6([1, 0, 0, 1, 0, 0, 1, 1]), "1::1:0:0:1:1");
}

#[test]
fn ipv6_compresses_longest_zero_run() {
    assert_eq!(ours_v6([1, 0, 0, 1, 0, 0, 0, 1]), "1:0:0:1::1");
}

#[test]
fn ipv6_single_zero_is_not_compressed() {
    assert_eq!(ours_v6([1, 0, 1, 1, 1, 1, 1, 1]), "1:0:1:1:1:1:1:1");
}

#[test]
fn ipv6_trailing_zero_run() {
    assert_eq!(ours_v6([0xabcd, 0xffff, 0, 0, 0, 0, 0, 0]), "abcd:ffff::");
}

#[test]
fn ipv4_mapped_ipv6_text() {
    assert_eq!(ours_v6([0, 0, 0, 0, 0, 0xffff, 0xc0a8, 0x0001]), "::ffff:192.168.0.1");
}

#[test]
fn ipv6_text_for_every_zero_pattern() {
    let values = [0x1u16, 0xabc, 0xffff, 0x10, 0x2001, 0xdb8, 0x7, 0x8000];
    for pattern in 0u32..256 {
        let mut s = [0u16; 8];
        for (i, seg) in s.iter_mut().enumerate() {
            if pattern & (1 << i) != 0 {
                *seg = values[i];
            }
        }
        assert_eq!(ours_v6(s), expected_v6(s), "segments {:?}", s);
    }
    let mapped = [0, 0, 0, 0, 0, 0xffff, 0x7f00, 0x0001];
    assert_eq!(ours_v6(mapped), "::ffff:127.0.0.1");
}

#[test]
fn ipv6_hex_segments() {
    for v in [0u16, 1, 9, 10, 15, 16, 255, 256, 4095, 4096, 0xabcd, 0xffff] {
        let s = [v, 1, v, 1, v, 1, v, 1];
        let h = format!("{:x}", v);
        assert_eq!(ours_v6(s), format!("{h}:1:{h}:1:{h}:1:{h}:1"));
    }
}

#[test]
fn ipv4_text() {
    for o in [[0u8, 0, 0, 0], [127, 0, 0, 1], [192, 168, 0, 1], [255, 255, 255, 255], [10, 9, 100, 99]] {
        let ours = IpAddr::V4(o).to_string();
        assert_eq!(ours, format!("{}.{}.{}.{}", o[0], o[1], o[2], o[3]));
    }
    assert_eq!(IpAddr::V4([1, 22, 133, 0]).to_string(), "1.22.133.0");
}

#[test]
fn addr_text() {
    assert_eq!(Addr::Domain("example.org".to_string()).to_string(), "example.org");
    assert_eq!(Addr::Ip(IpAddr::V4([127, 0, 0, 1])).to_string(), "127.0.0.1");
    assert_eq!(Addr::Ip(IpAddr::V6([0, 0, 0, 0, 0, 0, 0, 1])).to_string(), "::1");
}

#[test]
fn addr_loopback() {
    assert!(Addr::Ip(IpAddr::V4([127, 1, 2, 3])).is_loopback());
    assert!(Addr::Ip(IpAddr::V6([0, 0, 0, 0, 0, 0, 0, 1])).is_loopback());
    assert!(!Addr::Ip(IpAddr::V4([128, 0, 0, 1])).is_loopback());
    assert!(!Addr::Ip(IpAddr::V6([0, 0, 0, 0, 0, 0, 0, 2])).is_loopback());
    assert!(!Addr::Domain("localhost".to_string()).is_loopback());
}
