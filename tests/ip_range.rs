use yadd::config::{ConfigError, IpRangeConf};
use yadd::ip::{Cidr, IpAddress, IpRange};

fn v4(a: u8, b: u8, c: u8, d: u8) -> u32 {
    u32::from_be_bytes([a, b, c, d])
}

fn ip4(a: u8, b: u8, c: u8, d: u8) -> IpAddress {
    IpAddress::V4(v4(a, b, c, d))
}

#[test]
fn adding_twice_is_like_adding_once() {
    let x = Cidr::V4 { addr: v4(192, 168, 1, 0), len: 24 };
    let mut twice = IpRange::new();
    twice.add(x);
    twice.add(x);
    twice.simplify();
    let mut once = IpRange::new();
    once.add(x);
    once.simplify();
    for ip in [ip4(192, 168, 1, 0), ip4(192, 168, 1, 255), ip4(192, 168, 2, 0), ip4(192, 168, 0, 255)] {
        assert_eq!(twice.contains(ip), once.contains(ip));
    }
    assert!(twice.contains(ip4(192, 168, 1, 77)));
    assert!(!twice.contains(ip4(192, 168, 2, 1)));
}

#[test]
fn sub_block_is_subsumed() {
    let a = Cidr::V4 { addr: v4(10, 1, 0, 0), len: 16 };
    let b = Cidr::V4 { addr: v4(10, 0, 0, 0), len: 8 };
    let mut both = IpRange::new();
    both.add(a);
    both.add(b);
    both.simplify();
    let mut only_b = IpRange::new();
    only_b.add(b);
    only_b.simplify();
    for ip in [ip4(10, 1, 2, 3), ip4(10, 200, 0, 1), ip4(11, 0, 0, 1), ip4(9, 255, 255, 255)] {
        assert_eq!(both.contains(ip), only_b.contains(ip));
    }
    assert!(both.contains(ip4(10, 200, 0, 1)));
    assert!(!both.contains(ip4(11, 0, 0, 1)));
}

#[test]
fn membership_of_a_single_block() {
    let mut r = IpRange::new();
    r.add(Cidr::V4 { addr: v4(1, 2, 3, 0), len: 24 });
    r.simplify();
    assert!(r.contains(ip4(1, 2, 3, 4)));
    assert!(r.contains(ip4(1, 2, 3, 0)));
    assert!(r.contains(ip4(1, 2, 3, 255)));
    assert!(!r.contains(ip4(1, 2, 4, 0)));
    assert!(!r.contains(ip4(5, 6, 7, 8)));
    assert!(!r.contains(IpAddress::V6(1)));
}

#[test]
fn membership_ignores_host_bits_of_the_block() {
    let mut r = IpRange::new();
    r.add(Cidr::V4 { addr: v4(1, 2, 3, 99), len: 24 });
    assert!(r.contains(ip4(1, 2, 3, 1)));
    assert!(!r.contains(ip4(1, 2, 2, 1)));
}

#[test]
fn ipv6_membership() {
    let net: u128 = 0x2001_0db8_u128 << 96;
    let mut r = IpRange::new();
    r.add(Cidr::V6 { addr: net, len: 32 });
    r.simplify();
    assert!(r.contains(IpAddress::V6(net | 1)));
    assert!(r.contains(IpAddress::V6(net | (0xffff_u128 << 80))));
    assert!(!r.contains(IpAddress::V6((0x2001_0db9_u128 << 96) | 1)));
    assert!(!r.contains(ip4(32, 1, 13, 184)));
}

#[test]
fn zero_length_prefix_covers_everything() {
    let mut r = IpRange::new();
    r.add(Cidr::V4 { addr: 0, len: 0 });
    assert!(r.contains(ip4(0, 0, 0, 0)));
    assert!(r.contains(ip4(255, 255, 255, 255)));
    assert!(!r.contains(IpAddress::V6(0)));
}

#[test]
fn siblings_merge_and_keep_coverage() {
    let mut r = IpRange::new();
    r.add(Cidr::V4 { addr: v4(192, 168, 0, 0), len: 24 });
    r.add(Cidr::V4 { addr: v4(192, 168, 1, 0), len: 24 });
    r.simplify();
    assert!(r.contains(ip4(192, 168, 0, 1)));
    assert!(r.contains(ip4(192, 168, 1, 1)));
    assert!(!r.contains(ip4(192, 168, 2, 1)));
}

#[test]
fn empty_range_contains_nothing() {
    let r = IpRange::default();
    assert!(!r.contains(ip4(1, 1, 1, 1)));
    assert!(!r.contains(IpAddress::V6(1)));
}

#[test]
fn range_group_reads_lines_and_list() {
    let conf = IpRangeConf {
        file_lines: vec![
            "# domestic".to_string(),
            "".to_string(),
            "  1.0.1.0/24  ".to_string(),
            "   ".to_string(),
        ],
        list: vec![" 2001:db8::/32 ".to_string(), "9.9.9.0/24".to_string()],
    };
    let mut r = IpRange::new();
    assert_eq!(conf.read_to(&mut r), Ok(()));
    assert!(r.contains(ip4(1, 0, 1, 7)));
    assert!(r.contains(ip4(9, 9, 9, 9)));
    assert!(r.contains(IpAddress::V6((0x2001_0db8_u128 << 96) | 5)));
    assert!(!r.contains(ip4(1, 0, 2, 7)));
}

#[test]
fn range_group_refuses_a_bad_block() {
    let conf = IpRangeConf { file_lines: vec!["1.0.1.0/24".to_string()], list: vec!["not-a-cidr".to_string()] };
    let mut r = IpRange::new();
    assert_eq!(conf.read_to(&mut r), Err(ConfigError::InvalidCidr));
    let conf = IpRangeConf { file_lines: vec!["1.0.1.0/33".to_string()], list: vec![] };
    let mut r = IpRange::new();
    assert_eq!(conf.read_to(&mut r), Err(ConfigError::InvalidCidr));
}

#[test]
fn entries_are_trimmed_of_unicode_white_space() {
    let conf = IpRangeConf {
        file_lines: vec!["\u{3000}8.8.8.0/24\u{a0}".to_string(), "\t# comment".to_string()],
        list: vec!["\u{2003}".to_string(), "\u{85}".to_string()],
    };
    let mut r = IpRange::new();
    assert_eq!(conf.read_to(&mut r), Ok(()));
    assert!(r.contains(ip4(8, 8, 8, 8)));
    assert!(!r.contains(ip4(8, 8, 9, 8)));
}
