use yadd::ip::IpAddress;
use yadd::mixed::{is_china_response, parse_chnroutes, MixedPick, MixedResolver};

fn a(x: [u8; 4]) -> Option<IpAddress> {
    Some(IpAddress::V4(u32::from_be_bytes(x)))
}

fn routes() -> Vec<String> {
    vec!["# china".to_string(), "1.0.1.0/24".to_string(), "garbage".to_string(), "2001:db8::/32".to_string(), "1.0.2.0/23".to_string()]
}

#[test]
fn route_list_keeps_ipv4_blocks() {
    let r = parse_chnroutes(&routes());
    assert!(r.contains(IpAddress::V4(u32::from_be_bytes([1, 0, 1, 5]))));
    assert!(r.contains(IpAddress::V4(u32::from_be_bytes([1, 0, 3, 5]))));
    assert!(!r.contains(IpAddress::V4(u32::from_be_bytes([1, 0, 4, 5]))));
    assert!(!r.contains(IpAddress::V6((0x2001_0db8_u128 << 96) | 1)));
}

#[test]
fn first_ipv4_answer_decides() {
    let r = parse_chnroutes(&routes());
    assert!(is_china_response(&vec![None, a([1, 0, 1, 1]), a([8, 8, 8, 8])], &r));
    assert!(!is_china_response(&vec![a([8, 8, 8, 8]), a([1, 0, 1, 1])], &r));
    assert!(!is_china_response(&vec![Some(IpAddress::V6(1)), None], &r));
    assert!(!is_china_response(&vec![], &r));
}

#[test]
fn pick_prefers_domestic_answers() {
    let m = MixedResolver::new("china", "abroad", &routes());
    assert_eq!(m.china, "china");
    let domestic = vec![a([1, 0, 1, 1])];
    let foreign = vec![a([8, 8, 8, 8])];
    assert_eq!(m.pick(Some(&domestic), true), MixedPick::China);
    assert_eq!(m.pick(Some(&domestic), false), MixedPick::China);
    assert_eq!(m.pick(Some(&foreign), true), MixedPick::Abroad);
    assert_eq!(m.pick(None, true), MixedPick::Abroad);
    assert_eq!(m.pick(Some(&foreign), false), MixedPick::Fail);
    assert_eq!(m.pick(None, false), MixedPick::Fail);
}
