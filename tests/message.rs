use yadd::message::{echo_question, first_question_end};

fn message(name: &[u8], qdcount: u16, tail: &[u8]) -> Vec<u8> {
    let mut m = vec![0x12, 0x34, 0x01, 0x00];
    m.extend_from_slice(&qdcount.to_be_bytes());
    m.extend_from_slice(&[0, 0, 0, 0, 0, 0]);
    m.extend_from_slice(name);
    m.extend_from_slice(&[0, 1, 0, 1]);
    m.extend_from_slice(tail);
    m
}

const NAME: &[u8] = b"\x07example\x03com\x00";
const UPPER: &[u8] = b"\x07EXAMPLE\x03COM\x00";

#[test]
fn finds_the_end_of_the_first_question() {
    assert_eq!(first_question_end(&message(NAME, 1, &[])), Some(12 + 13 + 4));
    assert_eq!(first_question_end(&message(NAME, 1, &[9, 9, 9])), Some(29));
    assert_eq!(first_question_end(&message(b"\x00", 1, &[])), Some(17));
    assert_eq!(first_question_end(&message(b"\xc0\x0c", 1, &[])), Some(18));
}

#[test]
fn no_question_no_end() {
    assert_eq!(first_question_end(&message(NAME, 0, &[])), None);
    assert_eq!(first_question_end(&vec![0u8; 5]), None);
    let mut cut = message(NAME, 1, &[]);
    cut.truncate(27);
    assert_eq!(first_question_end(&cut), None);
    assert_eq!(first_question_end(&message(b"\x40abc\x00", 1, &[])), None);
    assert_eq!(first_question_end(&message(b"\x3f", 1, &[])), None);
}

#[test]
fn echoes_the_question_verbatim() {
    let request = message(NAME, 1, &[]);
    let mut reply = message(UPPER, 1, &[0xc0, 0x0c, 0, 1, 0, 1]);
    reply[2] = 0x81;
    let before = reply.clone();
    assert!(echo_question(&request, &mut reply));
    assert_eq!(&reply[12..29], &request[12..29]);
    assert_eq!(&reply[..12], &before[..12]);
    assert_eq!(&reply[29..], &before[29..]);
}

#[test]
fn leaves_a_reply_of_another_shape() {
    let request = message(b"\x03foo\x00", 1, &[]);
    let mut reply = message(NAME, 1, &[]);
    let before = reply.clone();
    assert!(!echo_question(&request, &mut reply));
    assert_eq!(reply, before);
    let mut empty = message(NAME, 0, &[]);
    let before = empty.clone();
    assert!(!echo_question(&message(NAME, 1, &[]), &mut empty));
    assert_eq!(empty, before);
}
