//! The question section of a DNS message, as raw bytes: where the first
//! question ends, and echoing a request's question verbatim into a reply.
use vstd::prelude::*;

verus! {

/// The length of the fixed message header.
pub const HEADER_LEN: usize = 12;

/// Where the domain name that starts at `i` ends: after its root label, or
/// after a compression pointer; none when it runs past the end or holds a
/// reserved label type.
pub open spec fn name_end(b: Seq<u8>, i: int) -> Option<int>
    decreases b.len() - i,
{
    if i < 0 || i >= b.len() {
        None
    } else if b[i] == 0 {
        Some(i + 1)
    } else if b[i] >= 0xC0 {
        if i + 2 <= b.len() {
            Some(i + 2)
        } else {
            None
        }
    } else if b[i] >= 0x40 || i + 1 + (b[i] as int) >= b.len() {
        None
    } else {
        name_end(b, i + 1 + (b[i] as int))
    }
}

/// Where the first question of a message ends: after its name, type and
/// class; none when the message has no complete first question.
pub open spec fn question_end(b: Seq<u8>) -> Option<int> {
    if b.len() < HEADER_LEN || (b[4] == 0 && b[5] == 0) {
        None
    } else {
        match name_end(b, HEADER_LEN as int) {
            Some(e) => if e + 4 <= b.len() {
                Some(e + 4)
            } else {
                None
            },
            None => None,
        }
    }
}

/// A name ends after where it starts, and within the message.
proof fn lemma_name_end_bounds(b: Seq<u8>, i: int)
    requires
        name_end(b, i) is Some,
    ensures
        i < name_end(b, i)->0 <= b.len(),
    decreases b.len() - i,
{
    if 0 <= i < b.len() && b[i] != 0 && b[i] < 0x40 && i + 1 + (b[i] as int) < b.len() {
        lemma_name_end_bounds(b, i + 1 + (b[i] as int));
    }
}

/// The first question ends after the header and within the message.
pub proof fn lemma_question_end_bounds(b: Seq<u8>)
    requires
        question_end(b) is Some,
    ensures
        HEADER_LEN < question_end(b)->0 <= b.len(),
{
    lemma_name_end_bounds(b, HEADER_LEN as int);
}

/// Where the first question of a message ends.
pub fn first_question_end(b: &Vec<u8>) -> (r: Option<usize>)
    ensures
        r is Some <==> question_end(b@) is Some,
        r is Some ==> r->0 as int == question_end(b@)->0,
{
    if b.len() < HEADER_LEN || (b[4] == 0 && b[5] == 0) {
        return None;
    }
    let mut i: usize = HEADER_LEN;
    loop
        invariant
            HEADER_LEN <= i,
            b@.len() >= HEADER_LEN,
            !(b@[4] == 0 && b@[5] == 0),
            name_end(b@, HEADER_LEN as int) == name_end(b@, i as int),
        decreases b@.len() - i,
    {
        if i >= b.len() {
            return None;
        }
        let l = b[i];
        if l == 0 {
            if b.len() - (i + 1) >= 4 {
                return Some(i + 1 + 4);
            }
            return None;
        } else if l >= 0xC0 {
            if b.len() - i >= 2 && b.len() - (i + 2) >= 4 {
                return Some(i + 2 + 4);
            }
            return None;
        } else if l >= 0x40 {
            return None;
        } else if (l as usize) + 1 >= b.len() - i {
            return None;
        }
        i = i + 1 + l as usize;
    }
}

/// Copies the request's first question, byte for byte, over the reply's
/// when both end at the same offset, so that the reply echoes the question
/// verbatim; otherwise leaves the reply as it is. Says whether it copied.
pub fn echo_question(request: &Vec<u8>, reply: &mut Vec<u8>) -> (copied: bool)
    ensures
        copied <==> (question_end(request@) is Some && question_end(request@) == question_end(old(reply)@)),
        copied ==> final(reply)@.len() == old(reply)@.len() && forall|j: int| 0 <= j < old(reply)@.len() ==> final(reply)@[j] == if HEADER_LEN <= j < question_end(request@)->0 {
            request@[j]
        } else {
            old(reply)@[j]
        },
        !copied ==> final(reply)@ == old(reply)@,
{
    proof {
        if question_end(request@) is Some {
            lemma_question_end_bounds(request@);
        }
        if question_end(reply@) is Some {
            lemma_question_end_bounds(reply@);
        }
    }
    let from_request = first_question_end(request);
    let from_reply = first_question_end(reply);
    if from_request.is_none() || from_reply.is_none() {
        return false;
    }
    let end = from_request.unwrap();
    if end != from_reply.unwrap() {
        return false;
    }
    let ghost old_reply = reply@;
    assert(question_end(request@) == Some(end as int));
    assert(question_end(old_reply) == Some(end as int));
    let mut k: usize = HEADER_LEN;
    while k < end
        invariant
            question_end(request@) == Some(end as int),
            question_end(old_reply) == Some(end as int),
            old_reply == old(reply)@,
            HEADER_LEN <= k <= end,
            end <= request@.len(),
            end <= old_reply.len(),
            reply@.len() == old_reply.len(),
            forall|j: int| 0 <= j < old_reply.len() ==> reply@[j] == if HEADER_LEN <= j < k {
                request@[j]
            } else {
                old_reply[j]
            },
        decreases end - k,
    {
        reply.set(k, request[k]);
        k = k + 1;
    }
    true
}

} // verus!
