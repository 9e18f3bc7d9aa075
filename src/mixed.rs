//! A resolver pair: a domestic upstream whose answer is trusted only when
//! it points into the domestic address ranges, and a foreign upstream.
use crate::config::{parse_cidr, parsed_cidr};
use crate::ip::{with_block, Cidr, IpAddress, IpRange, RangeView};
use crate::pattern::{strip_char, views};
use vstd::prelude::*;

verus! {

/// The first IPv4 answer, if any.
pub open spec fn first_v4(answers: Seq<Option<IpAddress>>) -> Option<u32>
    decreases answers.len(),
{
    if answers.len() == 0 {
        None
    } else {
        match answers[0] {
            Some(IpAddress::V4(x)) => Some(x),
            _ => first_v4(answers.skip(1)),
        }
    }
}

/// Whether a response is domestic: its first IPv4 answer lies in the range.
pub open spec fn is_domestic(v: RangeView, answers: Seq<Option<IpAddress>>) -> bool {
    match first_v4(answers) {
        Some(x) => v.0.contains(x),
        None => false,
    }
}

/// Whether a response is domestic: its first IPv4 answer lies in the
/// domestic range; one without IPv4 answers is not.
pub fn is_china_response(answers: &Vec<Option<IpAddress>>, china_ip: &IpRange) -> (r: bool)
    ensures
        r == is_domestic(china_ip@, answers@),
{
    let mut i: usize = 0;
    assert(answers@.skip(0) =~= answers@);
    while i < answers.len()
        invariant
            i <= answers@.len(),
            first_v4(answers@) == first_v4(answers@.skip(i as int)),
        decreases answers@.len() - i,
    {
        assert(answers@.skip(i as int).skip(1) =~= answers@.skip(i + 1));
        match answers[i] {
            Some(IpAddress::V4(x)) => {
                return china_ip.contains(IpAddress::V4(x));
            },
            _ => {},
        }
        i = i + 1;
    }
    false
}

/// Whether a route-list line carries a block: comment lines start with `#`.
pub open spec fn is_route_line(l: Seq<char>) -> bool {
    !(l.len() > 0 && l[0] == '#')
}

/// The IPv4 block of a route-list line, if it has one.
pub open spec fn route_block(l: Seq<char>) -> Option<Cidr> {
    if is_route_line(l) {
        match parsed_cidr(l) {
            Some(Cidr::V4 { addr, len }) => Some(Cidr::V4 { addr, len }),
            _ => None,
        }
    } else {
        None
    }
}

/// The coverage of a route list: the IPv4 blocks of its lines; comment
/// lines and lines that are not IPv4 blocks are skipped.
pub open spec fn routes_view(lines: Seq<Seq<char>>) -> RangeView
    decreases lines.len(),
{
    if lines.len() == 0 {
        (Set::empty(), Set::empty())
    } else {
        let prev = routes_view(lines.drop_last());
        match route_block(lines.last()) {
            Some(c) => with_block(prev, c),
            None => prev,
        }
    }
}

/// Reads a list of domestic IPv4 routes, one block per line.
pub fn parse_chnroutes(lines: &Vec<String>) -> (r: IpRange)
    ensures
        r@ == routes_view(views(lines@)),
{
    let mut range = IpRange::new();
    let mut i: usize = 0;
    while i < lines.len()
        invariant
            i <= lines@.len(),
            range@ == routes_view(views(lines@.subrange(0, i as int))),
        decreases lines@.len() - i,
    {
        let ghost sub = views(lines@.subrange(0, i + 1));
        assert(sub.drop_last() =~= views(lines@.subrange(0, i as int)));
        assert(sub.last() == lines@[i as int]@);
        let line = lines[i].as_str();
        if strip_char(line, '#').is_none() {
            match parse_cidr(line) {
                Some(Cidr::V4 { addr, len }) => range.add(Cidr::V4 { addr, len }),
                _ => {},
            }
        }
        i = i + 1;
    }
    assert(lines@.subrange(0, i as int) =~= lines@);
    range.simplify();
    range
}

/// Which answer a mixed query gives.
#[derive(Clone, Copy, Debug, PartialEq, Eq, Structural)]
pub enum MixedPick {
    /// The domestic upstream's answer.
    China,
    /// The foreign upstream's answer.
    Abroad,
    /// Neither: the query fails.
    Fail,
}

/// A domestic and a foreign resolver, with the domestic ranges.
pub struct MixedResolver<C, F> {
    pub china: C,
    pub foreign: F,
    pub china_ip: IpRange,
}

impl<C, F> MixedResolver<C, F> {
    /// A pair whose domestic ranges are read from a route list.
    pub fn new(china: C, foreign: F, china_routes: &Vec<String>) -> (r: Self)
        ensures
            r.china == china,
            r.foreign == foreign,
            r.china_ip@ == routes_view(views(china_routes@)),
    {
        MixedResolver { china, foreign, china_ip: parse_chnroutes(china_routes) }
    }

    /// The answer to give, whatever order the two arrived in: the domestic
    /// one when it answered with a domestic address; else the foreign one
    /// when it answered; else none.
    pub fn pick(&self, china: Option<&Vec<Option<IpAddress>>>, abroad_answered: bool) -> (r: MixedPick)
        ensures
            r == (if china matches Some(a) && is_domestic(self.china_ip@, a@) {
                MixedPick::China
            } else if abroad_answered {
                MixedPick::Abroad
            } else {
                MixedPick::Fail
            }),
    {
        let domestic = match china {
            Some(a) => is_china_response(a, &self.china_ip),
            None => false,
        };
        if domestic {
            MixedPick::China
        } else if abroad_answered {
            MixedPick::Abroad
        } else {
            MixedPick::Fail
        }
    }
}

} // verus!
