//! Aggregated IPv4/IPv6 CIDR sets, kept in iprange's tries.
//!
//! Contents are modelled as the set of covered addresses of each family.
use ipnet::{Ipv4Net, Ipv6Net};
use iprange::IpRange as PrefixTrie;
use vstd::arithmetic::div_mod::lemma_div_denominator;
use vstd::arithmetic::power2::{lemma_pow2_adds, lemma_pow2_pos, pow2};
use vstd::prelude::*;

verus! {

/// An IP address, as its numeric value.
#[derive(Clone, Copy, Debug, PartialEq, Eq, Structural)]
pub enum IpAddress {
    V4(u32),
    V6(u128),
}

/// A CIDR block: an address and a prefix length.
#[allow(inconsistent_fields)]
#[derive(Clone, Copy, Debug, PartialEq, Eq, Structural)]
pub enum Cidr {
    V4 { addr: u32, len: u8 },
    V6 { addr: u128, len: u8 },
}

impl Cidr {
    /// The prefix length fits the address width.
    pub open spec fn wf(&self) -> bool {
        match *self {
            Cidr::V4 { len, .. } => len <= 32,
            Cidr::V6 { len, .. } => len <= 128,
        }
    }
}

/// `ip` agrees with `net` on the first `len` of `width` bits.
pub open spec fn same_prefix(width: nat, len: nat, net: int, ip: int) -> bool {
    ip / (pow2((width - len) as nat) as int) == net / (pow2((width - len) as nat) as int)
}

/// The IPv4 addresses of the block `addr/len`.
pub open spec fn v4_block(addr: u32, len: u8) -> Set<u32> {
    Set::new(|ip: u32| same_prefix(32, len as nat, addr as int, ip as int))
}

/// The IPv6 addresses of the block `addr/len`.
pub open spec fn v6_block(addr: u128, len: u8) -> Set<u128> {
    Set::new(|ip: u128| same_prefix(128, len as nat, addr as int, ip as int))
}

/// Whether the block `c` covers the address `a`.
pub open spec fn cidr_covers(c: Cidr, a: IpAddress) -> bool {
    match (c, a) {
        (Cidr::V4 { addr, len }, IpAddress::V4(ip)) => v4_block(addr, len).contains(ip),
        (Cidr::V6 { addr, len }, IpAddress::V6(ip)) => v6_block(addr, len).contains(ip),
        _ => false,
    }
}

/// `a` is a sub-block of `b`: same family, no shorter prefix, and `a`'s
/// address lies in `b`.
pub open spec fn is_subnet(a: Cidr, b: Cidr) -> bool {
    match (a, b) {
        (Cidr::V4 { addr: aa, len: al }, Cidr::V4 { addr: ba, len: bl }) => bl <= al && al
            <= 32 && same_prefix(32, bl as nat, ba as int, aa as int),
        (Cidr::V6 { addr: aa, len: al }, Cidr::V6 { addr: ba, len: bl }) => bl <= al && al
            <= 128 && same_prefix(128, bl as nat, ba as int, aa as int),
        _ => false,
    }
}

/// What a range covers: IPv4 addresses, then IPv6 addresses.
pub type RangeView = (Set<u32>, Set<u128>);

pub open spec fn empty_view() -> RangeView {
    (Set::empty(), Set::empty())
}

/// The coverage after adding the block `c`.
pub open spec fn with_block(v: RangeView, c: Cidr) -> RangeView {
    match c {
        Cidr::V4 { addr, len } => (v.0.union(v4_block(addr, len)), v.1),
        Cidr::V6 { addr, len } => (v.0, v.1.union(v6_block(addr, len))),
    }
}

/// Whether the coverage `v` holds the address `a`.
pub open spec fn view_holds(v: RangeView, a: IpAddress) -> bool {
    match a {
        IpAddress::V4(ip) => v.0.contains(ip),
        IpAddress::V6(ip) => v.1.contains(ip),
    }
}

/// An IPv4 trie of iprange, opaque to the proofs.
#[verifier::external_body]
pub struct V4Trie {
    inner: PrefixTrie<Ipv4Net>,
}

/// An IPv6 trie of iprange, opaque to the proofs.
#[verifier::external_body]
pub struct V6Trie {
    inner: PrefixTrie<Ipv6Net>,
}

/// The IPv4 addresses that an iprange trie covers.
pub uninterp spec fn v4_covered(r: V4Trie) -> Set<u32>;

/// The IPv6 addresses that an iprange trie covers.
pub uninterp spec fn v6_covered(r: V6Trie) -> Set<u128>;

/// The IPv4 blocks that an iprange trie stores, its leaves: each as its
/// network address (host bits zero) and its prefix length.
pub uninterp spec fn v4_blocks(r: V4Trie) -> Set<(u32, u8)>;

/// The IPv6 blocks that an iprange trie stores, its leaves: each as its
/// network address (host bits zero) and its prefix length.
pub uninterp spec fn v6_blocks(r: V6Trie) -> Set<(u128, u8)>;

/// The IPv4 addresses that some block of the set covers.
pub open spec fn v4_union(blocks: Set<(u32, u8)>) -> Set<u32> {
    Set::new(|ip: u32| exists|b: (u32, u8)| #[trigger] blocks.contains(b) && v4_block(b.0, b.1).contains(ip))
}

/// The IPv6 addresses that some block of the set covers.
pub open spec fn v6_union(blocks: Set<(u128, u8)>) -> Set<u128> {
    Set::new(|ip: u128| exists|b: (u128, u8)| #[trigger] blocks.contains(b) && v6_block(b.0, b.1).contains(ip))
}

/// A set of IPv4 blocks in minimal form: no block lies inside another, and
/// no two blocks are the two halves of one parent block.
pub open spec fn v4_canonical(blocks: Set<(u32, u8)>) -> bool {
    forall|a: (u32, u8), b: (u32, u8)|
        #![trigger blocks.contains(a), blocks.contains(b)]
        blocks.contains(a) && blocks.contains(b) && a != b ==> !is_subnet(
            Cidr::V4 { addr: a.0, len: a.1 },
            Cidr::V4 { addr: b.0, len: b.1 },
        ) && !(a.1 == b.1 && a.1 > 0 && same_prefix(32, (a.1 - 1) as nat, a.0 as int, b.0 as int))
}

/// A set of IPv6 blocks in minimal form: no block lies inside another, and
/// no two blocks are the two halves of one parent block.
pub open spec fn v6_canonical(blocks: Set<(u128, u8)>) -> bool {
    forall|a: (u128, u8), b: (u128, u8)|
        #![trigger blocks.contains(a), blocks.contains(b)]
        blocks.contains(a) && blocks.contains(b) && a != b ==> !is_subnet(
            Cidr::V6 { addr: a.0, len: a.1 },
            Cidr::V6 { addr: b.0, len: b.1 },
        ) && !(a.1 == b.1 && a.1 > 0 && same_prefix(128, (a.1 - 1) as nat, a.0 as int, b.0 as int))
}

/// Relies on iprange::IpRange::new: a new trie stores and covers nothing.
#[verifier::external_body]
fn v4_trie_new() -> (r: V4Trie)
    ensures
        v4_covered(r) == Set::<u32>::empty(),
        v4_blocks(r) == Set::<(u32, u8)>::empty(),
{
    V4Trie { inner: PrefixTrie::new() }
}

/// Relies on iprange::IpRange::new: a new trie stores and covers nothing.
#[verifier::external_body]
fn v6_trie_new() -> (r: V6Trie)
    ensures
        v6_covered(r) == Set::<u128>::empty(),
        v6_blocks(r) == Set::<(u128, u8)>::empty(),
{
    V6Trie { inner: PrefixTrie::new() }
}

/// Relies on iprange::IpRange::add (with ipnet's Ipv4Net::new_assert, which
/// does not panic for a length up to 32): the trie then also covers every
/// address that shares the block's first `len` bits; what it covers is
/// what its leaves cover (a search stops at the first leaf on its path).
#[verifier::external_body]
fn v4_trie_add(r: &mut V4Trie, addr: u32, len: u8)
    requires
        len <= 32,
    ensures
        v4_covered(*final(r)) == v4_covered(*old(r)).union(v4_block(addr, len)),
        v4_covered(*final(r)) == v4_union(v4_blocks(*final(r))),
{
    r.inner.add(Ipv4Net::new_assert(addr.into(), len));
}

/// Relies on iprange::IpRange::add (with ipnet's Ipv6Net::new_assert, which
/// does not panic for a length up to 128): the trie then also covers every
/// address that shares the block's first `len` bits; what it covers is
/// what its leaves cover (a search stops at the first leaf on its path).
#[verifier::external_body]
fn v6_trie_add(r: &mut V6Trie, addr: u128, len: u8)
    requires
        len <= 128,
    ensures
        v6_covered(*final(r)) == v6_covered(*old(r)).union(v6_block(addr, len)),
        v6_covered(*final(r)) == v6_union(v6_blocks(*final(r))),
{
    r.inner.add(Ipv6Net::new_assert(addr.into(), len));
}

/// Relies on iprange::IpRange::simplify: bottom up, a node whose two
/// children are leaves becomes a leaf. That keeps what is covered; after it
/// no two leaves are siblings, and a leaf never has children, so the
/// stored blocks are in minimal form; a trie already in that form has no
/// node to merge and is left as it is.
#[verifier::external_body]
fn v4_trie_simplify(r: &mut V4Trie)
    ensures
        v4_covered(*final(r)) == v4_covered(*old(r)),
        v4_covered(*final(r)) == v4_union(v4_blocks(*final(r))),
        v4_canonical(v4_blocks(*final(r))),
        v4_canonical(v4_blocks(*old(r))) ==> v4_blocks(*final(r)) == v4_blocks(*old(r)),
{
    r.inner.simplify();
}

/// Relies on iprange::IpRange::simplify: bottom up, a node whose two
/// children are leaves becomes a leaf. That keeps what is covered; after it
/// no two leaves are siblings, and a leaf never has children, so the
/// stored blocks are in minimal form; a trie already in that form has no
/// node to merge and is left as it is.
#[verifier::external_body]
fn v6_trie_simplify(r: &mut V6Trie)
    ensures
        v6_covered(*final(r)) == v6_covered(*old(r)),
        v6_covered(*final(r)) == v6_union(v6_blocks(*final(r))),
        v6_canonical(v6_blocks(*final(r))),
        v6_canonical(v6_blocks(*old(r))) ==> v6_blocks(*final(r)) == v6_blocks(*old(r)),
{
    r.inner.simplify();
}

/// Relies on iprange::IpRange::contains on a `u32`: true iff a stored
/// network covers the address.
#[verifier::external_body]
fn v4_trie_contains(r: &V4Trie, ip: u32) -> (b: bool)
    ensures
        b == v4_covered(*r).contains(ip),
{
    r.inner.contains(&ip)
}

/// Relies on iprange::IpRange::contains on a `u128`: true iff a stored
/// network covers the address.
#[verifier::external_body]
fn v6_trie_contains(r: &V6Trie, ip: u128) -> (b: bool)
    ensures
        b == v6_covered(*r).contains(ip),
{
    r.inner.contains(&ip)
}

/// A set of IPv4 and IPv6 CIDR blocks.
pub struct IpRange {
    v4: V4Trie,
    v6: V6Trie,
}

impl View for IpRange {
    type V = RangeView;

    closed spec fn view(&self) -> RangeView {
        (v4_covered(self.v4), v6_covered(self.v6))
    }
}

impl IpRange {
    /// The stored blocks: IPv4, then IPv6.
    pub closed spec fn stored_blocks(&self) -> (Set<(u32, u8)>, Set<(u128, u8)>) {
        (v4_blocks(self.v4), v6_blocks(self.v6))
    }

    /// What the range covers is what its stored blocks cover.
    pub open spec fn blocks_cover(&self) -> bool {
        &&& self@.0 == v4_union(self.stored_blocks().0)
        &&& self@.1 == v6_union(self.stored_blocks().1)
    }

    /// The stored blocks are in minimal form: none lies inside another and
    /// no two share a parent.
    pub open spec fn is_simplified(&self) -> bool {
        &&& v4_canonical(self.stored_blocks().0)
        &&& v6_canonical(self.stored_blocks().1)
    }

    /// An empty range.
    pub fn new() -> (r: Self)
        ensures
            r@ == empty_view(),
            r.stored_blocks() == (Set::<(u32, u8)>::empty(), Set::<(u128, u8)>::empty()),
    {
        IpRange { v4: v4_trie_new(), v6: v6_trie_new() }
    }

    /// Adds a block; adding one that is already there changes nothing.
    pub fn add(&mut self, net: Cidr)
        requires
            net.wf(),
        ensures
            final(self)@ == with_block(old(self)@, net),
            old(self).blocks_cover() ==> final(self).blocks_cover(),
    {
        match net {
            Cidr::V4 { addr, len } => v4_trie_add(&mut self.v4, addr, len),
            Cidr::V6 { addr, len } => v6_trie_add(&mut self.v6, addr, len),
        }
    }

    /// Folds the stored blocks into their minimal form; what is covered
    /// stays, and a range already in minimal form is left as it is.
    pub fn simplify(&mut self)
        ensures
            final(self)@ == old(self)@,
            final(self).is_simplified(),
            final(self).blocks_cover(),
            old(self).is_simplified() ==> final(self).stored_blocks() == old(self).stored_blocks(),
    {
        v4_trie_simplify(&mut self.v4);
        v6_trie_simplify(&mut self.v6);
    }

    /// Whether some stored block covers `addr`.
    pub fn contains(&self, addr: IpAddress) -> (r: bool)
        ensures
            r == view_holds(self@, addr),
    {
        match addr {
            IpAddress::V4(ip) => v4_trie_contains(&self.v4, ip),
            IpAddress::V6(ip) => v6_trie_contains(&self.v6, ip),
        }
    }
}

impl Default for IpRange {
    fn default() -> (r: Self)
        ensures
            r@ == empty_view(),
            r.stored_blocks() == (Set::<(u32, u8)>::empty(), Set::<(u128, u8)>::empty()),
    {
        Self::new()
    }
}

/// Adding the same block twice covers exactly what adding it once does.
pub proof fn lemma_add_idempotent(v: RangeView, x: Cidr)
    ensures
        with_block(with_block(v, x), x) == with_block(v, x),
{
    match x {
        Cidr::V4 { addr, len } => {
            assert(v.0.union(v4_block(addr, len)).union(v4_block(addr, len)) =~= v.0.union(
                v4_block(addr, len),
            ));
        },
        Cidr::V6 { addr, len } => {
            assert(v.1.union(v6_block(addr, len)).union(v6_block(addr, len)) =~= v.1.union(
                v6_block(addr, len),
            ));
        },
    }
}

/// Sharing the first `long` bits implies sharing the first `short` bits.
proof fn lemma_prefix_widens(width: nat, short: nat, long: nat, a: int, b: int)
    requires
        short <= long <= width,
        a >= 0,
        b >= 0,
        same_prefix(width, long, a, b),
    ensures
        same_prefix(width, short, a, b),
{
    let m = (width - long) as nat;
    let d = (long - short) as nat;
    lemma_pow2_pos(m);
    lemma_pow2_pos(d);
    lemma_pow2_adds(m, d);
    lemma_div_denominator(a, pow2(m) as int, pow2(d) as int);
    lemma_div_denominator(b, pow2(m) as int, pow2(d) as int);
    assert((width - short) as nat == m + d);
}

/// Every address of a sub-block lies in the enclosing block.
pub proof fn lemma_subnet_covered(a: Cidr, b: Cidr, ip: IpAddress)
    requires
        is_subnet(a, b),
        cidr_covers(a, ip),
    ensures
        cidr_covers(b, ip),
{
    match (a, b, ip) {
        (Cidr::V4 { addr: aa, len: al }, Cidr::V4 { addr: ba, len: bl }, IpAddress::V4(x)) => {
            assert(same_prefix(32, al as nat, aa as int, x as int));
            lemma_prefix_widens(32, bl as nat, al as nat, aa as int, x as int);
        },
        (Cidr::V6 { addr: aa, len: al }, Cidr::V6 { addr: ba, len: bl }, IpAddress::V6(x)) => {
            assert(same_prefix(128, al as nat, aa as int, x as int));
            lemma_prefix_widens(128, bl as nat, al as nat, aa as int, x as int);
        },
        _ => {},
    }
}

/// Adding a sub-block before its enclosing block covers exactly what adding
/// the enclosing block alone does.
pub proof fn lemma_add_subsumed(v: RangeView, a: Cidr, b: Cidr)
    requires
        is_subnet(a, b),
    ensures
        with_block(with_block(v, a), b) == with_block(v, b),
{
    match (a, b) {
        (Cidr::V4 { addr: aa, len: al }, Cidr::V4 { addr: ba, len: bl }) => {
            assert forall|x: u32| #[trigger] v4_block(aa, al).contains(x) implies v4_block(
                ba,
                bl,
            ).contains(x) by {
                lemma_subnet_covered(a, b, IpAddress::V4(x));
            }
            assert(v.0.union(v4_block(aa, al)).union(v4_block(ba, bl)) =~= v.0.union(
                v4_block(ba, bl),
            ));
        },
        (Cidr::V6 { addr: aa, len: al }, Cidr::V6 { addr: ba, len: bl }) => {
            assert forall|x: u128| #[trigger] v6_block(aa, al).contains(x) implies v6_block(
                ba,
                bl,
            ).contains(x) by {
                lemma_subnet_covered(a, b, IpAddress::V6(x));
            }
            assert(v.1.union(v6_block(aa, al)).union(v6_block(ba, bl)) =~= v.1.union(
                v6_block(ba, bl),
            ));
        },
        _ => {},
    }
}

/// A range holding the single block `p` contains exactly the addresses of `p`.
pub proof fn lemma_single_block_membership(p: Cidr, ip: IpAddress)
    ensures
        view_holds(with_block(empty_view(), p), ip) == cidr_covers(p, ip),
{
}

} // verus!
