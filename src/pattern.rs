//! Text handling for the configuration: the entries of list files and
//! inline lists, and rule pattern strings, whose group name stands behind
//! any number of `!` sigils, each of which flips the predicate.
use vstd::prelude::*;

verus! {

/// The number of `!` characters at the start of `s`.
pub open spec fn leading_bangs(s: Seq<char>) -> nat
    decreases s.len(),
{
    if s.len() > 0 && s[0] == '!' {
        1 + leading_bangs(s.skip(1))
    } else {
        0
    }
}

/// The group name that a pattern refers to: the pattern without its sigils.
pub open spec fn group_of(p: Seq<char>) -> Seq<char> {
    p.skip(leading_bangs(p) as int)
}

/// Whether a pattern's sigils invert its predicate: an odd count does.
pub open spec fn is_negated(p: Seq<char>) -> bool {
    leading_bangs(p) % 2 == 1
}

/// `k` sigils.
pub open spec fn bangs(k: nat) -> Seq<char> {
    Seq::new(k, |i: int| '!')
}

/// Relies on str::strip_prefix with a `char`: the rest of `s` when `s`
/// starts with `c`, else nothing.
#[verifier::external_body]
pub(crate) fn strip_char(s: &str, c: char) -> (r: Option<&str>)
    ensures
        r is Some <==> (s@.len() > 0 && s@[0] == c),
        r is Some ==> r->0@ == s@.skip(1),
{
    s.strip_prefix(c)
}

/// Whether `c` has the Unicode White_Space property.
pub open spec fn is_white_space(c: char) -> bool {
    ('\u{9}' <= c && c <= '\u{d}') || c == ' ' || c == '\u{85}' || c == '\u{a0}' || c == '\u{1680}'
        || ('\u{2000}' <= c && c <= '\u{200a}') || c == '\u{2028}' || c == '\u{2029}' || c == '\u{202f}'
        || c == '\u{205f}' || c == '\u{3000}'
}

/// `s` without its leading white space.
pub open spec fn trim_start_of(s: Seq<char>) -> Seq<char>
    decreases s.len(),
{
    if s.len() > 0 && is_white_space(s[0]) {
        trim_start_of(s.skip(1))
    } else {
        s
    }
}

/// `s` without its trailing white space.
pub open spec fn trim_end_of(s: Seq<char>) -> Seq<char>
    decreases s.len(),
{
    if s.len() > 0 && is_white_space(s.last()) {
        trim_end_of(s.drop_last())
    } else {
        s
    }
}

/// `s` without leading and trailing white space.
pub open spec fn trimmed(s: Seq<char>) -> Seq<char> {
    trim_end_of(trim_start_of(s))
}

/// Relies on str::trim: the text without leading and trailing characters
/// of the Unicode White_Space property.
#[verifier::external_body]
pub(crate) fn trim(s: &str) -> (r: &str)
    ensures
        r@ == trimmed(s@),
{
    s.trim()
}

/// A trimmed list entry that counts: not blank, not a `#` comment.
pub open spec fn is_entry_line(t: Seq<char>) -> bool {
    t.len() > 0 && t[0] != '#'
}

/// The entries of a list, whether the lines of a list file or the items
/// of an inline list: each trimmed, blank and `#` comment entries left out.
pub open spec fn line_entries(lines: Seq<Seq<char>>) -> Seq<Seq<char>>
    decreases lines.len(),
{
    if lines.len() == 0 {
        Seq::empty()
    } else {
        let prev = line_entries(lines.drop_last());
        let t = trimmed(lines.last());
        if is_entry_line(t) {
            prev.push(t)
        } else {
            prev
        }
    }
}

/// The views of a list of strings.
pub open spec fn views(v: Seq<String>) -> Seq<Seq<char>> {
    v.map_values(|s: String| s@)
}

/// Appends the entries of a list to `out`.
fn push_entries(lines: &Vec<String>, out: &mut Vec<String>)
    ensures
        views(final(out)@) == views(old(out)@) + line_entries(views(lines@)),
{
    let ghost base = views(out@);
    let mut i: usize = 0;
    while i < lines.len()
        invariant
            i <= lines.len(),
            views(out@) == base + line_entries(views(lines@.subrange(0, i as int))),
        decreases lines.len() - i,
    {
        let t = trim(lines[i].as_str());
        let blank = t.is_empty();
        let comment = strip_char(t, '#').is_some();
        let ghost sub = views(lines@.subrange(0, i + 1));
        assert(sub.drop_last() =~= views(lines@.subrange(0, i as int)));
        assert(sub.last() == lines@[i as int]@);
        if !blank && !comment {
            let ghost prev_out = out@;
            out.push(t.to_owned());
            assert(views(out@) =~= views(prev_out).push(t@));
            assert(views(out@) =~= base + line_entries(sub));
        }
        i = i + 1;
    }
    assert(lines@.subrange(0, i as int) =~= lines@);
}

/// The entries that a list file's lines and an inline list give, in order.
pub fn collect_entries(file_lines: &Vec<String>, list: &Vec<String>) -> (r: Vec<String>)
    ensures
        views(r@) == line_entries(views(file_lines@)) + line_entries(views(list@)),
{
    let mut out: Vec<String> = Vec::new();
    push_entries(file_lines, &mut out);
    push_entries(list, &mut out);
    assert(views(Seq::<String>::empty()) =~= Seq::<Seq<char>>::empty());
    assert(Seq::<Seq<char>>::empty() + line_entries(views(file_lines@)) =~= line_entries(views(file_lines@)));
    out
}

/// Splits a pattern into the parity of its leading `!`s and the group name.
pub fn split_negations(pattern: &str) -> (r: (bool, String))
    ensures
        r.0 == is_negated(pattern@),
        r.1@ == group_of(pattern@),
{
    let mut cur: &str = pattern;
    let mut odd = false;
    let ghost mut k: nat = 0;
    loop
        invariant
            k <= pattern@.len(),
            cur@ == pattern@.skip(k as int),
            leading_bangs(pattern@) == k + leading_bangs(cur@),
            odd == (k % 2 == 1),
        ensures
            leading_bangs(cur@) == 0,
            k == leading_bangs(pattern@),
        decreases cur@.len(),
    {
        match strip_char(cur, '!') {
            Some(rest) => {
                assert(rest@ =~= pattern@.skip(k + 1 as int));
                cur = rest;
                odd = !odd;
                proof {
                    k = k + 1;
                }
            },
            None => {
                break ;
            },
        }
    }
    (odd, cur.to_owned())
}

proof fn lemma_bangs_prefix(k: nat, g: Seq<char>)
    ensures
        leading_bangs(bangs(k) + g) == k + leading_bangs(g),
        (bangs(k) + g).skip(k as int) == g,
    decreases k,
{
    assert((bangs(k) + g).skip(k as int) =~= g);
    if k > 0 {
        assert((bangs(k) + g).skip(1) =~= bangs((k - 1) as nat) + g);
        lemma_bangs_prefix((k - 1) as nat, g);
    }
}

/// Negation parity: a pattern made of `k` sigils and a group name `g` (not
/// itself starting with `!`) names `g`, and inverts the predicate on `g`
/// exactly when `k` is odd.
pub proof fn lemma_negation_parity(k: nat, g: Seq<char>)
    requires
        !(g.len() > 0 && g[0] == '!'),
    ensures
        group_of(bangs(k) + g) == g,
        is_negated(bangs(k) + g) == (k % 2 == 1),
{
    lemma_bangs_prefix(k, g);
}

} // verus!
