//! Byte-sequence helpers the parser and the encoder are built on: first
//! occurrence of a byte, slice equality, prefix test, splitting on a
//! separator, and decimal rendering of a length.
use vstd::prelude::*;
use vstd::slice::{slice_subrange, slice_to_vec};

verus! {

/// Index of the first occurrence of `b` in `s`, or -1 when `b` does not occur.
pub open spec fn find_byte(s: Seq<u8>, b: u8) -> int
    decreases s.len(),
{
    if s.len() == 0 {
        -1
    } else if s[0] == b {
        0
    } else {
        let r = find_byte(s.skip(1), b);
        if r < 0 {
            -1
        } else {
            r + 1
        }
    }
}

pub proof fn lemma_find_byte_none(s: Seq<u8>, b: u8)
    requires
        forall|j: int| 0 <= j < s.len() ==> s[j] != b,
    ensures
        find_byte(s, b) == -1,
    decreases s.len(),
{
    if s.len() > 0 {
        lemma_find_byte_none(s.skip(1), b);
    }
}

pub proof fn lemma_find_byte_at(s: Seq<u8>, b: u8, i: int)
    requires
        0 <= i < s.len(),
        s[i] == b,
        forall|j: int| 0 <= j < i ==> s[j] != b,
    ensures
        find_byte(s, b) == i,
    decreases i,
{
    if i > 0 {
        lemma_find_byte_at(s.skip(1), b, i - 1);
    }
}

/// First index of `b` in `s`, as the spec function `find_byte` gives it.
pub fn find_byte_in(s: &[u8], b: u8) -> (r: Option<usize>)
    ensures
        match r {
            Some(i) => i == find_byte(s@, b) && i < s@.len() && s@[i as int] == b,
            None => find_byte(s@, b) == -1,
        },
{
    let mut i: usize = 0;
    while i < s.len()
        invariant
            0 <= i <= s@.len(),
            forall|j: int| 0 <= j < i ==> s@[j] != b,
        decreases s@.len() - i,
    {
        if s[i] == b {
            proof {
                lemma_find_byte_at(s@, b, i as int);
            }
            return Some(i);
        }
        i = i + 1;
    }
    proof {
        lemma_find_byte_none(s@, b);
    }
    None
}

/// Byte-for-byte equality of two slices.
pub fn bytes_eq(a: &[u8], b: &[u8]) -> (r: bool)
    ensures
        r == (a@ == b@),
{
    if a.len() != b.len() {
        return false;
    }
    let mut i: usize = 0;
    while i < a.len()
        invariant
            a@.len() == b@.len(),
            0 <= i <= a@.len(),
            forall|j: int| 0 <= j < i ==> a@[j] == b@[j],
        decreases a@.len() - i,
    {
        if a[i] != b[i] {
            return false;
        }
        i = i + 1;
    }
    proof {
        assert(a@ =~= b@);
    }
    true
}

/// `p` is an initial segment of `s`.
pub open spec fn is_prefix(p: Seq<u8>, s: Seq<u8>) -> bool {
    p.len() <= s.len() && s.take(p.len() as int) == p
}

pub fn starts_with(s: &[u8], p: &[u8]) -> (r: bool)
    ensures
        r == is_prefix(p@, s@),
{
    if p.len() > s.len() {
        return false;
    }
    bytes_eq(slice_subrange(s, 0, p.len()), p)
}

/// The decimal digits of `n`, most significant first, as ASCII bytes.
pub open spec fn dec_digits(n: nat) -> Seq<u8>
    decreases n,
{
    if n < 10 {
        seq![(48 + n) as u8]
    } else {
        dec_digits(n / 10) + seq![(48 + n % 10) as u8]
    }
}

/// Appends the decimal rendering of `n` to `out`.
pub fn push_decimal(out: &mut Vec<u8>, n: usize)
    ensures
        final(out)@ == old(out)@ + dec_digits(n as nat),
    decreases n,
{
    if n < 10 {
        out.push((48 + n) as u8);
        assert(out@ =~= old(out)@ + dec_digits(n as nat));
    } else {
        push_decimal(out, n / 10);
        out.push((48 + n % 10) as u8);
        assert(out@ =~= old(out)@ + dec_digits(n as nat));
    }
}

/// Splitting `s` on the separator `sep`, left to right, occurrences not
/// overlapping; the pieces do not contain the separator. An empty or
/// too-long separator leaves `s` whole. Mirrors `str::split`: there is
/// always at least one piece, and a trailing separator yields a trailing
/// empty piece.
pub open spec fn split_on(s: Seq<u8>, sep: Seq<u8>) -> Seq<Seq<u8>>
    decreases s.len(),
{
    if sep.len() == 0 || s.len() < sep.len() {
        seq![s]
    } else if s.take(sep.len() as int) == sep {
        seq![Seq::<u8>::empty()] + split_on(s.skip(sep.len() as int), sep)
    } else {
        let r = split_on(s.skip(1), sep);
        seq![seq![s[0]] + r[0]] + r.skip(1)
    }
}

pub proof fn lemma_split_on_nonempty(s: Seq<u8>, sep: Seq<u8>)
    ensures
        split_on(s, sep).len() >= 1,
    decreases s.len(),
{
    if !(sep.len() == 0 || s.len() < sep.len()) {
        if s.take(sep.len() as int) == sep {
            lemma_split_on_nonempty(s.skip(sep.len() as int), sep);
        } else {
            lemma_split_on_nonempty(s.skip(1), sep);
        }
    }
}

/// Splits `s` on `sep`, as the spec function `split_on` gives it.
pub fn split_on_exec(s: &[u8], sep: &[u8]) -> (r: Vec<Vec<u8>>)
    ensures
        r.deep_view() == split_on(s@, sep@),
        r@.len() >= 1,
    decreases s@.len(),
{
    proof {
        lemma_split_on_nonempty(s@, sep@);
    }
    if sep.len() == 0 || s.len() < sep.len() {
        let mut r: Vec<Vec<u8>> = Vec::new();
        r.push(slice_to_vec(s));
        proof {
            assert(r.deep_view() =~~= split_on(s@, sep@));
        }
        r
    } else if bytes_eq(slice_subrange(s, 0, sep.len()), sep) {
        let rest = slice_subrange(s, sep.len(), s.len());
        let mut r = split_on_exec(rest, sep);
        r.insert(0, Vec::new());
        proof {
            assert(r.deep_view() =~~= split_on(s@, sep@));
        }
        r
    } else {
        let rest = slice_subrange(s, 1, s.len());
        let mut r = split_on_exec(rest, sep);
        let mut first = r.remove(0);
        first.insert(0, s[0]);
        r.insert(0, first);
        proof {
            assert(r.deep_view() =~~= split_on(s@, sep@));
        }
        r
    }
}

} // verus!
