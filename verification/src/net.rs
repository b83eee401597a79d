//! Plain address values the scanning logic works over.

use vstd::prelude::*;
use crate::text::is_alphanumeric_char;

verus! {

/// A target address, held as plain bytes.
#[derive(Debug, Clone, Copy, PartialEq, Eq)]
pub enum IpAddress {
    /// An IPv4 address as four octets.
    V4([u8; 4]),
    /// An IPv6 address as sixteen octets.
    V6([u8; 16]),
}

impl IpAddress {
    /// Whether this is an IPv4 address.
    pub fn is_ipv4(&self) -> (r: bool)
        ensures
            r == (self is V4),
    {
        match self {
            IpAddress::V4(_) => true,
            IpAddress::V6(_) => false,
        }
    }

    /// Whether this is an IPv6 address.
    pub fn is_ipv6(&self) -> (r: bool)
        ensures
            r == (self is V6),
    {
        match self {
            IpAddress::V4(_) => false,
            IpAddress::V6(_) => true,
        }
    }
}

/// Whether an IPv4 address is a loopback address (127.0.0.0/8).
pub open spec fn spec_v4_loopback(a: Seq<u8>) -> bool {
    a.len() == 4 && a[0] == 127
}

/// Whether four octets form a loopback address.
pub fn v4_is_loopback(a: &[u8; 4]) -> (r: bool)
    ensures
        r == spec_v4_loopback(a@),
{
    a[0] == 127
}

/// The index of the first dot, or the length if there is none.
pub open spec fn find_dot(s: Seq<char>) -> int
    decreases s.len(),
{
    if s.len() == 0 {
        0
    } else if s[0] == '.' {
        0
    } else {
        1 + find_dot(s.skip(1))
    }
}

/// `find_dot` points at a dot or past the end, and nothing before it is a
/// dot.
proof fn lemma_find_dot(s: Seq<char>)
    ensures
        0 <= find_dot(s) <= s.len(),
        find_dot(s) < s.len() ==> s[find_dot(s)] == '.',
        forall|j: int| 0 <= j < find_dot(s) ==> s[j] != '.',
    decreases s.len(),
{
    if s.len() > 0 && s[0] != '.' {
        lemma_find_dot(s.skip(1));
        assert forall|j: int| 0 <= j < find_dot(s) implies s[j] != '.' by {
            if j > 0 {
                assert(s.skip(1)[j - 1] != '.');
            }
        }
    }
}

/// Whether one hostname label is well-formed: one to sixty-three
/// characters, alphanumeric at both ends, alphanumeric or hyphens inside.
pub open spec fn spec_valid_label(l: Seq<char>) -> bool {
    &&& 1 <= l.len() <= 63
    &&& is_alphanumeric_char(l[0])
    &&& is_alphanumeric_char(l.last())
    &&& forall|i: int|
        0 <= i < l.len() ==> (is_alphanumeric_char(#[trigger] l[i]) || l[i] == '-')
}

/// Whether every dot-separated label of a piece is well-formed.
pub open spec fn spec_valid_labels(s: Seq<char>) -> bool
    decreases s.len(),
{
    let k0 = find_dot(s);
    let k = if k0 < 0 {
        0int
    } else if k0 > s.len() {
        s.len() as int
    } else {
        k0
    };
    if k == s.len() {
        spec_valid_label(s)
    } else {
        spec_valid_label(s.take(k)) && spec_valid_labels(s.skip(k + 1))
    }
}

/// Whether a piece of text is a well-formed hostname: up to 253
/// characters, with every dot-separated label well-formed.
pub open spec fn spec_valid_hostname(s: Seq<char>) -> bool {
    1 <= s.len() <= 253 && spec_valid_labels(s)
}

/// Check one label between two character positions.
fn check_label(s: &str, from: usize, to: usize) -> (r: bool)
    requires
        from <= to <= s@.len(),
    ensures
        r == spec_valid_label(s@.subrange(from as int, to as int)),
{
    let ghost label = s@.subrange(from as int, to as int);
    let len = to - from;
    if len < 1 || len > 63 {
        return false;
    }
    if !s.get_char(from).is_alphanumeric() {
        proof {
            assert(label[0] == s@[from as int]);
        }
        return false;
    }
    if !s.get_char(to - 1).is_alphanumeric() {
        proof {
            assert(label.last() == s@[to - 1]);
        }
        return false;
    }
    let mut i = from;
    while i < to
        invariant
            from <= i <= to <= s@.len(),
            label == s@.subrange(from as int, to as int),
            forall|k: int|
                0 <= k < i - from ==> (is_alphanumeric_char(#[trigger] label[k]) || label[k]
                    == '-'),
        decreases to - i,
    {
        let c = s.get_char(i);
        if !c.is_alphanumeric() && c != '-' {
            proof {
                assert(label[i - from] == c);
            }
            return false;
        }
        i = i + 1;
    }
    proof {
        assert(label[0] == s@[from as int]);
        assert(label.last() == s@[to - 1]);
    }
    true
}

/// Check every dot-separated label between two character positions.
fn check_labels(s: &str, from: usize, to: usize) -> (r: bool)
    requires
        from <= to <= s@.len(),
    ensures
        r == spec_valid_labels(s@.subrange(from as int, to as int)),
    decreases to - from,
{
    let ghost piece = s@.subrange(from as int, to as int);
    proof {
        lemma_find_dot(piece);
    }
    let mut k = from;
    while k < to && s.get_char(k) != '.'
        invariant
            from <= k <= to <= s@.len(),
            piece == s@.subrange(from as int, to as int),
            forall|j: int| 0 <= j < k - from ==> piece[j] != '.',
        decreases to - k,
    {
        proof {
            assert(piece[k - from] == s@[k as int]);
        }
        k = k + 1;
    }
    proof {
        lemma_find_dot(piece);
        if k < to {
            assert(piece[k - from] == '.');
            assert(find_dot(piece) == k - from) by {
                if find_dot(piece) < k - from {
                    assert(piece[find_dot(piece)] == '.');
                }
                if find_dot(piece) > k - from {
                    assert(piece[k - from] != '.');
                }
            }
        } else {
            assert(find_dot(piece) == piece.len()) by {
                if find_dot(piece) < piece.len() {
                    assert(piece[find_dot(piece)] == '.');
                }
            }
        }
        assert(piece.take(k - from) =~= s@.subrange(from as int, k as int));
    }
    if k == to {
        proof {
            assert(piece.take(k - from) =~= piece);
        }
        check_label(s, from, to)
    } else {
        if !check_label(s, from, k) {
            return false;
        }
        proof {
            assert(piece.skip(k - from + 1) =~= s@.subrange(k + 1, to as int));
        }
        check_labels(s, k + 1, to)
    }
}

/// Whether a piece of text is a well-formed hostname.
pub fn is_valid_hostname(s: &str) -> (r: bool)
    ensures
        r == spec_valid_hostname(s@),
{
    let n = s.unicode_len();
    if n < 1 || n > 253 {
        return false;
    }
    proof {
        assert(s@.subrange(0, n as int) =~= s@);
    }
    check_labels(s, 0, n)
}

} // verus!
