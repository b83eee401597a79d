//! Small verified text helpers shared across the library.

use vstd::prelude::*;

verus! {

/// Relies on String::from_utf8: bytes that are all ASCII decode to the
/// string whose characters are those bytes.
#[verifier::external_body]
pub(crate) fn ascii_to_string(bytes: Vec<u8>) -> (r: String)
    requires
        forall|i: int| 0 <= i < bytes@.len() ==> bytes@[i] < 128,
    ensures
        r@ == bytes@.map_values(|b: u8| b as char),
{
    String::from_utf8(bytes).unwrap()
}

/// Whether a character counts as alphanumeric; what char::is_alphanumeric
/// returns depends on the character alone.
pub uninterp spec fn is_alphanumeric_char(c: char) -> bool;

/// Relies on char::is_alphanumeric: the Unicode alphanumeric classes.
pub assume_specification[ char::is_alphanumeric ](c: char) -> (r: bool)
    ensures
        r == is_alphanumeric_char(c),
;

/// Compare two string slices for character-wise equality.
pub fn str_eq(a: &str, b: &str) -> (r: bool)
    ensures
        r == (a@ == b@),
{
    let na = a.unicode_len();
    let nb = b.unicode_len();
    if na != nb {
        proof {
            assert(a@.len() != b@.len());
        }
        return false;
    }
    let mut i: usize = 0;
    while i < na
        invariant
            na == a@.len(),
            na == b@.len(),
            i <= na,
            forall|k: int| 0 <= k < i ==> a@[k] == b@[k],
        decreases na - i,
    {
        if a.get_char(i) != b.get_char(i) {
            return false;
        }
        i = i + 1;
    }
    proof {
        assert(a@ =~= b@);
    }
    true
}

/// ASCII-lowercase a character; other characters are unchanged.
pub open spec fn ascii_lower_char(c: char) -> char {
    if 'A' <= c <= 'Z' {
        ((c as u8) + 32) as char
    } else {
        c
    }
}

/// ASCII-lowercase every character of a sequence.
pub open spec fn ascii_lower(s: Seq<char>) -> Seq<char> {
    s.map_values(|c: char| ascii_lower_char(c))
}

/// Compare a string against an ASCII keyword, ignoring ASCII case in `s`.
pub fn eq_ignore_ascii_case(s: &str, keyword: &str) -> (r: bool)
    ensures
        r == (ascii_lower(s@) == keyword@),
{
    let ns = s.unicode_len();
    let nk = keyword.unicode_len();
    if ns != nk {
        proof {
            assert(ascii_lower(s@).len() != keyword@.len());
        }
        return false;
    }
    let mut i: usize = 0;
    while i < ns
        invariant
            ns == s@.len(),
            ns == keyword@.len(),
            i <= ns,
            forall|k: int| 0 <= k < i ==> ascii_lower_char(#[trigger] s@[k]) == keyword@[k],
        decreases ns - i,
    {
        let c = s.get_char(i);
        let k = keyword.get_char(i);
        let lc: char = if 'A' <= c && c <= 'Z' {
            (((c as u8) + 32) as char)
        } else {
            c
        };
        if lc != k {
            proof {
                assert(ascii_lower(s@)[i as int] != keyword@[i as int]);
            }
            return false;
        }
        i = i + 1;
    }
    proof {
        assert(ascii_lower(s@) =~= keyword@);
    }
    true
}

/// Whether `needle` occurs as a contiguous run inside `hay`.
pub open spec fn spec_contains_seq(hay: Seq<char>, needle: Seq<char>) -> bool {
    exists|off: int|
        0 <= off <= hay.len() - needle.len() && #[trigger] hay.subrange(off, off + needle.len())
            == needle
}

/// Search for `needle` inside `hay`, character by character.
pub fn str_contains(hay: &str, needle: &str) -> (r: bool)
    ensures
        r == spec_contains_seq(hay@, needle@),
{
    let n = hay.unicode_len();
    let m = needle.unicode_len();
    if m > n {
        return false;
    }
    if m == 0 {
        proof {
            assert(hay@.subrange(0, 0 + needle@.len() as int) =~= needle@);
        }
        return true;
    }
    let mut off: usize = 0;
    while off <= n - m
        invariant
            n == hay@.len(),
            m == needle@.len(),
            1 <= m <= n,
            off <= n - m + 1,
            forall|o: int|
                0 <= o < off ==> #[trigger] hay@.subrange(o, o + needle@.len()) != needle@,
        decreases n - off,
    {
        let mut j: usize = 0;
        let mut matched = true;
        while j < m
            invariant
                n == hay@.len(),
                m == needle@.len(),
                off + m <= n,
                j <= m,
                matched ==> forall|k: int| 0 <= k < j ==> hay@[off + k] == needle@[k],
                !matched ==> hay@.subrange(off as int, off + needle@.len()) != needle@,
            decreases m - j,
        {
            if hay.get_char(off + j) != needle.get_char(j) {
                proof {
                    assert(hay@.subrange(off as int, off + needle@.len())[j as int]
                        != needle@[j as int]);
                }
                matched = false;
                j = m;
            } else {
                j = j + 1;
            }
        }
        if matched {
            proof {
                assert(hay@.subrange(off as int, off + needle@.len()) =~= needle@);
            }
            return true;
        }
        off = off + 1;
    }
    proof {
        assert forall|o: int|
            0 <= o <= hay@.len() - needle@.len() implies #[trigger] hay@.subrange(
            o,
            o + needle@.len(),
        ) != needle@ by {
            assert(o < off);
        }
    }
    false
}

/// Text cut to a display width: kept whole when it fits, else shortened
/// with a trailing ellipsis.
pub open spec fn spec_truncated(s: Seq<char>, max_len: int) -> Seq<char> {
    if s.len() <= max_len {
        s
    } else {
        s.take(
            if max_len >= 3 {
                max_len - 3
            } else {
                0
            },
        ) + "..."@
    }
}

/// Cut text to a display width, adding an ellipsis when it is shortened.
pub fn truncate_string(s: &str, max_len: usize) -> (r: String)
    ensures
        r@ == spec_truncated(s@, max_len as int),
{
    let n = s.unicode_len();
    if n <= max_len {
        s.to_owned()
    } else {
        let keep: usize = if max_len >= 3 {
            max_len - 3
        } else {
            0
        };
        String::from_str(s.substring_char(0, keep)).concat("...")
    }
}

} // verus!
