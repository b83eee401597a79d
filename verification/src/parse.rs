//! Parsing of port specifications.
//!
//! Two grammars share the machinery: the `PortSpec` form, which validates
//! every number as a port and reports a typed error, and the raw
//! comma-and-range form, which yields a sorted, deduplicated list of
//! sixteen-bit values. Both accept single numbers, inclusive ranges
//! written with a hyphen, and comma-separated mixtures, with incidental
//! spaces and tabs around each piece.

use vstd::prelude::*;
use crate::port::{
    insert_unique_sorted, port_valid, strictly_sorted_u16, Port, PortError, PortRange, PortSpec,
};

verus! {

/// The whitespace the parsers tolerate around pieces.
pub open spec fn is_ws(c: char) -> bool {
    c == ' ' || c == '\t'
}

/// Drop leading whitespace.
pub open spec fn trim_front_ws(s: Seq<char>) -> Seq<char>
    decreases s.len(),
{
    if s.len() > 0 && is_ws(s[0]) {
        trim_front_ws(s.skip(1))
    } else {
        s
    }
}

/// Drop trailing whitespace.
pub open spec fn trim_back_ws(s: Seq<char>) -> Seq<char>
    decreases s.len(),
{
    if s.len() > 0 && is_ws(s.last()) {
        trim_back_ws(s.drop_last())
    } else {
        s
    }
}

/// Drop whitespace on both sides.
pub open spec fn trim_ws(s: Seq<char>) -> Seq<char> {
    trim_back_ws(trim_front_ws(s))
}

/// The index of the first comma, or the length if there is none.
pub open spec fn find_comma(s: Seq<char>) -> int
    decreases s.len(),
{
    if s.len() == 0 {
        0
    } else if s[0] == ',' {
        0
    } else {
        1 + find_comma(s.skip(1))
    }
}

/// `find_comma` points at a comma or past the end, and nothing before it
/// is a comma.
proof fn lemma_find_comma(s: Seq<char>)
    ensures
        0 <= find_comma(s) <= s.len(),
        find_comma(s) < s.len() ==> s[find_comma(s)] == ',',
        forall|j: int| 0 <= j < find_comma(s) ==> s[j] != ',',
    decreases s.len(),
{
    if s.len() > 0 && s[0] != ',' {
        lemma_find_comma(s.skip(1));
        assert forall|j: int| 0 <= j < find_comma(s) implies s[j] != ',' by {
            if j > 0 {
                assert(s.skip(1)[j - 1] != ',');
            }
        }
    }
}

/// How many hyphens a piece holds.
pub open spec fn hyphen_count(s: Seq<char>) -> int
    decreases s.len(),
{
    if s.len() == 0 {
        0
    } else {
        (if s[0] == '-' {
            1int
        } else {
            0int
        }) + hyphen_count(s.skip(1))
    }
}

/// The index of the first hyphen, or the length if there is none.
pub open spec fn find_hyphen(s: Seq<char>) -> int
    decreases s.len(),
{
    if s.len() == 0 {
        0
    } else if s[0] == '-' {
        0
    } else {
        1 + find_hyphen(s.skip(1))
    }
}

/// `find_hyphen` points at a hyphen or past the end, and nothing before
/// it is a hyphen.
proof fn lemma_find_hyphen(s: Seq<char>)
    ensures
        0 <= find_hyphen(s) <= s.len(),
        find_hyphen(s) < s.len() ==> s[find_hyphen(s)] == '-',
        forall|j: int| 0 <= j < find_hyphen(s) ==> s[j] != '-',
    decreases s.len(),
{
    if s.len() > 0 && s[0] != '-' {
        lemma_find_hyphen(s.skip(1));
        assert forall|j: int| 0 <= j < find_hyphen(s) implies s[j] != '-' by {
            if j > 0 {
                assert(s.skip(1)[j - 1] != '-');
            }
        }
    }
}

/// Hyphens in a concatenation come from one side or the other.
proof fn lemma_hyphen_count_add(a: Seq<char>, b: Seq<char>)
    ensures
        hyphen_count(a + b) == hyphen_count(a) + hyphen_count(b),
    decreases a.len(),
{
    if a.len() == 0 {
        assert(a + b =~= b);
    } else {
        lemma_hyphen_count_add(a.skip(1), b);
        assert((a + b).skip(1) =~= a.skip(1) + b);
    }
}

/// A hyphen-free piece counts zero hyphens.
proof fn lemma_hyphen_count_none(s: Seq<char>)
    requires
        forall|j: int| 0 <= j < s.len() ==> s[j] != '-',
    ensures
        hyphen_count(s) == 0,
    decreases s.len(),
{
    if s.len() > 0 {
        lemma_hyphen_count_none(s.skip(1));
    }
}

/// Whether a character is a decimal digit.
pub open spec fn is_digit(c: char) -> bool {
    '0' <= c <= '9'
}

/// Whether every character of a piece is a decimal digit.
pub open spec fn all_digits(s: Seq<char>) -> bool {
    forall|i: int| 0 <= i < s.len() ==> is_digit(#[trigger] s[i])
}

/// The number a digit string denotes.
pub open spec fn digits_value(s: Seq<char>) -> int
    decreases s.len(),
{
    if s.len() == 0 {
        0
    } else {
        digits_value(s.drop_last()) * 10 + (s.last() as int - 48)
    }
}

/// A digit string's prefixes denote no more than the whole.
proof fn lemma_digits_value_prefix(s: Seq<char>, i: int)
    requires
        0 <= i <= s.len(),
        all_digits(s),
    ensures
        0 <= digits_value(s.take(i)) <= digits_value(s),
    decreases s.len() - i,
{
    if i == s.len() {
        assert(s.take(i) =~= s);
        lemma_digits_value_nonneg(s);
    } else {
        lemma_digits_value_prefix(s, i + 1);
        assert(s.take(i + 1).drop_last() =~= s.take(i));
        assert(s.take(i + 1).last() == s[i]);
        lemma_digits_value_nonneg(s.take(i));
        assert(digits_value(s.take(i + 1)) == digits_value(s.take(i)) * 10 + (s[i] as int - 48));
        assert(digits_value(s.take(i)) <= digits_value(s.take(i)) * 10) by (nonlinear_arith)
            requires
                digits_value(s.take(i)) >= 0,
        ;
    }
}

/// Digit strings denote nothing negative.
proof fn lemma_digits_value_nonneg(s: Seq<char>)
    requires
        all_digits(s),
    ensures
        digits_value(s) >= 0,
    decreases s.len(),
{
    if s.len() > 0 {
        assert(all_digits(s.drop_last())) by {
            assert(forall|i: int|
                0 <= i < s.drop_last().len() ==> s.drop_last()[i] == #[trigger] s[i]);
        }
        lemma_digits_value_nonneg(s.drop_last());
    }
}

/// The sixteen-bit number a piece denotes, if it is one: an optional plus
/// sign, then digits, denoting at most 65535.
pub open spec fn spec_parse_u16(s: Seq<char>) -> Option<u16> {
    let t = if s.len() > 0 && s[0] == '+' {
        s.skip(1)
    } else {
        s
    };
    if t.len() > 0 && all_digits(t) && digits_value(t) <= 65535 {
        Some(digits_value(t) as u16)
    } else {
        None
    }
}

/// Parse a piece as a sixteen-bit number.
pub fn parse_u16_str(s: &str) -> (r: Option<u16>)
    ensures
        r == spec_parse_u16(s@),
{
    let n = s.unicode_len();
    let mut i: usize = 0;
    if n > 0 && s.get_char(0) == '+' {
        i = 1;
    }
    let ghost t = if s@.len() > 0 && s@[0] == '+' {
        s@.skip(1)
    } else {
        s@
    };
    let start = i;
    if i == n {
        proof {
            assert(t.len() == 0);
        }
        return None;
    }
    let mut value: u32 = 0;
    proof {
        assert(t =~= s@.subrange(start as int, n as int));
        assert(t.take(0) =~= Seq::<char>::empty());
    }
    while i < n
        invariant
            start <= i <= n,
            n == s@.len(),
            start <= 1,
            start < n,
            t == s@.subrange(start as int, n as int),
            t == (if s@.len() > 0 && s@[0] == '+' {
                s@.skip(1)
            } else {
                s@
            }),
            start == (if s@.len() > 0 && s@[0] == '+' {
                1int
            } else {
                0int
            }),
            all_digits(t.take(i - start)),
            value == digits_value(t.take(i - start)),
            value <= 65535,
        decreases n - i,
    {
        let c = s.get_char(i);
        if c < '0' || c > '9' {
            proof {
                assert(t[i - start] == c);
                assert(!is_digit(t[i - start]));
            }
            return None;
        }
        let d: u32 = (c as u32) - 48;
        proof {
            assert(t.take(i - start + 1).drop_last() =~= t.take(i - start));
            assert(t.take(i - start + 1).last() == t[i - start]);
            assert(t[i - start] == c);
        }
        if value > 6553 || (value == 6553 && d > 5) {
            proof {
                let whole = t.take(i - start + 1);
                assert(whole.drop_last() =~= t.take(i - start));
                assert(whole.last() == c);
                assert(digits_value(whole) == value * 10 + (c as int - 48));
                assert(digits_value(whole) > 65535);
                if all_digits(t) && digits_value(t) <= 65535 {
                    lemma_digits_value_prefix(t, i - start + 1);
                    assert(false);
                }
                assert(spec_parse_u16(s@) is None);
            }
            return None;
        }
        value = value * 10 + d;
        i = i + 1;
    }
    proof {
        assert(t.take(n - start) =~= t);
        assert(t.len() > 0);
    }
    Some(value as u16)
}

/// The bounds a raw piece denotes, if any: a single number `v` denotes
/// `(v, v)`; `a-b` denotes `(a, b)` when both parse and `a <= b`. Every
/// number must be a valid port: zero is rejected like any other value
/// outside the port range.
pub open spec fn spec_parse_raw_part(p: Seq<char>) -> Option<(u16, u16)> {
    let t = trim_ws(p);
    if hyphen_count(t) == 0 {
        match spec_parse_u16(t) {
            Some(v) => if v >= 1 {
                Some((v, v))
            } else {
                None
            },
            None => None,
        }
    } else if hyphen_count(t) != 1 {
        None
    } else {
        let h = find_hyphen(t);
        let left = trim_ws(t.take(h));
        let right = trim_ws(t.skip(h + 1));
        match (spec_parse_u16(left), spec_parse_u16(right)) {
            (Some(a), Some(b)) => if a >= 1 && b >= 1 && a <= b {
                Some((a, b))
            } else {
                None
            },
            _ => None,
        }
    }
}

/// The view of a port parsing error: the same cases, with text as a
/// character sequence.
pub enum PortErrorView {
    /// A number outside 1..=65535.
    OutOfRange(u16),
    /// Text that is not a port number or range.
    InvalidFormat(Seq<char>),
    /// A range whose start exceeds its end.
    InvalidRange(u16, u16),
    /// An empty specification.
    Empty,
}

impl View for PortError {
    type V = PortErrorView;

    open spec fn view(&self) -> PortErrorView {
        match self {
            PortError::OutOfRange(v) => PortErrorView::OutOfRange(*v),
            PortError::InvalidFormat(s) => PortErrorView::InvalidFormat(s@),
            PortError::InvalidRange(a, b) => PortErrorView::InvalidRange(*a, *b),
            PortError::Empty => PortErrorView::Empty,
        }
    }
}

/// The bounds a validated piece denotes, or the error it raises: numbers
/// must parse, both bounds must be valid ports, and the start may not
/// exceed the end.
pub open spec fn spec_parse_part(p: Seq<char>) -> Result<(u16, u16), PortErrorView> {
    let t = trim_ws(p);
    if hyphen_count(t) == 0 {
        match spec_parse_u16(t) {
            Some(v) => if v >= 1 {
                Ok((v, v))
            } else {
                Err(PortErrorView::OutOfRange(v))
            },
            None => Err(PortErrorView::InvalidFormat(t)),
        }
    } else if hyphen_count(t) != 1 {
        Err(PortErrorView::InvalidFormat(t))
    } else {
        let h = find_hyphen(t);
        let left = t.take(h);
        let right = t.skip(h + 1);
        match spec_parse_u16(trim_ws(left)) {
            None => Err(PortErrorView::InvalidFormat(left)),
            Some(a) => match spec_parse_u16(trim_ws(right)) {
                None => Err(PortErrorView::InvalidFormat(right)),
                Some(b) => if a < 1 {
                    Err(PortErrorView::OutOfRange(a))
                } else if b < 1 {
                    Err(PortErrorView::OutOfRange(b))
                } else if a > b {
                    Err(PortErrorView::InvalidRange(a, b))
                } else {
                    Ok((a, b))
                },
            },
        }
    }
}

/// What a comma-separated list of validated pieces denotes: the bounds in
/// order, or the first error.
pub open spec fn spec_parse_part_list(s: Seq<char>) -> Result<Seq<(u16, u16)>, PortErrorView>
    decreases s.len(),
{
    let k0 = find_comma(s);
    let k = if k0 < 0 {
        0int
    } else if k0 > s.len() {
        s.len() as int
    } else {
        k0
    };
    if k == s.len() {
        match spec_parse_part(s) {
            Ok(r) => Ok(seq![r]),
            Err(e) => Err(e),
        }
    } else {
        match spec_parse_part(s.take(k)) {
            Err(e) => Err(e),
            Ok(r) => match spec_parse_part_list(s.skip(k + 1)) {
                Err(e) => Err(e),
                Ok(rest) => Ok(seq![r] + rest),
            },
        }
    }
}

/// What a whole port specification denotes: empty input is an error of
/// its own; otherwise the list decides.
pub open spec fn spec_parse_port_spec(s: Seq<char>) -> Result<Seq<(u16, u16)>, PortErrorView> {
    if trim_ws(s).len() == 0 {
        Err(PortErrorView::Empty)
    } else {
        spec_parse_part_list(trim_ws(s))
    }
}

/// What a comma-separated list of raw pieces denotes, if anything.
pub open spec fn spec_parse_raw_list(s: Seq<char>) -> Option<Seq<(u16, u16)>>
    decreases s.len(),
{
    let k0 = find_comma(s);
    let k = if k0 < 0 {
        0int
    } else if k0 > s.len() {
        s.len() as int
    } else {
        k0
    };
    if k == s.len() {
        match spec_parse_raw_part(s) {
            Some(r) => Some(seq![r]),
            None => None,
        }
    } else {
        match spec_parse_raw_part(s.take(k)) {
            None => None,
            Some(r) => match spec_parse_raw_list(s.skip(k + 1)) {
                None => None,
                Some(rest) => Some(seq![r] + rest),
            },
        }
    }
}

/// The character bounds of a piece once whitespace is dropped.
fn trim_indices(s: &str, from: usize, to: usize) -> (r: (usize, usize))
    requires
        from <= to <= s@.len(),
    ensures
        from <= r.0 <= r.1 <= to,
        trim_ws(s@.subrange(from as int, to as int)) == s@.subrange(r.0 as int, r.1 as int),
{
    let ghost piece = s@.subrange(from as int, to as int);
    let mut start = from;
    proof {
        assert(piece.skip(0) =~= piece);
    }
    while start < to && (s.get_char(start) == ' ' || s.get_char(start) == '\t')
        invariant
            from <= start <= to <= s@.len(),
            piece == s@.subrange(from as int, to as int),
            trim_front_ws(piece) == trim_front_ws(piece.skip(start - from)),
        decreases to - start,
    {
        proof {
            assert(piece.skip(start - from)[0] == s@[start as int]);
            assert(piece.skip(start - from).skip(1) =~= piece.skip(start - from + 1));
        }
        start = start + 1;
    }
    let ghost fronted = piece.skip(start - from);
    proof {
        if start < to {
            assert(fronted[0] == s@[start as int]);
        }
        assert(trim_front_ws(piece) == fronted);
        assert(fronted.take(to - start) =~= fronted);
    }
    let mut end = to;
    while end > start && (s.get_char(end - 1) == ' ' || s.get_char(end - 1) == '\t')
        invariant
            from <= start <= end <= to <= s@.len(),
            piece == s@.subrange(from as int, to as int),
            fronted == piece.skip(start - from),
            trim_back_ws(fronted) == trim_back_ws(fronted.take(end - start)),
        decreases end,
    {
        proof {
            let cur = fronted.take(end - start);
            assert(cur.last() == fronted[end - start - 1]);
            assert(fronted[end - start - 1] == piece[end - from - 1]);
            assert(piece[end - from - 1] == s@[end - 1]);
            assert(cur.drop_last() =~= fronted.take(end - 1 - start));
        }
        end = end - 1;
    }
    proof {
        let cur = fronted.take(end - start);
        if end > start {
            assert(cur.last() == fronted[end - start - 1]);
            assert(fronted[end - start - 1] == piece[end - from - 1]);
            assert(piece[end - from - 1] == s@[end - 1]);
        }
        assert(trim_back_ws(fronted) == cur);
        assert(cur =~= s@.subrange(start as int, end as int));
    }
    (start, end)
}

/// The first hyphen in a character range, and how many there are.
fn scan_hyphens(s: &str, from: usize, to: usize) -> (r: (usize, usize))
    requires
        from <= to <= s@.len(),
    ensures
        r.0 == hyphen_count(s@.subrange(from as int, to as int)),
        r.1 == from + find_hyphen(s@.subrange(from as int, to as int)),
        r.1 <= to,
{
    let ghost piece = s@.subrange(from as int, to as int);
    let mut count: usize = 0;
    let mut first: usize = to;
    let mut seen = false;
    let mut i = from;
    proof {
        lemma_find_hyphen(piece);
        assert(piece.take(0) =~= Seq::<char>::empty());
        lemma_hyphen_count_none(piece.take(0));
    }
    while i < to
        invariant
            from <= i <= to <= s@.len(),
            piece == s@.subrange(from as int, to as int),
            count == hyphen_count(piece.take(i - from)),
            count <= i - from,
            seen ==> from <= first < to && piece[first - from] == '-' && (forall|j: int|
                0 <= j < first - from ==> piece[j] != '-'),
            !seen ==> first == to && (forall|j: int| 0 <= j < i - from ==> piece[j] != '-'),
        decreases to - i,
    {
        let c = s.get_char(i);
        proof {
            assert(piece[i - from] == c);
            assert(piece.take(i - from + 1) =~= piece.take(i - from) + seq![c]);
            lemma_hyphen_count_add(piece.take(i - from), seq![c]);
            assert(seq![c].skip(1) =~= Seq::<char>::empty());
            assert(hyphen_count(Seq::<char>::empty()) == 0);
            assert(hyphen_count(seq![c]) == (if c == '-' {
                1int
            } else {
                0int
            }));
        }
        if c == '-' {
            count = count + 1;
            if !seen {
                first = i;
                seen = true;
            }
        }
        i = i + 1;
    }
    proof {
        assert(piece.take(to - from) =~= piece);
        lemma_find_hyphen(piece);
        if seen {
            assert forall|j: int| 0 <= j < piece.len() && piece[j] == '-' implies j >= first
                - from by {}
            assert(find_hyphen(piece) == first - from) by {
                if find_hyphen(piece) < first - from {
                    assert(piece[find_hyphen(piece)] == '-');
                }
                if find_hyphen(piece) > first - from {
                    assert(piece[first - from] != '-');
                }
            }
        } else {
            assert(hyphen_count(piece) == 0) by {
                lemma_hyphen_count_none(piece);
            }
            assert(find_hyphen(piece) == piece.len()) by {
                if find_hyphen(piece) < piece.len() {
                    assert(piece[find_hyphen(piece)] == '-');
                }
            }
        }
    }
    (count, first)
}

/// The first comma at or after `from`, or `to` if there is none.
fn scan_comma(s: &str, from: usize, to: usize) -> (r: usize)
    requires
        from <= to <= s@.len(),
    ensures
        from <= r <= to,
        r == from + (if find_comma(s@.subrange(from as int, to as int)) > to - from {
            to - from
        } else {
            find_comma(s@.subrange(from as int, to as int))
        }),
{
    let ghost piece = s@.subrange(from as int, to as int);
    proof {
        lemma_find_comma(piece);
    }
    let mut i = from;
    while i < to && s.get_char(i) != ','
        invariant
            from <= i <= to <= s@.len(),
            piece == s@.subrange(from as int, to as int),
            forall|j: int| 0 <= j < i - from ==> piece[j] != ',',
        decreases to - i,
    {
        proof {
            assert(piece[i - from] == s@[i as int]);
        }
        i = i + 1;
    }
    proof {
        lemma_find_comma(piece);
        if i < to {
            assert(piece[i - from] == ',');
            assert(find_comma(piece) == i - from) by {
                if find_comma(piece) < i - from {
                    assert(piece[find_comma(piece)] == ',');
                }
                if find_comma(piece) > i - from {
                    assert(piece[i - from] != ',');
                }
            }
        } else {
            assert(find_comma(piece) == piece.len()) by {
                if find_comma(piece) < piece.len() {
                    assert(piece[find_comma(piece)] == ',');
                }
            }
        }
    }
    i
}

/// Parse one validated piece of a specification, between two character
/// positions.
fn parse_part_range(s: &str, from: usize, to: usize) -> (r: Result<(u16, u16), PortError>)
    requires
        from <= to <= s@.len(),
    ensures
        r is Ok <==> spec_parse_part(s@.subrange(from as int, to as int)) is Ok,
        r is Ok ==> r.unwrap() == spec_parse_part(s@.subrange(from as int, to as int))->Ok_0,
        r is Err ==> r.unwrap_err()@ == spec_parse_part(
            s@.subrange(from as int, to as int),
        )->Err_0,
{
    let ghost piece = s@.subrange(from as int, to as int);
    let (ts, te) = trim_indices(s, from, to);
    let ghost t = trim_ws(piece);
    proof {
        assert(t == s@.subrange(ts as int, te as int));
    }
    let (hc, hf) = scan_hyphens(s, ts, te);
    if hc == 0 {
        match parse_u16_str(s.substring_char(ts, te)) {
            Some(v) => {
                if v >= 1 {
                    Ok((v, v))
                } else {
                    Err(PortError::OutOfRange(v))
                }
            },
            None => Err(PortError::InvalidFormat(s.substring_char(ts, te).to_owned())),
        }
    } else if hc != 1 {
        Err(PortError::InvalidFormat(s.substring_char(ts, te).to_owned()))
    } else {
        proof {
            lemma_find_hyphen(t);
            if hf - ts == t.len() {
                lemma_hyphen_count_none(t);
            }
        }
        let ghost h = find_hyphen(t);
        let ghost left = t.take(h);
        let ghost right = t.skip(h + 1);
        proof {
            assert(left =~= s@.subrange(ts as int, hf as int));
            assert(right =~= s@.subrange(hf + 1, te as int));
        }
        let (ls, le) = trim_indices(s, ts, hf);
        let a = match parse_u16_str(s.substring_char(ls, le)) {
            Some(a) => a,
            None => {
                return Err(PortError::InvalidFormat(s.substring_char(ts, hf).to_owned()));
            },
        };
        let (rs, re) = trim_indices(s, hf + 1, te);
        let b = match parse_u16_str(s.substring_char(rs, re)) {
            Some(b) => b,
            None => {
                return Err(PortError::InvalidFormat(s.substring_char(hf + 1, te).to_owned()));
            },
        };
        if a < 1 {
            Err(PortError::OutOfRange(a))
        } else if b < 1 {
            Err(PortError::OutOfRange(b))
        } else if a > b {
            Err(PortError::InvalidRange(a, b))
        } else {
            Ok((a, b))
        }
    }
}

/// Parse a comma-separated list of validated pieces between two character
/// positions, appending each range to the specification being built.
fn parse_part_list_into(s: &str, from: usize, to: usize, acc: &mut PortSpec) -> (r: Result<
    (),
    PortError,
>)
    requires
        from <= to <= s@.len(),
    ensures
        r is Ok <==> spec_parse_part_list(s@.subrange(from as int, to as int)) is Ok,
        r is Ok ==> {
            let pairs = spec_parse_part_list(s@.subrange(from as int, to as int))->Ok_0;
            &&& final(acc).spec_ranges().len() == old(acc).spec_ranges().len() + pairs.len()
            &&& (forall|i: int|
                0 <= i < old(acc).spec_ranges().len() ==> final(acc).spec_ranges()[i] == old(acc).spec_ranges()[i])
            &&& (forall|i: int|
                0 <= i < pairs.len() ==> (#[trigger] final(acc).spec_ranges()[old(acc).spec_ranges().len() + i]).spec_start() == pairs[i].0 && final(acc).spec_ranges()[old(acc).spec_ranges().len() + i].spec_end() == pairs[i].1)
        },
        r is Err ==> r.unwrap_err()@ == spec_parse_part_list(
            s@.subrange(from as int, to as int),
        )->Err_0,
    decreases to - from,
{
    let ghost piece = s@.subrange(from as int, to as int);
    proof {
        lemma_find_comma(piece);
    }
    let k = scan_comma(s, from, to);
    proof {
        assert(k - from == find_comma(piece));
        assert(piece.take(k - from) =~= s@.subrange(from as int, k as int));
    }
    let pair = match parse_part_range(s, from, k) {
        Ok(p) => p,
        Err(e) => {
            proof {
                if k == to {
                    assert(piece.take(k - from) =~= piece);
                }
            }
            return Err(e);
        },
    };
    proof {
        if k == to {
            assert(piece.take(k - from) =~= piece);
        }
    }
    let start_port = Port::new_unchecked(pair.0);
    let end_port = Port::new_unchecked(pair.1);
    let range = match PortRange::new(start_port, end_port) {
        Ok(rg) => rg,
        Err(_) => {
            proof {
                assert(false);
            }
            return Err(PortError::Empty);
        },
    };
    acc.add_range(range);
    if k == to {
        proof {
            let pairs = spec_parse_part_list(piece)->Ok_0;
            assert(pairs =~= seq![pair]);
        }
        return Ok(());
    }
    proof {
        assert(piece.skip(k - from + 1) =~= s@.subrange(k + 1, to as int));
    }
    let ghost mid = *acc;
    let res = parse_part_list_into(s, k + 1, to, acc);
    match res {
        Ok(_) => {
            proof {
                let rest = spec_parse_part_list(s@.subrange(k + 1, to as int))->Ok_0;
                let pairs = spec_parse_part_list(piece)->Ok_0;
                assert(pairs =~= seq![pair] + rest);
                assert(pairs[0] == pair);
                assert(final(acc).spec_ranges().len() == old(acc).spec_ranges().len()
                    + pairs.len());
                assert forall|i: int|
                    0 <= i < pairs.len() implies (#[trigger] final(acc).spec_ranges()[old(acc).spec_ranges().len() + i]).spec_start() == pairs[i].0 && final(acc).spec_ranges()[old(acc).spec_ranges().len() + i].spec_end() == pairs[i].1 by {
                    if i == 0 {
                        assert(final(acc).spec_ranges()[old(acc).spec_ranges().len() as int]
                            == mid.spec_ranges()[mid.spec_ranges().len() - 1]);
                    } else {
                        assert(final(acc).spec_ranges()[mid.spec_ranges().len() + (i - 1)]
                            == final(acc).spec_ranges()[old(acc).spec_ranges().len() + i]);
                        assert(rest[i - 1] == pairs[i]);
                    }
                }
            }
            Ok(())
        },
        Err(e) => Err(e),
    }
}

impl PortSpec {
    /// Parse a port specification: single ports, inclusive ranges, and
    /// comma-separated mixtures of the two. Succeeds exactly when every
    /// piece denotes a valid port or range; an input that trims to
    /// nothing is the empty-specification error.
    pub fn parse(s: &str) -> (r: Result<PortSpec, PortError>)
        ensures
            r is Ok <==> spec_parse_port_spec(s@) is Ok,
            r is Ok ==> {
                let pairs = spec_parse_port_spec(s@)->Ok_0;
                &&& r.unwrap().spec_ranges().len() == pairs.len()
                &&& (forall|i: int|
                    0 <= i < pairs.len() ==> (#[trigger] r.unwrap().spec_ranges()[i]).spec_start()
                        == pairs[i].0 && r.unwrap().spec_ranges()[i].spec_end() == pairs[i].1)
            },
            r is Err ==> r.unwrap_err()@ == spec_parse_port_spec(s@)->Err_0,
    {
        let n = s.unicode_len();
        let (ts, te) = trim_indices(s, 0, n);
        proof {
            assert(s@.subrange(0, n as int) =~= s@);
        }
        if ts == te {
            return Err(PortError::Empty);
        }
        let mut acc = PortSpec::new();
        match parse_part_list_into(s, ts, te, &mut acc) {
            Ok(_) => {
                proof {
                    let pairs = spec_parse_port_spec(s@)->Ok_0;
                    assert forall|i: int|
                        0 <= i < pairs.len() implies (#[trigger] acc.spec_ranges()[i]).spec_start()
                        == pairs[i].0 && acc.spec_ranges()[i].spec_end() == pairs[i].1 by {
                        assert(acc.spec_ranges()[0 + i].spec_start() == pairs[i].0);
                        assert(acc.spec_ranges()[0 + i].spec_end() == pairs[i].1);
                    }
                }
                Ok(acc)
            },
            Err(e) => Err(e),
        }
    }
}

impl core::str::FromStr for PortSpec {
    type Err = PortError;

    fn from_str(s: &str) -> Result<PortSpec, PortError> {
        PortSpec::parse(s)
    }
}

/// Parse one raw piece: a number or range, with no port validation.
fn parse_raw_part_range(s: &str, from: usize, to: usize) -> (r: Result<(u16, u16), String>)
    requires
        from <= to <= s@.len(),
    ensures
        r is Ok <==> spec_parse_raw_part(s@.subrange(from as int, to as int)) is Some,
        r is Ok ==> r.unwrap() == spec_parse_raw_part(
            s@.subrange(from as int, to as int),
        ).unwrap(),
{
    let ghost piece = s@.subrange(from as int, to as int);
    let (ts, te) = trim_indices(s, from, to);
    let ghost t = trim_ws(piece);
    proof {
        assert(t == s@.subrange(ts as int, te as int));
    }
    let (hc, hf) = scan_hyphens(s, ts, te);
    if hc == 0 {
        match parse_u16_str(s.substring_char(ts, te)) {
            Some(v) => {
                if v >= 1 {
                    Ok((v, v))
                } else {
                    Err(
                        String::from_str("Invalid port number: ").concat(
                            s.substring_char(ts, te),
                        ),
                    )
                }
            },
            None => Err(
                String::from_str("Invalid port number: ").concat(s.substring_char(ts, te)),
            ),
        }
    } else if hc != 1 {
        Err(String::from_str("Invalid port range: ").concat(s.substring_char(ts, te)))
    } else {
        proof {
            lemma_find_hyphen(t);
            if hf - ts == t.len() {
                lemma_hyphen_count_none(t);
            }
        }
        let ghost h = find_hyphen(t);
        proof {
            assert(t.take(h) =~= s@.subrange(ts as int, hf as int));
            assert(t.skip(h + 1) =~= s@.subrange(hf + 1, te as int));
        }
        let (ls, le) = trim_indices(s, ts, hf);
        let a = match parse_u16_str(s.substring_char(ls, le)) {
            Some(a) => a,
            None => {
                return Err(
                    String::from_str("Invalid port number: ").concat(s.substring_char(ts, hf)),
                );
            },
        };
        let (rs, re) = trim_indices(s, hf + 1, te);
        let b = match parse_u16_str(s.substring_char(rs, re)) {
            Some(b) => b,
            None => {
                return Err(
                    String::from_str("Invalid port number: ").concat(
                        s.substring_char(hf + 1, te),
                    ),
                );
            },
        };
        if a < 1 || b < 1 {
            Err(String::from_str("Invalid port number: ").concat(s.substring_char(ts, te)))
        } else if a > b {
            Err(String::from_str("Invalid port range: ").concat(s.substring_char(ts, te)))
        } else {
            Ok((a, b))
        }
    }
}

/// Parse a comma-separated list of raw pieces, appending each range.
fn parse_raw_list_into(s: &str, from: usize, to: usize, acc: &mut Vec<(u16, u16)>) -> (r: Result<
    (),
    String,
>)
    requires
        from <= to <= s@.len(),
    ensures
        r is Ok <==> spec_parse_raw_list(s@.subrange(from as int, to as int)) is Some,
        r is Ok ==> final(acc)@ == old(acc)@ + spec_parse_raw_list(
            s@.subrange(from as int, to as int),
        ).unwrap(),
    decreases to - from,
{
    let ghost piece = s@.subrange(from as int, to as int);
    proof {
        lemma_find_comma(piece);
    }
    let k = scan_comma(s, from, to);
    proof {
        assert(k - from == find_comma(piece));
        assert(piece.take(k - from) =~= s@.subrange(from as int, k as int));
    }
    let pair = match parse_raw_part_range(s, from, k) {
        Ok(p) => p,
        Err(e) => {
            proof {
                if k == to {
                    assert(piece.take(k - from) =~= piece);
                }
            }
            return Err(e);
        },
    };
    proof {
        if k == to {
            assert(piece.take(k - from) =~= piece);
        }
    }
    acc.push(pair);
    if k == to {
        proof {
            assert(final(acc)@ =~= old(acc)@ + seq![pair]);
        }
        return Ok(());
    }
    proof {
        assert(piece.skip(k - from + 1) =~= s@.subrange(k + 1, to as int));
    }
    let ghost mid = acc@;
    let res = parse_raw_list_into(s, k + 1, to, acc);
    match res {
        Ok(_) => {
            proof {
                let rest = spec_parse_raw_list(s@.subrange(k + 1, to as int)).unwrap();
                assert(final(acc)@ =~= old(acc)@ + (seq![pair] + rest));
            }
            Ok(())
        },
        Err(e) => Err(e),
    }
}

/// Whether some range of a parsed raw list covers the value `v`.
pub open spec fn spec_raw_covers(s: Seq<char>, v: u16) -> bool {
    &&& spec_parse_raw_list(s) is Some
    &&& exists|i: int|
        0 <= i < spec_parse_raw_list(s).unwrap().len() && (#[trigger] spec_parse_raw_list(
            s,
        ).unwrap()[i]).0 <= v <= spec_parse_raw_list(s).unwrap()[i].1
}

/// Parse a raw port list: single numbers, inclusive ranges, and
/// comma-separated mixtures. Succeeds exactly when every piece parses as
/// valid ports and every range is ordered, and yields the covered values
/// sorted ascending with duplicates dropped.
pub fn parse_ports(spec: &str) -> (r: Result<Vec<u16>, String>)
    ensures
        r is Ok <==> spec_parse_raw_list(spec@) is Some,
        r is Ok ==> strictly_sorted_u16(r.unwrap()@),
        r is Ok ==> forall|v: u16| #[trigger]
            r.unwrap()@.contains(v) <==> spec_raw_covers(spec@, v),
{
    let n = spec.unicode_len();
    let mut pairs: Vec<(u16, u16)> = Vec::new();
    proof {
        assert(spec@.subrange(0, n as int) =~= spec@);
    }
    match parse_raw_list_into(spec, 0, n, &mut pairs) {
        Ok(_) => {},
        Err(e) => {
            return Err(e);
        },
    }
    let ghost all = spec_parse_raw_list(spec@).unwrap();
    proof {
        assert(pairs@ =~= all);
    }
    let mut values: Vec<u16> = Vec::new();
    let mut i: usize = 0;
    while i < pairs.len()
        invariant
            i <= pairs@.len(),
            pairs@ == all,
            spec_parse_raw_list(spec@) is Some,
            all == spec_parse_raw_list(spec@).unwrap(),
            strictly_sorted_u16(values@),
            forall|v: u16| #[trigger]
                values@.contains(v) <==> exists|k: int|
                    0 <= k < i && (#[trigger] all[k]).0 <= v <= all[k].1,
        decreases pairs@.len() - i,
    {
        let (a, b) = pairs[i];
        proof {
            lemma_raw_pair_ordered(spec@, i as int);
        }
        let ghost entry_values = values@;
        let mut v: u32 = a as u32;
        while v <= b as u32
            invariant
                a <= v <= b + 1,
                a == all[i as int].0,
                b == all[i as int].1,
                a <= b,
                i < all.len(),
                strictly_sorted_u16(values@),
                forall|w: u16| #[trigger]
                    values@.contains(w) <==> (entry_values.contains(w) || (a <= w < v)),
            decreases b + 1 - v,
        {
            insert_unique_sorted(&mut values, v as u16);
            v = v + 1;
        }
        proof {
            assert forall|w: u16| #[trigger] values@.contains(w) implies (exists|k: int|
                0 <= k < i + 1 && (#[trigger] all[k]).0 <= w <= all[k].1) by {
                if entry_values.contains(w) {
                    let k = choose|k: int|
                        0 <= k < i && (#[trigger] all[k]).0 <= w <= all[k].1;
                    assert(all[k].0 <= w <= all[k].1);
                } else {
                    assert(all[i as int].0 <= w <= all[i as int].1);
                }
            }
            assert forall|w: u16|
                (exists|k: int|
                    0 <= k < i + 1 && (#[trigger] all[k]).0 <= w <= all[k].1) implies #[trigger] values@.contains(w) by {
                let k = choose|k: int| 0 <= k < i + 1 && (#[trigger] all[k]).0 <= w <= all[k].1;
                if k < i {
                    assert(entry_values.contains(w));
                }
            }
        }
        i = i + 1;
    }
    proof {
        assert forall|v: u16| #[trigger] values@.contains(v) implies spec_raw_covers(spec@, v) by {
        }
        assert forall|v: u16| spec_raw_covers(spec@, v) implies #[trigger] values@.contains(v) by {
        }
    }
    Ok(values)
}

/// Every pair of a parsed raw list is ordered.
proof fn lemma_raw_pair_ordered(s: Seq<char>, i: int)
    requires
        spec_parse_raw_list(s) is Some,
        0 <= i < spec_parse_raw_list(s).unwrap().len(),
    ensures
        (#[trigger] spec_parse_raw_list(s).unwrap()[i]).0 <= spec_parse_raw_list(s).unwrap()[i].1,
    decreases s.len(),
{
    let k0 = find_comma(s);
    let k = if k0 < 0 {
        0int
    } else if k0 > s.len() {
        s.len() as int
    } else {
        k0
    };
    if k == s.len() {
    } else {
        if i > 0 {
            lemma_raw_pair_ordered(s.skip(k + 1), i - 1);
        }
    }
}

} // verus!
