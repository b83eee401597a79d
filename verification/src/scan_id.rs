//! Unique identifiers for persisted scan records.
//!
//! A `ScanId` holds 16 random bytes and renders as the usual hyphenated
//! 36-character lowercase hex form; rendering and parsing are verified
//! inverses at the byte level.

use vstd::prelude::*;
use crate::text::ascii_to_string;

verus! {

/// A unique identifier for a scan record.
#[derive(Debug, Clone, Copy, PartialEq, Eq, Hash)]
pub struct ScanId {
    bytes: [u8; 16],
}

/// The ASCII code of the lowercase hex digit for a nibble.
pub open spec fn hex_digit(n: u8) -> u8 {
    if n < 10 {
        (48 + n) as u8
    } else {
        (87 + n) as u8
    }
}

/// The nibble an ASCII hex digit denotes, if it is one.
pub open spec fn hex_value(c: u8) -> Option<u8> {
    if 48 <= c <= 57 {
        Some((c - 48) as u8)
    } else if 97 <= c <= 102 {
        Some((c - 87) as u8)
    } else if 65 <= c <= 70 {
        Some((c - 55) as u8)
    } else {
        None
    }
}

/// Lowercase hex rendering of a byte sequence, as ASCII codes.
pub open spec fn hex_bytes(s: Seq<u8>) -> Seq<u8>
    decreases s.len(),
{
    if s.len() == 0 {
        Seq::empty()
    } else {
        seq![hex_digit(s[0] / 16), hex_digit(s[0] % 16)] + hex_bytes(s.skip(1))
    }
}

/// The hyphenated identifier rendering, as ASCII codes: five hex groups of
/// 8, 4, 4, 4 and 12 digits.
pub open spec fn hyphenated_bytes(b: Seq<u8>) -> Seq<u8> {
    hex_bytes(b.subrange(0, 4)) + seq![45u8] + hex_bytes(b.subrange(4, 6)) + seq![45u8]
        + hex_bytes(b.subrange(6, 8)) + seq![45u8] + hex_bytes(b.subrange(8, 10)) + seq![45u8]
        + hex_bytes(b.subrange(10, 16))
}

/// Rendering one more byte extends the hex text by two digits.
proof fn lemma_hex_bytes_take(s: Seq<u8>, i: int)
    requires
        0 <= i < s.len(),
    ensures
        hex_bytes(s.take(i + 1)) == hex_bytes(s.take(i)) + seq![
            hex_digit(s[i] / 16),
            hex_digit(s[i] % 16),
        ],
    decreases i,
{
    if i == 0 {
        assert(s.take(0) =~= Seq::<u8>::empty());
        assert(s.take(1) =~= seq![s[0]]);
        assert(s.take(1).skip(1) =~= Seq::<u8>::empty());
    } else {
        lemma_hex_bytes_take(s.skip(1), i - 1);
        assert(s.take(i).skip(1) =~= s.skip(1).take(i - 1));
        assert(s.take(i + 1).skip(1) =~= s.skip(1).take(i - 1 + 1));
    }
}

/// The hex text of `n` bytes has `2n` digits, all of them ASCII.
proof fn lemma_hex_bytes_len(s: Seq<u8>)
    ensures
        hex_bytes(s).len() == 2 * s.len(),
        forall|i: int| 0 <= i < hex_bytes(s).len() ==> #[trigger] hex_bytes(s)[i] < 128,
    decreases s.len(),
{
    if s.len() > 0 {
        lemma_hex_bytes_len(s.skip(1));
    }
}

/// Append the two lowercase hex digits of one byte.
fn push_hex_byte(out: &mut Vec<u8>, b: u8)
    ensures
        final(out)@ == old(out)@ + seq![hex_digit(b / 16), hex_digit(b % 16)],
{
    let hi = b / 16;
    let lo = b % 16;
    let hc: u8 = if hi < 10 {
        48 + hi
    } else {
        87 + hi
    };
    let lc: u8 = if lo < 10 {
        48 + lo
    } else {
        87 + lo
    };
    out.push(hc);
    out.push(lc);
    proof {
        assert(final(out)@ =~= old(out)@ + seq![hex_digit(b / 16), hex_digit(b % 16)]);
    }
}

/// Append the hex digits of a slice of bytes.
fn push_hex_range(out: &mut Vec<u8>, bytes: &[u8; 16], from: usize, to: usize)
    requires
        from <= to <= 16,
    ensures
        final(out)@ == old(out)@ + hex_bytes(bytes@.subrange(from as int, to as int)),
{
    let ghost part = bytes@.subrange(from as int, to as int);
    let mut i: usize = from;
    proof {
        assert(part.take(0) =~= Seq::<u8>::empty());
    }
    while i < to
        invariant
            from <= i <= to <= 16,
            part == bytes@.subrange(from as int, to as int),
            out@ == old(out)@ + hex_bytes(part.take(i - from)),
        decreases to - i,
    {
        push_hex_byte(out, bytes[i]);
        proof {
            lemma_hex_bytes_take(part, i - from);
            assert(part[i - from] == bytes@[i as int]);
        }
        i = i + 1;
    }
    proof {
        assert(part.take(to - from) =~= part);
    }
}

impl ScanId {
    /// The raw identifier bytes.
    pub closed spec fn spec_bytes(self) -> Seq<u8> {
        self.bytes@
    }

    /// Relies on uuid::Uuid::new_v4 for 16 random bytes; the version and
    /// variant bits are set as that library documents.
    #[verifier::external_body]
    pub fn new() -> (r: ScanId)
        ensures
            r.spec_bytes().len() == 16,
    {
        ScanId { bytes: *uuid::Uuid::new_v4().as_bytes() }
    }

    /// Create an identifier from raw bytes.
    pub fn from_bytes(bytes: [u8; 16]) -> (r: ScanId)
        ensures
            r.spec_bytes() == bytes@,
    {
        ScanId { bytes }
    }

    /// The raw bytes of this identifier.
    pub fn as_bytes(&self) -> (r: &[u8; 16])
        ensures
            r@ == self.spec_bytes(),
    {
        &self.bytes
    }

    /// The full hyphenated lowercase hex rendering (36 characters).
    pub fn hyphenated(&self) -> (r: String)
        ensures
            r@ == hyphenated_bytes(self.spec_bytes()).map_values(|b: u8| b as char),
            r@.len() == 36,
    {
        let mut out: Vec<u8> = Vec::new();
        push_hex_range(&mut out, &self.bytes, 0, 4);
        out.push(45);
        push_hex_range(&mut out, &self.bytes, 4, 6);
        out.push(45);
        push_hex_range(&mut out, &self.bytes, 6, 8);
        out.push(45);
        push_hex_range(&mut out, &self.bytes, 8, 10);
        out.push(45);
        push_hex_range(&mut out, &self.bytes, 10, 16);
        proof {
            lemma_hex_bytes_len(self.spec_bytes().subrange(0, 4));
            lemma_hex_bytes_len(self.spec_bytes().subrange(4, 6));
            lemma_hex_bytes_len(self.spec_bytes().subrange(6, 8));
            lemma_hex_bytes_len(self.spec_bytes().subrange(8, 10));
            lemma_hex_bytes_len(self.spec_bytes().subrange(10, 16));
            assert(out@ =~= hyphenated_bytes(self.spec_bytes()));
            assert(forall|i: int| 0 <= i < out@.len() ==> #[trigger] out@[i] < 128);
        }
        ascii_to_string(out)
    }

    /// The short rendering: the first eight hex digits.
    pub fn short(&self) -> (r: String)
        ensures
            r@ == hex_bytes(self.spec_bytes().subrange(0, 4)).map_values(|b: u8| b as char),
            r@.len() == 8,
    {
        let mut out: Vec<u8> = Vec::new();
        push_hex_range(&mut out, &self.bytes, 0, 4);
        proof {
            lemma_hex_bytes_len(self.spec_bytes().subrange(0, 4));
        }
        ascii_to_string(out)
    }
}

/// Where the `j`-th hex digit stands in the hyphenated rendering: the
/// four hyphens sit after digits 8, 12, 16 and 20.
pub open spec fn digit_pos(j: int) -> int {
    j + (if j >= 8 {
        1int
    } else {
        0int
    }) + (if j >= 12 {
        1int
    } else {
        0int
    }) + (if j >= 16 {
        1int
    } else {
        0int
    }) + (if j >= 20 {
        1int
    } else {
        0int
    })
}

/// The `j`-th nibble of an identifier's bytes, high nibble first.
pub open spec fn nibble_of(b: Seq<u8>, j: int) -> u8 {
    if j % 2 == 0 {
        (b[j / 2] / 16) as u8
    } else {
        (b[j / 2] % 16) as u8
    }
}

/// The nibble an ASCII hex digit character denotes, if it is one.
pub open spec fn hex_value_char(c: char) -> Option<u8> {
    if c as int >= 128 {
        None
    } else {
        hex_value(c as u8)
    }
}

/// The bytes a hyphenated identifier rendering denotes, if it is one:
/// exactly 36 characters, hyphens in the four fixed places, hex digits of
/// either case everywhere else.
pub open spec fn spec_parse_id_text(s: Seq<char>) -> Option<Seq<u8>> {
    if s.len() != 36 {
        None
    } else if s[8] != '-' || s[13] != '-' || s[18] != '-' || s[23] != '-' {
        None
    } else if exists|j: int| 0 <= j < 32 && hex_value_char(s[#[trigger] digit_pos(j)]) is None {
        None
    } else {
        Some(
            Seq::new(
                16,
                |i: int|
                    ((hex_value_char(s[digit_pos(2 * i)]).unwrap() * 16) + hex_value_char(
                        s[digit_pos(2 * i + 1)],
                    ).unwrap()) as u8,
            ),
        )
    }
}

/// Hex digits of a sequence stand two per byte.
proof fn lemma_hex_bytes_index(s: Seq<u8>, k: int)
    requires
        0 <= k < s.len(),
    ensures
        hex_bytes(s)[2 * k] == hex_digit((s[k] / 16) as u8),
        hex_bytes(s)[2 * k + 1] == hex_digit((s[k] % 16) as u8),
    decreases k,
{
    lemma_hex_bytes_len(s.skip(1));
    if k == 0 {
    } else {
        lemma_hex_bytes_index(s.skip(1), k - 1);
    }
}

/// In the hyphenated rendering of sixteen bytes, the `j`-th digit is the
/// hex digit of the `j`-th nibble, and the four hyphens are where they
/// belong.
proof fn lemma_hyphenated_layout(b: Seq<u8>, j: int)
    requires
        b.len() == 16,
        0 <= j < 32,
    ensures
        hyphenated_bytes(b)[digit_pos(j)] == hex_digit(nibble_of(b, j)),
        hyphenated_bytes(b).len() == 36,
        hyphenated_bytes(b)[8] == 45,
        hyphenated_bytes(b)[13] == 45,
        hyphenated_bytes(b)[18] == 45,
        hyphenated_bytes(b)[23] == 45,
{
    let g1 = hex_bytes(b.subrange(0, 4));
    let g2 = hex_bytes(b.subrange(4, 6));
    let g3 = hex_bytes(b.subrange(6, 8));
    let g4 = hex_bytes(b.subrange(8, 10));
    let g5 = hex_bytes(b.subrange(10, 16));
    lemma_hex_bytes_len(b.subrange(0, 4));
    lemma_hex_bytes_len(b.subrange(4, 6));
    lemma_hex_bytes_len(b.subrange(6, 8));
    lemma_hex_bytes_len(b.subrange(8, 10));
    lemma_hex_bytes_len(b.subrange(10, 16));
    if j < 8 {
        lemma_hex_bytes_index(b.subrange(0, 4), j / 2);
        assert(b.subrange(0, 4)[j / 2] == b[j / 2]);
        assert(hyphenated_bytes(b)[digit_pos(j)] == g1[j]);
    } else if j < 12 {
        lemma_hex_bytes_index(b.subrange(4, 6), (j - 8) / 2);
        assert(b.subrange(4, 6)[(j - 8) / 2] == b[j / 2]);
        assert(hyphenated_bytes(b)[digit_pos(j)] == g2[j - 8]);
    } else if j < 16 {
        lemma_hex_bytes_index(b.subrange(6, 8), (j - 12) / 2);
        assert(b.subrange(6, 8)[(j - 12) / 2] == b[j / 2]);
        assert(hyphenated_bytes(b)[digit_pos(j)] == g3[j - 12]);
    } else if j < 20 {
        lemma_hex_bytes_index(b.subrange(8, 10), (j - 16) / 2);
        assert(b.subrange(8, 10)[(j - 16) / 2] == b[j / 2]);
        assert(hyphenated_bytes(b)[digit_pos(j)] == g4[j - 16]);
    } else {
        lemma_hex_bytes_index(b.subrange(10, 16), (j - 20) / 2);
        assert(b.subrange(10, 16)[(j - 20) / 2] == b[j / 2]);
        assert(hyphenated_bytes(b)[digit_pos(j)] == g5[j - 20]);
    }
}

/// A hex digit always denotes its nibble back.
proof fn lemma_hex_digit_value(n: u8)
    requires
        n < 16,
    ensures
        hex_digit(n) < 128,
        hex_value(hex_digit(n)) == Some(n),
{
}

/// Rendering sixteen bytes and parsing the rendering back reproduces the
/// bytes: the hyphenated form denotes exactly the identifier it was made
/// from.
pub proof fn lemma_id_text_round_trip(b: Seq<u8>)
    requires
        b.len() == 16,
    ensures
        spec_parse_id_text(hyphenated_bytes(b).map_values(|x: u8| x as char)) == Some(b),
{
    let text = hyphenated_bytes(b).map_values(|x: u8| x as char);
    assert forall|j: int| 0 <= j < 32 implies hex_value_char(
        text[#[trigger] digit_pos(j)],
    ) == Some(nibble_of(b, j)) by {
        lemma_hyphenated_layout(b, j);
        lemma_hex_digit_value(nibble_of(b, j));
        assert(text[digit_pos(j)] == hex_digit(nibble_of(b, j)) as char);
    }
    lemma_hyphenated_layout(b, 0);
    assert(text[8] == 45u8 as char && text[13] == 45u8 as char && text[18] == 45u8 as char
        && text[23] == 45u8 as char);
    let parsed = spec_parse_id_text(text)->Some_0;
    assert forall|i: int| 0 <= i < 16 implies parsed[i] == b[i] by {
        assert(hex_value_char(text[digit_pos(2 * i)]) == Some(nibble_of(b, 2 * i)));
        assert(hex_value_char(text[digit_pos(2 * i + 1)]) == Some(nibble_of(b, 2 * i + 1)));
        assert(b[i] == (b[i] / 16) * 16 + b[i] % 16);
    }
    assert(parsed =~= b);
}

/// Error raised by identifier parsing.
#[derive(Debug, Clone)]
pub enum ScanIdError {
    /// Text that is not a hyphenated identifier.
    InvalidFormat(String),
    /// The eight-character short form cannot be parsed back by itself.
    ShortFormNotSupported,
}

impl ScanId {
    /// Parse the hyphenated rendering back into an identifier. The
    /// eight-character short form is refused with an error of its own, as
    /// only a lookup can resolve it.
    pub fn parse_str(s: &str) -> (r: Result<ScanId, ScanIdError>)
        ensures
            r is Ok <==> spec_parse_id_text(s@) is Some,
            r is Ok ==> r.unwrap().spec_bytes() == spec_parse_id_text(s@).unwrap(),
            r is Err && s@.len() == 8 ==> r.unwrap_err() is ShortFormNotSupported,
    {
        let n = s.unicode_len();
        if n == 8 {
            return Err(ScanIdError::ShortFormNotSupported);
        }
        if n != 36 {
            return Err(ScanIdError::InvalidFormat(s.to_owned()));
        }
        if s.get_char(8) != '-' || s.get_char(13) != '-' || s.get_char(18) != '-' || s.get_char(
            23,
        ) != '-' {
            return Err(ScanIdError::InvalidFormat(s.to_owned()));
        }
        let mut bytes: [u8; 16] = [0; 16];
        let mut i: usize = 0;
        while i < 16
            invariant
                i <= 16,
                s@.len() == 36,
                forall|j: int|
                    0 <= j < 2 * i ==> hex_value_char(s@[#[trigger] digit_pos(j)]) is Some,
                forall|k: int|
                    0 <= k < i ==> bytes@[k] == ((hex_value_char(
                        s@[digit_pos(2 * k)],
                    ).unwrap() * 16) + hex_value_char(s@[digit_pos(2 * k + 1)]).unwrap()) as u8,
            decreases 16 - i,
        {
            let hi_pos = digit_position(2 * i);
            let lo_pos = digit_position(2 * i + 1);
            let hi = match hex_nibble(s.get_char(hi_pos)) {
                Some(v) => v,
                None => {
                    return Err(ScanIdError::InvalidFormat(s.to_owned()));
                },
            };
            let lo = match hex_nibble(s.get_char(lo_pos)) {
                Some(v) => v,
                None => {
                    return Err(ScanIdError::InvalidFormat(s.to_owned()));
                },
            };
            bytes[i] = hi * 16 + lo;
            i = i + 1;
        }
        proof {
            let parsed = spec_parse_id_text(s@)->Some_0;
            assert(bytes@ =~= parsed);
        }
        Ok(ScanId { bytes })
    }
}

impl core::str::FromStr for ScanId {
    type Err = ScanIdError;

    fn from_str(s: &str) -> Result<ScanId, ScanIdError> {
        ScanId::parse_str(s)
    }
}

/// The position of the `j`-th hex digit in the hyphenated rendering.
fn digit_position(j: usize) -> (r: usize)
    requires
        j < 32,
    ensures
        r == digit_pos(j as int),
        r < 36,
{
    let mut r = j;
    if j >= 8 {
        r = r + 1;
    }
    if j >= 12 {
        r = r + 1;
    }
    if j >= 16 {
        r = r + 1;
    }
    if j >= 20 {
        r = r + 1;
    }
    r
}

/// The nibble a hex digit character denotes, if it is one.
fn hex_nibble(c: char) -> (r: Option<u8>)
    ensures
        r == hex_value_char(c),
        r is Some ==> r.unwrap() < 16,
{
    if c >= '0' && c <= '9' {
        Some((c as u8) - 48)
    } else if c >= 'a' && c <= 'f' {
        Some((c as u8) - 87)
    } else if c >= 'A' && c <= 'F' {
        Some((c as u8) - 55)
    } else {
        None
    }
}

} // verus!
