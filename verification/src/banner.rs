//! Banner text handling for the TCP connect strategy.
//!
//! Reading from the open stream is the caller's; what stands here,
//! verified, is which ports get the follow-up HTTP probe and how raw
//! banner bytes are sanitized into bounded, printable display text.

use vstd::prelude::*;
use crate::text::ascii_to_string;

verus! {

/// The display limit for a sanitized banner, in characters.
pub const MAX_BANNER_DISPLAY: usize = 256;

/// Whether a port commonly serves HTTP, and so gets a minimal HTTP HEAD
/// probe when the service sends nothing by itself.
pub open spec fn spec_is_http_port(port: u16) -> bool {
    port == 80 || port == 443 || port == 8000 || port == 8008 || port == 8080 || port == 8081
        || port == 8082 || port == 8083 || port == 8443 || port == 8888 || port == 9000 || port
        == 9090
}

/// Whether a port commonly serves HTTP.
pub fn is_http_port(port: u16) -> (r: bool)
    ensures
        r == spec_is_http_port(port),
{
    match port {
        80 | 443 | 8000 | 8008 | 8080 | 8081 | 8082 | 8083 | 8443 | 8888 | 9000 | 9090 => true,
        _ => false,
    }
}

/// How one raw banner byte displays: printable ASCII stays itself, the
/// usual line whitespace becomes a space, anything else a dot.
pub open spec fn sanitize_char(b: u8) -> char {
    if b == 0x20 || (0x21 <= b <= 0x7e) {
        b as char
    } else if b == 0x0d || b == 0x0a || b == 0x09 {
        ' '
    } else {
        '.'
    }
}

/// Collapse runs of spaces to a single space; `prev_space` says whether
/// the character before this sequence was a space.
pub open spec fn collapse_spaces(s: Seq<char>, prev_space: bool) -> Seq<char>
    decreases s.len(),
{
    if s.len() == 0 {
        Seq::empty()
    } else {
        let rest = collapse_spaces(s.skip(1), s[0] == ' ');
        if s[0] == ' ' && prev_space {
            rest
        } else {
            seq![s[0]] + rest
        }
    }
}

/// Drop leading spaces.
pub open spec fn trim_front(s: Seq<char>) -> Seq<char>
    decreases s.len(),
{
    if s.len() > 0 && s[0] == ' ' {
        trim_front(s.skip(1))
    } else {
        s
    }
}

/// Drop trailing spaces.
pub open spec fn trim_back(s: Seq<char>) -> Seq<char>
    decreases s.len(),
{
    if s.len() > 0 && s.last() == ' ' {
        trim_back(s.drop_last())
    } else {
        s
    }
}

/// The sanitized display text of a raw banner: the first 256 bytes, each
/// mapped to its display character, runs of whitespace collapsed, and the
/// result trimmed.
pub open spec fn spec_sanitize_banner(data: Seq<u8>) -> Seq<char> {
    let clipped = if data.len() <= 256 {
        data
    } else {
        data.take(256)
    };
    trim_back(trim_front(collapse_spaces(clipped.map_values(|b: u8| sanitize_char(b)), false)))
}

/// Sanitize raw banner bytes into printable display text: control bytes
/// become dots, whitespace collapses, and the result is bounded and
/// trimmed.
pub fn sanitize_banner(data: &[u8]) -> (r: String)
    ensures
        r@ == spec_sanitize_banner(data@),
{
    let clip: usize = if data.len() <= 256 {
        data.len()
    } else {
        256
    };
    let ghost mapped = (if data@.len() <= 256 {
        data@
    } else {
        data@.take(256)
    }).map_values(|b: u8| sanitize_char(b));
    proof {
        assert(mapped.skip(0) =~= mapped);
    }
    let mut collapsed: Vec<u8> = Vec::new();
    let mut prev_space = false;
    let mut i: usize = 0;
    while i < clip
        invariant
            i <= clip,
            clip == (if data@.len() <= 256 {
                data@.len() as int
            } else {
                256
            }),
            clip <= data@.len(),
            mapped == (if data@.len() <= 256 {
                data@
            } else {
                data@.take(256)
            }).map_values(|b: u8| sanitize_char(b)),
            mapped.len() == clip,
            forall|k: int| 0 <= k < collapsed@.len() ==> #[trigger] collapsed@[k] < 128,
            collapse_spaces(mapped, false) == collapsed@.map_values(|b: u8| b as char)
                + collapse_spaces(mapped.skip(i as int), prev_space),
        decreases clip - i,
    {
        let b = data[i];
        let display: u8 = if b == 0x20 || (0x21 <= b && b <= 0x7e) {
            b
        } else if b == 0x0d || b == 0x0a || b == 0x09 {
            0x20
        } else {
            0x2e
        };
        proof {
            assert(mapped[i as int] == sanitize_char(data@[i as int]));
            assert(mapped.skip(i as int)[0] == mapped[i as int]);
            assert(mapped.skip(i as int).skip(1) =~= mapped.skip(i + 1));
        }
        let ghost before = collapsed@;
        if display == 0x20 {
            if !prev_space {
                collapsed.push(0x20);
                proof {
                    assert(collapsed@.map_values(|b: u8| b as char) =~= before.map_values(
                        |b: u8| b as char,
                    ) + seq![' ']);
                    assert(seq![mapped[i as int]] =~= seq![' ']);
                }
            }
            prev_space = true;
        } else {
            collapsed.push(display);
            proof {
                assert(collapsed@.map_values(|b: u8| b as char) =~= before.map_values(
                    |b: u8| b as char,
                ) + seq![mapped[i as int]]);
            }
            prev_space = false;
        }
        i = i + 1;
    }
    proof {
        assert(mapped.skip(clip as int) =~= Seq::<char>::empty());
        assert(collapse_spaces(mapped, false) =~= collapsed@.map_values(|b: u8| b as char));
    }
    let ghost collapsed_chars = collapsed@.map_values(|b: u8| b as char);
    proof {
        assert(collapsed_chars.skip(0) =~= collapsed_chars);
    }
    let mut start: usize = 0;
    while start < collapsed.len() && collapsed[start] == 0x20
        invariant
            start <= collapsed@.len(),
            collapsed_chars == collapsed@.map_values(|b: u8| b as char),
            trim_front(collapsed_chars) == trim_front(collapsed_chars.skip(start as int)),
        decreases collapsed@.len() - start,
    {
        proof {
            assert(collapsed_chars.skip(start as int)[0] == ' ');
            assert(collapsed_chars.skip(start as int).skip(1) =~= collapsed_chars.skip(start + 1));
        }
        start = start + 1;
    }
    let ghost fronted = collapsed_chars.skip(start as int);
    proof {
        if start < collapsed@.len() {
            assert(fronted[0] != ' ');
        }
        assert(trim_front(collapsed_chars) == fronted);
    }
    let mut end: usize = collapsed.len();
    proof {
        assert(fronted.take(end - start) =~= fronted);
    }
    while end > start && collapsed[end - 1] == 0x20
        invariant
            start <= end <= collapsed@.len(),
            collapsed_chars == collapsed@.map_values(|b: u8| b as char),
            fronted == collapsed_chars.skip(start as int),
            trim_back(fronted) == trim_back(fronted.take(end - start)),
        decreases end,
    {
        proof {
            let cur = fronted.take(end - start);
            assert(cur.last() == collapsed_chars[end - 1]);
            assert(cur.last() == ' ');
            assert(cur.drop_last() =~= fronted.take(end - 1 - start));
        }
        end = end - 1;
    }
    proof {
        let cur = fronted.take(end - start);
        if end > start {
            assert(cur.last() == collapsed_chars[end - 1]);
            assert(cur.last() != ' ');
        }
        assert(trim_back(fronted) == cur);
    }
    let mut out: Vec<u8> = Vec::new();
    let mut j: usize = start;
    while j < end
        invariant
            start <= j <= end <= collapsed@.len(),
            out@ =~= collapsed@.subrange(start as int, j as int),
            forall|k: int| 0 <= k < collapsed@.len() ==> #[trigger] collapsed@[k] < 128,
        decreases end - j,
    {
        out.push(collapsed[j]);
        proof {
            assert(out@ =~= collapsed@.subrange(start as int, j + 1));
        }
        j = j + 1;
    }
    proof {
        assert(out@.map_values(|b: u8| b as char) =~= fronted.take(end - start));
        assert(forall|k: int| 0 <= k < out@.len() ==> #[trigger] out@[k] < 128);
    }
    ascii_to_string(out)
}

} // verus!
