//! Incremental UTF-8 framing for the event bridge.
//!
//! Inbound bytes arrive split at arbitrary read boundaries, so a chunk may
//! end in the middle of a multi-byte character.  [`scan_utf8`] finds the
//! longest decodable prefix of a chunk and classifies the remainder: a
//! tail that merely looks unfinished is held back until more bytes
//! arrive, while bytes that can never start a character are reported as
//! undecodable.  A tail is judged by shape alone — a leading byte
//! followed by fewer continuation bytes than its width calls for — so a
//! sequence whose fault only shows on its last byte is held until that
//! byte arrives and is rejected then.
use vstd::prelude::*;
use vstd::utf8::codepoint_width_1;
use vstd::utf8::codepoint_width_2;
use vstd::utf8::codepoint_width_3;
use vstd::utf8::codepoint_width_4;
use vstd::utf8::is_continuation_byte;
use vstd::utf8::is_leading_byte_width_1;
use vstd::utf8::is_leading_byte_width_2;
use vstd::utf8::is_leading_byte_width_3;
use vstd::utf8::is_leading_byte_width_4;
use vstd::utf8::partial_valid_utf8;
use vstd::utf8::partial_valid_utf8_extend;
use vstd::utf8::valid_first_scalar;
use vstd::utf8::valid_utf8;

verus! {

/// The byte count that a leading byte announces for its character's
/// encoding; zero for a byte that cannot lead one.
pub open spec fn leading_width(b: u8) -> int {
    if is_leading_byte_width_1(b) {
        1
    } else if is_leading_byte_width_2(b) {
        2
    } else if is_leading_byte_width_3(b) {
        3
    } else if is_leading_byte_width_4(b) {
        4
    } else {
        0
    }
}

/// True when the bytes have the shape of an unfinished character: a
/// leading byte announcing more bytes than are present, with every byte
/// after it a continuation byte.  Such a tail is held back, not reported.
pub open spec fn incomplete_tail(s: Seq<u8>) -> bool {
    &&& s.len() > 0
    &&& leading_width(s[0]) > s.len()
    &&& forall|j: int| 1 <= j < s.len() ==> is_continuation_byte(#[trigger] s[j])
}

/// True when the bytes neither start with a whole valid character nor
/// have the shape of an unfinished one: no further input can mend them.
pub open spec fn undecodable(s: Seq<u8>) -> bool {
    &&& s.len() > 0
    &&& !valid_first_scalar(s)
    &&& !incomplete_tail(s)
}

/// A one-byte encoding decodes to the byte itself.
proof fn width1_value(b: u8)
    by (bit_vector)
    requires
        b <= 0x7f,
    ensures
        codepoint_width_1(b) == b as u32,
{
}

/// Range facts for a two-byte encoding: where it lies and when it is
/// overlong.
proof fn width2_range(b1: u8, b2: u8)
    by (bit_vector)
    requires
        0xc0 <= b1 <= 0xdf,
        0x80 <= b2 <= 0xbf,
    ensures
        codepoint_width_2(b1, b2) <= 0x7ff,
        (codepoint_width_2(b1, b2) >= 0x80) == (b1 >= 0xc2),
{
}

/// Range facts for a three-byte encoding: where it lies, when it is
/// overlong, and when it falls in the surrogate range.
proof fn width3_range(b1: u8, b2: u8, b3: u8)
    by (bit_vector)
    requires
        0xe0 <= b1 <= 0xef,
        0x80 <= b2 <= 0xbf,
        0x80 <= b3 <= 0xbf,
    ensures
        codepoint_width_3(b1, b2, b3) <= 0xffff,
        (codepoint_width_3(b1, b2, b3) >= 0x800) == (b1 != 0xe0 || b2 >= 0xa0),
        (0xd800 <= codepoint_width_3(b1, b2, b3) <= 0xdfff) == (b1 == 0xed && b2 >= 0xa0),
{
}

/// Range facts for a four-byte encoding: when it is overlong and when it
/// runs past the last scalar value.
proof fn width4_range(b1: u8, b2: u8, b3: u8, b4: u8)
    by (bit_vector)
    requires
        0xf0 <= b1 <= 0xf7,
        0x80 <= b2 <= 0xbf,
        0x80 <= b3 <= 0xbf,
        0x80 <= b4 <= 0xbf,
    ensures
        (codepoint_width_4(b1, b2, b3, b4) >= 0x10000) == (b1 != 0xf0 || b2 >= 0x90),
        (codepoint_width_4(b1, b2, b3, b4) <= 0x10ffff) == (b1 <= 0xf3 || (b1 == 0xf4 && b2
            <= 0x8f)),
{
}

/// Finds the longest strictly decodable prefix of the bytes.
///
/// Returns `(k, clean)` where the first `k` bytes are valid UTF-8.  With
/// `clean`, the remainder is empty or an [`incomplete_tail`] to be held
/// for the next chunk; without it, the remainder is [`undecodable`] and no
/// later input can rescue it.
pub fn scan_utf8(v: &[u8]) -> (r: (usize, bool))
    ensures
        r.0 <= v@.len(),
        valid_utf8(v@.subrange(0, r.0 as int)),
        r.1 ==> r.0 == v@.len() || incomplete_tail(v@.subrange(r.0 as int, v@.len() as int)),
        !r.1 ==> r.0 < v@.len() && undecodable(v@.subrange(r.0 as int, v@.len() as int)),
{
    let n = v.len();
    let mut i: usize = 0;
    while i < n
        invariant
            i <= n,
            n == v@.len(),
            partial_valid_utf8(v@, i as int),
        decreases n - i,
    {
        let ghost s = v@.subrange(i as int, n as int);
        let b = v[i];
        assert(s[0] == b);
        assert(s.len() == n - i);
        if b <= 0x7f {
            proof {
                width1_value(b);
                assert(valid_first_scalar(s));
                partial_valid_utf8_extend(v@, i as int);
            }
            i = i + 1;
        } else if 0xc0 <= b && b <= 0xdf {
            if i + 1 >= n {
                return (i, true);
            }
            let b2 = v[i + 1];
            assert(s[1] == b2);
            if !(0x80 <= b2 && b2 <= 0xbf) {
                return (i, false);
            }
            proof {
                width2_range(b, b2);
            }
            if b <= 0xc1 {
                return (i, false);
            }
            proof {
                assert(valid_first_scalar(s));
                partial_valid_utf8_extend(v@, i as int);
            }
            i = i + 2;
        } else if 0xe0 <= b && b <= 0xef {
            if i + 1 >= n {
                return (i, true);
            }
            let b2 = v[i + 1];
            assert(s[1] == b2);
            if !(0x80 <= b2 && b2 <= 0xbf) {
                return (i, false);
            }
            if i + 2 >= n {
                return (i, true);
            }
            let b3 = v[i + 2];
            assert(s[2] == b3);
            if !(0x80 <= b3 && b3 <= 0xbf) {
                return (i, false);
            }
            proof {
                width3_range(b, b2, b3);
            }
            if b == 0xe0 && b2 < 0xa0 {
                return (i, false);
            }
            if b == 0xed && b2 >= 0xa0 {
                return (i, false);
            }
            proof {
                assert(valid_first_scalar(s));
                partial_valid_utf8_extend(v@, i as int);
            }
            i = i + 3;
        } else if 0xf0 <= b && b <= 0xf7 {
            if i + 1 >= n {
                return (i, true);
            }
            let b2 = v[i + 1];
            assert(s[1] == b2);
            if !(0x80 <= b2 && b2 <= 0xbf) {
                return (i, false);
            }
            if i + 2 >= n {
                return (i, true);
            }
            let b3 = v[i + 2];
            assert(s[2] == b3);
            if !(0x80 <= b3 && b3 <= 0xbf) {
                return (i, false);
            }
            if i + 3 >= n {
                return (i, true);
            }
            let b4 = v[i + 3];
            assert(s[3] == b4);
            if !(0x80 <= b4 && b4 <= 0xbf) {
                return (i, false);
            }
            proof {
                width4_range(b, b2, b3, b4);
            }
            if b == 0xf0 && b2 < 0x90 {
                return (i, false);
            }
            if b >= 0xf5 || (b == 0xf4 && b2 >= 0x90) {
                return (i, false);
            }
            proof {
                assert(valid_first_scalar(s));
                partial_valid_utf8_extend(v@, i as int);
            }
            i = i + 4;
        } else {
            return (i, false);
        }
    }
    proof {
        assert(v@.subrange(0, n as int) =~= v@);
    }
    (n, true)
}

} // verus!
