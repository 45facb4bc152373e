//! Validity of request bodies as text.
//!
//! A body is echoed back only when it is well-formed UTF-8. The grammar is
//! written out as a spec function over the byte sequence — one arm per
//! encoding length, with the overlong, surrogate and out-of-range forms
//! excluded — and the executable validator is proved to decide exactly it.

use vstd::prelude::*;

verus! {

/// A continuation byte: `10xxxxxx`.
pub open spec fn is_cont(b: u8) -> bool {
    0x80 <= b && b <= 0xbf
}

/// The length of a well-formed encoded scalar value starting at `i`, or 0
/// when no well-formed encoding starts there.
pub open spec fn encoding_len_at(s: Seq<u8>, i: int) -> int {
    let b0 = s[i];
    if b0 <= 0x7f {
        1
    } else if 0xc2 <= b0 && b0 <= 0xdf {
        if i + 2 <= s.len() && is_cont(s[i + 1]) {
            2
        } else {
            0
        }
    } else if b0 == 0xe0 {
        if i + 3 <= s.len() && 0xa0 <= s[i + 1] && s[i + 1] <= 0xbf && is_cont(s[i + 2]) {
            3
        } else {
            0
        }
    } else if (0xe1 <= b0 && b0 <= 0xec) || b0 == 0xee || b0 == 0xef {
        if i + 3 <= s.len() && is_cont(s[i + 1]) && is_cont(s[i + 2]) {
            3
        } else {
            0
        }
    } else if b0 == 0xed {
        if i + 3 <= s.len() && 0x80 <= s[i + 1] && s[i + 1] <= 0x9f && is_cont(s[i + 2]) {
            3
        } else {
            0
        }
    } else if b0 == 0xf0 {
        if i + 4 <= s.len() && 0x90 <= s[i + 1] && s[i + 1] <= 0xbf && is_cont(s[i + 2]) && is_cont(
            s[i + 3],
        ) {
            4
        } else {
            0
        }
    } else if 0xf1 <= b0 && b0 <= 0xf3 {
        if i + 4 <= s.len() && is_cont(s[i + 1]) && is_cont(s[i + 2]) && is_cont(s[i + 3]) {
            4
        } else {
            0
        }
    } else if b0 == 0xf4 {
        if i + 4 <= s.len() && 0x80 <= s[i + 1] && s[i + 1] <= 0x8f && is_cont(s[i + 2]) && is_cont(
            s[i + 3],
        ) {
            4
        } else {
            0
        }
    } else {
        0
    }
}

/// The bytes from `i` on are a well-formed sequence of encoded scalar
/// values.
pub open spec fn is_text_from(s: Seq<u8>, i: int) -> bool
    recommends
        0 <= i <= s.len(),
    decreases s.len() - i,
{
    if i >= s.len() {
        true
    } else {
        let n = encoding_len_at(s, i);
        n > 0 && i + n <= s.len() && is_text_from(s, i + n)
    }
}

/// The whole byte string is well-formed text.
pub open spec fn is_text(s: Seq<u8>) -> bool {
    is_text_from(s, 0)
}

/// The length of the well-formed encoding starting at `i`, or 0.
fn encoding_len(v: &Vec<u8>, i: usize) -> (n: usize)
    requires
        i < v@.len(),
    ensures
        n == encoding_len_at(v@, i as int),
{
    let len = v.len();
    let b0 = v[i];
    if b0 <= 0x7f {
        1
    } else if 0xc2 <= b0 && b0 <= 0xdf {
        if len - i >= 2 && 0x80 <= v[i + 1] && v[i + 1] <= 0xbf {
            2
        } else {
            0
        }
    } else if b0 == 0xe0 {
        if len - i >= 3 && 0xa0 <= v[i + 1] && v[i + 1] <= 0xbf && 0x80 <= v[i + 2] && v[i + 2]
            <= 0xbf {
            3
        } else {
            0
        }
    } else if (0xe1 <= b0 && b0 <= 0xec) || b0 == 0xee || b0 == 0xef {
        if len - i >= 3 && 0x80 <= v[i + 1] && v[i + 1] <= 0xbf && 0x80 <= v[i + 2] && v[i + 2]
            <= 0xbf {
            3
        } else {
            0
        }
    } else if b0 == 0xed {
        if len - i >= 3 && 0x80 <= v[i + 1] && v[i + 1] <= 0x9f && 0x80 <= v[i + 2] && v[i + 2]
            <= 0xbf {
            3
        } else {
            0
        }
    } else if b0 == 0xf0 {
        if len - i >= 4 && 0x90 <= v[i + 1] && v[i + 1] <= 0xbf && 0x80 <= v[i + 2] && v[i + 2]
            <= 0xbf && 0x80 <= v[i + 3] && v[i + 3] <= 0xbf {
            4
        } else {
            0
        }
    } else if 0xf1 <= b0 && b0 <= 0xf3 {
        if len - i >= 4 && 0x80 <= v[i + 1] && v[i + 1] <= 0xbf && 0x80 <= v[i + 2] && v[i + 2]
            <= 0xbf && 0x80 <= v[i + 3] && v[i + 3] <= 0xbf {
            4
        } else {
            0
        }
    } else if b0 == 0xf4 {
        if len - i >= 4 && 0x80 <= v[i + 1] && v[i + 1] <= 0x8f && 0x80 <= v[i + 2] && v[i + 2]
            <= 0xbf && 0x80 <= v[i + 3] && v[i + 3] <= 0xbf {
            4
        } else {
            0
        }
    } else {
        0
    }
}

/// Decides whether the byte string is well-formed text.
pub fn is_valid_text(v: &Vec<u8>) -> (r: bool)
    ensures
        r == is_text(v@),
{
    let len = v.len();
    let mut i: usize = 0;
    while i < len
        invariant
            0 <= i <= len,
            len == v@.len(),
            is_text(v@) == is_text_from(v@, i as int),
        decreases len - i,
    {
        let n = encoding_len(v, i);
        if n == 0 {
            assert(!is_text_from(v@, i as int));
            return false;
        }
        assert(is_text_from(v@, i as int) == is_text_from(v@, i + n));
        i = i + n;
    }
    true
}

} // verus!
