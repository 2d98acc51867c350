//! Byte-level text utilities shared by the wire protocol: ASCII whitespace
//! trimming and UTF-8 validation, as applied to every received frame before
//! it is interpreted.

use vstd::prelude::*;
use vstd::utf8::decode_first_codepoint;
use vstd::utf8::length_of_first_codepoint;
use vstd::utf8::pop_first_scalar;
use vstd::utf8::valid_first_scalar;
use vstd::utf8::valid_leading_and_continuation_bytes_first_codepoint;
use vstd::utf8::valid_utf8;

verus! {

/// The ASCII whitespace bytes stripped from the ends of a frame: space and
/// the control characters tab through carriage return.
pub open spec fn is_space(b: u8) -> bool {
    b == 32 || (9 <= b && b <= 13)
}

/// `s` with its leading whitespace removed.
pub open spec fn trim_front(s: Seq<u8>) -> Seq<u8>
    decreases s.len(),
{
    if s.len() > 0 && is_space(s[0]) {
        trim_front(s.drop_first())
    } else {
        s
    }
}

/// `s` with its trailing whitespace removed.
pub open spec fn trim_back(s: Seq<u8>) -> Seq<u8>
    decreases s.len(),
{
    if s.len() > 0 && is_space(s.last()) {
        trim_back(s.drop_last())
    } else {
        s
    }
}

/// `s` with whitespace removed from both ends.
pub open spec fn trimmed(s: Seq<u8>) -> Seq<u8> {
    trim_back(trim_front(s))
}

/// Removes ASCII whitespace from both ends of `s`.
pub fn trim_bytes(s: &[u8]) -> (t: Vec<u8>)
    ensures
        t@ == trimmed(s@),
{
    let n = s.len();
    proof {
        assert(s@.subrange(0, n as int) =~= s@);
    }
    let mut lo: usize = 0;
    while lo < n && (s[lo] == 32 || (9 <= s[lo] && s[lo] <= 13))
        invariant
            0 <= lo <= n,
            n == s@.len(),
            trim_front(s@) == trim_front(s@.subrange(lo as int, n as int)),
        decreases n - lo,
    {
        proof {
            let cur = s@.subrange(lo as int, n as int);
            assert(cur.drop_first() =~= s@.subrange(lo as int + 1, n as int));
        }
        lo = lo + 1;
    }
    proof {
        let cur = s@.subrange(lo as int, n as int);
        assert(trim_front(cur) == cur);
    }
    let mut hi: usize = n;
    while hi > lo && (s[hi - 1] == 32 || (9 <= s[hi - 1] && s[hi - 1] <= 13))
        invariant
            lo <= hi <= n,
            n == s@.len(),
            trim_front(s@) == s@.subrange(lo as int, n as int),
            trim_back(s@.subrange(lo as int, n as int)) == trim_back(
                s@.subrange(lo as int, hi as int),
            ),
        decreases hi,
    {
        proof {
            let cur = s@.subrange(lo as int, hi as int);
            assert(cur.drop_last() =~= s@.subrange(lo as int, hi as int - 1));
        }
        hi = hi - 1;
    }
    proof {
        let cur = s@.subrange(lo as int, hi as int);
        assert(trim_back(cur) == cur);
    }
    let mut t: Vec<u8> = Vec::new();
    let mut k: usize = lo;
    while k < hi
        invariant
            lo <= k <= hi <= n,
            n == s@.len(),
            t@ == s@.subrange(lo as int, k as int),
        decreases hi - k,
    {
        t.push(s[k]);
        proof {
            assert(t@ =~= s@.subrange(lo as int, k as int + 1));
        }
        k = k + 1;
    }
    proof {
        assert(t@ =~= s@.subrange(lo as int, hi as int));
    }
    t
}

/// Whether `s` is a well-formed UTF-8 encoding. A frame that fails this test
/// is treated as malformed and dropped, rather than ending the session.
pub fn utf8_frame_ok(s: &[u8]) -> (r: bool)
    ensures
        r == valid_utf8(s@),
{
    let n = s.len();
    proof {
        assert(s@.subrange(0, n as int) =~= s@);
    }
    let mut i: usize = 0;
    while i < n
        invariant
            0 <= i <= n,
            n == s@.len(),
            valid_utf8(s@) == valid_utf8(s@.subrange(i as int, n as int)),
        decreases n - i,
    {
        let ghost suf = s@.subrange(i as int, n as int);
        let b0 = s[i];
        proof {
            assert(suf.len() == n - i);
            assert(suf[0] == b0);
        }
        if b0 < 0x80 {
            // One-byte scalar.
            proof {
                assert(b0 & 0x7F <= 0x7F) by (bit_vector);
                assert(valid_first_scalar(suf));
                assert(pop_first_scalar(suf) =~= s@.subrange(i as int + 1, n as int));
            }
            i = i + 1;
        } else if b0 < 0xC0 {
            // A continuation byte cannot lead a scalar.
            proof {
                assert(!valid_leading_and_continuation_bytes_first_codepoint(suf));
                assert(!valid_utf8(suf));
            }
            return false;
        } else if b0 < 0xE0 {
            // Two-byte scalar: one continuation byte, no overlong encoding.
            if i + 1 >= n {
                proof {
                    assert(!valid_leading_and_continuation_bytes_first_codepoint(suf));
                    assert(!valid_utf8(suf));
                }
                return false;
            }
            let b1 = s[i + 1];
            proof {
                assert(suf[1] == b1);
            }
            if !(0x80 <= b1 && b1 <= 0xBF) {
                proof {
                    assert(!valid_leading_and_continuation_bytes_first_codepoint(suf));
                    assert(!valid_utf8(suf));
                }
                return false;
            }
            let cp: u32 = (((b0 & 0x1F) as u32) << 6u32) | ((b1 & 0x3F) as u32);
            proof {
                assert(cp == decode_first_codepoint(suf));
                assert(length_of_first_codepoint(suf) == 2);
            }
            if cp < 0x80 || (0xD800 <= cp && cp <= 0xDFFF) {
                proof {
                    assert(!valid_first_scalar(suf));
                    assert(!valid_utf8(suf));
                }
                return false;
            }
            proof {
                assert(valid_first_scalar(suf));
                assert(pop_first_scalar(suf) =~= s@.subrange(i as int + 2, n as int));
            }
            i = i + 2;
        } else if b0 < 0xF0 {
            // Three-byte scalar: surrogates are excluded here.
            if n - i < 3 {
                proof {
                    assert(!valid_leading_and_continuation_bytes_first_codepoint(suf));
                    assert(!valid_utf8(suf));
                }
                return false;
            }
            let b1 = s[i + 1];
            let b2 = s[i + 2];
            proof {
                assert(suf[1] == b1);
                assert(suf[2] == b2);
            }
            if !(0x80 <= b1 && b1 <= 0xBF) || !(0x80 <= b2 && b2 <= 0xBF) {
                proof {
                    assert(!valid_leading_and_continuation_bytes_first_codepoint(suf));
                    assert(!valid_utf8(suf));
                }
                return false;
            }
            let cp: u32 = (((b0 & 0x0F) as u32) << 12u32) | (((b1 & 0x3F) as u32) << 6u32) | ((
            b2 & 0x3F) as u32);
            proof {
                assert(cp == decode_first_codepoint(suf));
                assert(length_of_first_codepoint(suf) == 3);
            }
            if cp < 0x800 || (0xD800 <= cp && cp <= 0xDFFF) {
                proof {
                    assert(!valid_first_scalar(suf));
                    assert(!valid_utf8(suf));
                }
                return false;
            }
            proof {
                assert(valid_first_scalar(suf));
                assert(pop_first_scalar(suf) =~= s@.subrange(i as int + 3, n as int));
            }
            i = i + 3;
        } else if b0 < 0xF8 {
            // Four-byte scalar: the value must lie in the supplementary planes.
            if n - i < 4 {
                proof {
                    assert(!valid_leading_and_continuation_bytes_first_codepoint(suf));
                    assert(!valid_utf8(suf));
                }
                return false;
            }
            let b1 = s[i + 1];
            let b2 = s[i + 2];
            let b3 = s[i + 3];
            proof {
                assert(suf[1] == b1);
                assert(suf[2] == b2);
                assert(suf[3] == b3);
            }
            if !(0x80 <= b1 && b1 <= 0xBF) || !(0x80 <= b2 && b2 <= 0xBF) || !(0x80 <= b3 && b3
                <= 0xBF) {
                proof {
                    assert(!valid_leading_and_continuation_bytes_first_codepoint(suf));
                    assert(!valid_utf8(suf));
                }
                return false;
            }
            let cp: u32 = (((b0 & 0x07) as u32) << 18u32) | (((b1 & 0x3F) as u32) << 12u32) | (((
            b2 & 0x3F) as u32) << 6u32) | ((b3 & 0x3F) as u32);
            proof {
                assert(cp == decode_first_codepoint(suf));
                assert(length_of_first_codepoint(suf) == 4);
            }
            if cp < 0x10000 || cp > 0x10FFFF {
                proof {
                    assert(!valid_first_scalar(suf));
                    assert(!valid_utf8(suf));
                }
                return false;
            }
            proof {
                assert(valid_first_scalar(suf));
                assert(pop_first_scalar(suf) =~= s@.subrange(i as int + 4, n as int));
            }
            i = i + 4;
        } else {
            // 0xF8 and above lead no scalar at all.
            proof {
                assert(!valid_leading_and_continuation_bytes_first_codepoint(suf));
                assert(!valid_utf8(suf));
            }
            return false;
        }
    }
    proof {
        assert(valid_utf8(s@.subrange(n as int, n as int)));
    }
    true
}

} // verus!
