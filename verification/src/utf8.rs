use vstd::prelude::*;

verus! {

/// Whether `b` is a UTF-8 continuation byte (0x80..=0xBF).
pub open spec fn is_cont(b: u8) -> bool {
    0x80 <= b && b <= 0xBF
}

/// Length of the well-formed UTF-8 sequence starting at `i`, or 0 when no
/// well-formed sequence starts there (including a sequence cut off by the
/// end of the buffer).
pub open spec fn utf8_step(s: Seq<u8>, i: int) -> int
    recommends
        0 <= i < s.len(),
{
    let b0 = s[i];
    if b0 < 0x80 {
        1
    } else if 0xC2 <= b0 && b0 <= 0xDF {
        if i + 2 <= s.len() && is_cont(s[i + 1]) {
            2
        } else {
            0
        }
    } else if b0 == 0xE0 {
        if i + 3 <= s.len() && 0xA0 <= s[i + 1] && s[i + 1] <= 0xBF && is_cont(s[i + 2]) {
            3
        } else {
            0
        }
    } else if 0xE1 <= b0 && b0 <= 0xEC || b0 == 0xEE || b0 == 0xEF {
        if i + 3 <= s.len() && is_cont(s[i + 1]) && is_cont(s[i + 2]) {
            3
        } else {
            0
        }
    } else if b0 == 0xED {
        if i + 3 <= s.len() && 0x80 <= s[i + 1] && s[i + 1] <= 0x9F && is_cont(s[i + 2]) {
            3
        } else {
            0
        }
    } else if b0 == 0xF0 {
        if i + 4 <= s.len() && 0x90 <= s[i + 1] && s[i + 1] <= 0xBF && is_cont(s[i + 2]) && is_cont(
            s[i + 3],
        ) {
            4
        } else {
            0
        }
    } else if 0xF1 <= b0 && b0 <= 0xF3 {
        if i + 4 <= s.len() && is_cont(s[i + 1]) && is_cont(s[i + 2]) && is_cont(s[i + 3]) {
            4
        } else {
            0
        }
    } else if b0 == 0xF4 {
        if i + 4 <= s.len() && 0x80 <= s[i + 1] && s[i + 1] <= 0x8F && is_cont(s[i + 2]) && is_cont(
            s[i + 3],
        ) {
            4
        } else {
            0
        }
    } else {
        0
    }
}

/// Index at which well-formed UTF-8 decoding, started at `i`, first stops.
pub open spec fn utf8_valid_from(s: Seq<u8>, i: int) -> int
    decreases s.len() - i,
{
    if i < 0 || i >= s.len() {
        i
    } else {
        let n = utf8_step(s, i);
        if n == 0 {
            i
        } else {
            utf8_valid_from(s, i + n)
        }
    }
}

/// Length of the longest prefix of `s` that is well-formed UTF-8.
pub open spec fn utf8_valid_up_to(s: Seq<u8>) -> int {
    utf8_valid_from(s, 0)
}

/// Whether the whole of `s` is well-formed UTF-8.
pub open spec fn is_utf8(s: Seq<u8>) -> bool {
    utf8_valid_up_to(s) == s.len()
}

/// Returns the length of the longest well-formed UTF-8 prefix of `bytes`;
/// the buffer is fully valid exactly when the result equals its length.
pub fn validate_utf8(bytes: &[u8]) -> (r: usize)
    ensures
        r == utf8_valid_up_to(bytes@),
        r <= bytes@.len(),
{
    let len: usize = bytes.len();
    let mut i: usize = 0;
    loop
        invariant
            i <= len,
            len == bytes@.len(),
            utf8_valid_from(bytes@, 0) == utf8_valid_from(bytes@, i as int),
        decreases len - i,
    {
        if i >= len {
            return i;
        }
        let b0: u8 = *vstd::slice::slice_index_get(bytes, i);
        let n: usize = if b0 < 0x80 {
            1
        } else if 0xC2 <= b0 && b0 <= 0xDF {
            if len - i >= 2 && cont_at(bytes, i + 1) {
                2
            } else {
                0
            }
        } else if b0 == 0xE0 {
            if len - i >= 3 && range_at(bytes, i + 1, 0xA0, 0xBF) && cont_at(bytes, i + 2) {
                3
            } else {
                0
            }
        } else if 0xE1 <= b0 && b0 <= 0xEC || b0 == 0xEE || b0 == 0xEF {
            if len - i >= 3 && cont_at(bytes, i + 1) && cont_at(bytes, i + 2) {
                3
            } else {
                0
            }
        } else if b0 == 0xED {
            if len - i >= 3 && range_at(bytes, i + 1, 0x80, 0x9F) && cont_at(bytes, i + 2) {
                3
            } else {
                0
            }
        } else if b0 == 0xF0 {
            if len - i >= 4 && range_at(bytes, i + 1, 0x90, 0xBF) && cont_at(bytes, i + 2)
                && cont_at(bytes, i + 3) {
                4
            } else {
                0
            }
        } else if 0xF1 <= b0 && b0 <= 0xF3 {
            if len - i >= 4 && cont_at(bytes, i + 1) && cont_at(bytes, i + 2) && cont_at(
                bytes,
                i + 3,
            ) {
                4
            } else {
                0
            }
        } else if b0 == 0xF4 {
            if len - i >= 4 && range_at(bytes, i + 1, 0x80, 0x8F) && cont_at(bytes, i + 2)
                && cont_at(bytes, i + 3) {
                4
            } else {
                0
            }
        } else {
            0
        };
        proof {
            assert(n as int == utf8_step(bytes@, i as int));
        }
        if n == 0 {
            return i;
        }
        i = i + n;
    }
}

/// Whether the byte at `j` is a continuation byte.
fn cont_at(bytes: &[u8], j: usize) -> (r: bool)
    requires
        j < bytes@.len(),
    ensures
        r == is_cont(bytes@[j as int]),
{
    let b: u8 = *vstd::slice::slice_index_get(bytes, j);
    0x80 <= b && b <= 0xBF
}

/// Whether the byte at `j` lies in the inclusive range `lo..=hi`.
fn range_at(bytes: &[u8], j: usize, lo: u8, hi: u8) -> (r: bool)
    requires
        j < bytes@.len(),
    ensures
        r == (lo <= bytes@[j as int] && bytes@[j as int] <= hi),
{
    let b: u8 = *vstd::slice::slice_index_get(bytes, j);
    lo <= b && b <= hi
}

/// A buffer of bytes below 0x80 is well-formed UTF-8 from any position.
pub proof fn lemma_ascii_is_utf8(s: Seq<u8>, i: int)
    requires
        0 <= i <= s.len(),
        forall|j: int| 0 <= j < s.len() ==> s[j] < 0x80,
    ensures
        utf8_valid_from(s, i) == s.len(),
    decreases s.len() - i,
{
    if i < s.len() {
        assert(utf8_step(s, i) == 1);
        lemma_ascii_is_utf8(s, i + 1);
    }
}

/// The character sequence that decoding a well-formed UTF-8 byte buffer
/// yields; what `String::from_utf8` returns on such input.
pub uninterp spec fn utf8_chars(bytes: Seq<u8>) -> Seq<char>;

/// Relies on `String::from_utf8`: on well-formed UTF-8 input it returns the
/// decoded string, and bytes below 0x80 decode to the chars with the same
/// code points.
#[verifier::external_body]
pub fn string_from_utf8(v: Vec<u8>) -> (r: String)
    requires
        is_utf8(v@),
    ensures
        r@ == utf8_chars(v@),
        (forall|i: int| 0 <= i < v@.len() ==> v@[i] < 0x80) ==> r@ == v@.map_values(
            |b: u8| b as char,
        ),
{
    match String::from_utf8(v) {
        Ok(s) => s,
        Err(_) => String::new(),
    }
}

} // verus!
