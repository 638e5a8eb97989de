//! Stable string forms of resource names, used to name output files.
//!
//! A numeric id becomes `#` followed by its decimal digits; a UTF-16 name
//! is decoded with replacement of invalid sequences.

use vstd::prelude::*;

use crate::rsrc::{NameV, ResName};

verus! {

/// The characters that decoding a UTF-16 word sequence yields, invalid
/// sequences replaced; a function of the words alone.
pub uninterp spec fn utf16_lossy(words: Seq<u16>) -> Seq<char>;

/// Relies on String::from_utf16_lossy: decodes UTF-16 with replacement
/// characters, depending on the input words alone.
#[verifier::external_body]
fn utf16_to_string_lossy(words: &Vec<u16>) -> (r: String)
    ensures
        r@ == utf16_lossy(words@),
{
    String::from_utf16_lossy(words.as_slice())
}

/// Relies on String::from_utf8: bytes below 0x80 are valid UTF-8 and
/// decode to one character per byte, with the same code point.
#[verifier::external_body]
fn ascii_to_string(bytes: Vec<u8>) -> (r: String)
    requires
        forall|i: int| 0 <= i < bytes@.len() ==> bytes@[i] < 0x80,
    ensures
        r@.len() == bytes@.len(),
        forall|i: int| 0 <= i < bytes@.len() ==> r@[i] == bytes@[i] as char,
{
    match String::from_utf8(bytes) {
        Ok(s) => s,
        Err(_) => String::new(),
    }
}

/// The ASCII bytes of `v` in decimal, most significant digit first.
pub open spec fn spec_dec_bytes(v: int) -> Seq<u8>
    decreases v,
{
    if v < 10 {
        seq![(48 + if v >= 0 { v } else { 0 }) as u8]
    } else {
        spec_dec_bytes(v / 10).push((48 + v % 10) as u8)
    }
}

/// The decimal digits of `v` as characters.
pub open spec fn spec_dec_chars(v: int) -> Seq<char>
    decreases v,
{
    if v < 10 {
        seq![((48 + if v >= 0 { v } else { 0 }) as u8) as char]
    } else {
        spec_dec_chars(v / 10).push(((48 + v % 10) as u8) as char)
    }
}

/// The digit characters are the digit bytes read as characters, and every
/// digit byte is an ASCII digit.
pub proof fn lemma_dec_digits(v: int)
    requires
        v >= 0,
    ensures
        spec_dec_chars(v).len() == spec_dec_bytes(v).len(),
        forall|i: int|
            0 <= i < spec_dec_bytes(v).len() ==> spec_dec_chars(v)[i] == (
            #[trigger] spec_dec_bytes(v)[i]) as char,
        forall|i: int| 0 <= i < spec_dec_bytes(v).len() ==> 48 <= #[trigger] spec_dec_bytes(v)[i]
            <= 57,
    decreases v,
{
    if v >= 10 {
        lemma_dec_digits(v / 10);
    }
}

/// The string form of a resource name: `#` and the decimal id, or the
/// decoded UTF-16 name.
pub open spec fn spec_name_string(n: NameV) -> Seq<char> {
    match n {
        NameV::Id(v) => seq!['#'] + spec_dec_chars(v),
        NameV::Wide(w) => utf16_lossy(w),
    }
}

/// The mirror image of a byte sequence.
pub open spec fn rev_bytes(s: Seq<u8>) -> Seq<u8> {
    Seq::new(s.len(), |i: int| s[s.len() - 1 - i])
}

/// Render a resource name in its stable string form.
pub fn name_string(n: &ResName) -> (r: String)
    ensures
        r@ == spec_name_string(n@),
{
    match n {
        ResName::Wide(w) => utf16_to_string_lossy(w),
        ResName::Id(v) => {
            let ghost vi = *v as int;
            let mut digits: Vec<u8> = Vec::new();
            let mut cur: u32 = *v;
            digits.push((cur % 10) as u8 + 48);
            proof {
                assert(rev_bytes(digits@) =~= seq![(48 + vi % 10) as u8]);
                if vi >= 10 {
                    assert(spec_dec_bytes(vi) == spec_dec_bytes(vi / 10).push(
                        (48 + vi % 10) as u8,
                    ));
                    assert(spec_dec_bytes(vi) =~= spec_dec_bytes(vi / 10) + rev_bytes(digits@));
                } else {
                    assert(spec_dec_bytes(vi) =~= rev_bytes(digits@));
                }
            }
            cur = cur / 10;
            while cur > 0
                invariant
                    digits@.len() >= 1,
                    forall|i: int| 0 <= i < digits@.len() ==> 48 <= #[trigger] digits@[i] <= 57,
                    cur > 0 ==> spec_dec_bytes(vi) =~= spec_dec_bytes(cur as int) + rev_bytes(
                        digits@,
                    ),
                    cur == 0 ==> spec_dec_bytes(vi) =~= rev_bytes(digits@),
                decreases cur,
            {
                let ghost c0 = cur as int;
                let ghost d0 = digits@;
                digits.push((cur % 10) as u8 + 48);
                proof {
                    assert(rev_bytes(digits@) =~= seq![(48 + c0 % 10) as u8] + rev_bytes(d0));
                    if c0 >= 10 {
                        assert(spec_dec_bytes(c0) == spec_dec_bytes(c0 / 10).push(
                            (48 + c0 % 10) as u8,
                        ));
                        assert(spec_dec_bytes(c0 / 10) + rev_bytes(digits@) =~= spec_dec_bytes(c0)
                            + rev_bytes(d0));
                    } else {
                        assert(spec_dec_bytes(c0) =~= seq![(48 + c0 % 10) as u8]);
                        assert(rev_bytes(digits@) =~= spec_dec_bytes(c0) + rev_bytes(d0));
                    }
                }
                cur = cur / 10;
            }
            let mut out: Vec<u8> = Vec::new();
            out.push(35);
            let k = digits.len();
            let mut m: usize = 0;
            while m < k
                invariant
                    k == digits@.len(),
                    m <= k,
                    forall|i: int| 0 <= i < digits@.len() ==> 48 <= #[trigger] digits@[i] <= 57,
                    out@.len() == 1 + m,
                    out@[0] == 35u8,
                    forall|i: int| 0 <= i < m ==> out@[1 + i] == rev_bytes(digits@)[i],
                decreases k - m,
            {
                out.push(digits[k - 1 - m]);
                m = m + 1;
            }
            proof {
                assert(out@ =~= seq![35u8] + rev_bytes(digits@));
                lemma_dec_digits(vi);
            }
            let s = ascii_to_string(out);
            proof {
                assert(s@[0] == 35u8 as char);
                assert(s@ =~= seq!['#'] + spec_dec_chars(vi));
            }
            s
        },
    }
}

} // verus!
