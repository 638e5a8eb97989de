//! Extraction of text resources: string table entries, with raw data
//! resources as the fallback.
//!
//! String tables group sixteen strings per block; an id selects block
//! `id / 16 + 1` and position `id % 16` inside it, and each string is
//! stored as a 16-bit length followed by that many UTF-16 words. A raw
//! data resource is read as UTF-8 with replacement of invalid sequences.

use vstd::prelude::*;

use crate::error::ExtractError;
use crate::extract::{resources_of, spec_abs_id, spec_resources};
use crate::pe::{le16, read_u16};
use crate::rsrc::{dir_count_of, ent_name_of, find_type_dir, first_data, spec_dir_count,
    spec_dir_valid, spec_ent_name, spec_first_data, spec_type_dir, spec_wide_words};
use vstd::slice::slice_subrange;

verus! {

/// Resource type number of string tables.
pub const RT_STRING: u32 = 6;

/// Resource type number of raw application data.
pub const RT_RCDATA: u32 = 10;

/// The characters that strictly decoding a UTF-16 word sequence yields,
/// when the sequence is valid; a function of the words alone.
pub uninterp spec fn utf16_decode_of(words: Seq<u16>) -> Option<Seq<char>>;

/// Relies on String::from_utf16: whether a word sequence is valid UTF-16,
/// and what it decodes to, depend on the words alone.
#[verifier::external_body]
fn utf16_to_string(words: &Vec<u16>) -> (r: Option<String>)
    ensures
        r is Some <==> utf16_decode_of(words@) is Some,
        r matches Some(s) ==> utf16_decode_of(words@) == Some(s@),
{
    String::from_utf16(words.as_slice()).ok()
}

/// The characters that decoding a byte sequence as UTF-8 yields, invalid
/// sequences replaced; a function of the bytes alone.
pub uninterp spec fn utf8_lossy_of(bytes: Seq<u8>) -> Seq<char>;

/// Relies on String::from_utf8_lossy: decodes UTF-8 with replacement
/// characters, depending on the input bytes alone.
#[verifier::external_body]
fn utf8_lossy(bytes: &Vec<u8>) -> (r: String)
    ensures
        r@ == utf8_lossy_of(bytes@),
{
    String::from_utf8_lossy(bytes.as_slice()).into_owned()
}

/// Index of the first entry of the directory at `d`, at or after `i`,
/// whose name field is the numeric id `t`.
pub open spec fn spec_find_named(r: Seq<u8>, d: int, t: int, i: int) -> Option<int>
    decreases spec_dir_count(r, d) - i,
{
    if i >= spec_dir_count(r, d) {
        None
    } else if spec_ent_name(r, d, i) == t {
        Some(i)
    } else {
        spec_find_named(r, d, t, i + 1)
    }
}

/// Offset of string `k` inside a string table block: each string before it
/// holds a length word and that many data words. `None` when the walk
/// leaves the block.
pub open spec fn spec_str_off(t: Seq<u8>, k: int) -> Option<int>
    decreases k,
{
    if k <= 0 {
        Some(0)
    } else {
        match spec_str_off(t, k - 1) {
            None => None,
            Some(p) => if p + 2 <= t.len() && p + 2 + 2 * le16(t, p) <= t.len() {
                Some(p + 2 + 2 * le16(t, p))
            } else {
                None
            },
        }
    }
}

/// The words of string `k` of a string table block.
pub open spec fn spec_table_string(t: Seq<u8>, k: int) -> Option<Seq<u16>> {
    match spec_str_off(t, k) {
        None => None,
        Some(p) => if p + 2 <= t.len() && p + 2 + 2 * le16(t, p) <= t.len() {
            Some(spec_wide_words(t, p + 2, le16(t, p)))
        } else {
            None
        },
    }
}

/// The words of string table entry `sid` of the resource section: block
/// `sid / 16 + 1`, position `sid % 16`.
pub open spec fn spec_string_words(r: Seq<u8>, rva: int, sid: int) -> Option<Seq<u16>> {
    match spec_type_dir(r, RT_STRING as int) {
        None => None,
        Some(td) => match spec_find_named(r, td, sid / 16 + 1, 0) {
            None => None,
            Some(i) => match spec_first_data(r, rva, td, i) {
                None => None,
                Some(t) => spec_table_string(t, sid % 16),
            },
        },
    }
}

/// The bytes of the raw data resource named `sid`.
pub open spec fn spec_rcdata_bytes(r: Seq<u8>, rva: int, sid: int) -> Option<Seq<u8>> {
    match spec_type_dir(r, RT_RCDATA as int) {
        None => None,
        Some(td) => match spec_find_named(r, td, sid, 0) {
            None => None,
            Some(i) => spec_first_data(r, rva, td, i),
        },
    }
}

/// What text extraction yields for an id: the string table entry of the
/// id's magnitude when it exists and is not empty, strictly decoded; else
/// the raw data resource of that magnitude, read as UTF-8 with
/// replacement; the errors distinguish unreadable headers, a missing
/// resource directory, invalid UTF-16, and an id that names neither.
pub open spec fn spec_get_dll_txt(b: Seq<u8>, id: i32) -> Result<Seq<char>, ExtractError> {
    match spec_resources(b) {
        Err(e) => Err(e),
        Ok((r, rva)) => {
            let sid = spec_abs_id(id);
            let found = spec_string_words(r, rva, sid);
            if found matches Some(w) && w.len() > 0 {
                match utf16_decode_of(found->Some_0) {
                    Some(cs) => Ok(cs),
                    None => Err(ExtractError::BadEncoding),
                }
            } else {
                match spec_rcdata_bytes(r, rva, sid) {
                    Some(bs) => Ok(utf8_lossy_of(bs)),
                    None => Err(ExtractError::TextNotFound(id)),
                }
            }
        },
    }
}

/// When the walk has left the block by string `m`, it stays outside for
/// every later string.
proof fn lemma_str_off_none(t: Seq<u8>, m: int, k: int)
    requires
        spec_str_off(t, m) is None,
        m <= k,
    ensures
        spec_str_off(t, k) is None,
    decreases k - m,
{
    if m < k {
        lemma_str_off_none(t, m, k - 1);
    }
}

/// Find the first entry of a directory whose name field is the numeric id
/// `t`.
fn find_named(r: &[u8], d: u32, t: u32) -> (res: Option<u32>)
    requires
        d < 0x80000000,
        spec_dir_valid(r@, d as int),
    ensures
        match res {
            Some(i) => spec_find_named(r@, d as int, t as int, 0) == Some(i as int) && i
                < spec_dir_count(r@, d as int),
            None => spec_find_named(r@, d as int, t as int, 0) is None,
        },
{
    let c = match dir_count_of(r, d) {
        None => {
            proof {
                assert(false);
            }
            return None;
        },
        Some(c) => c,
    };
    let mut i: u32 = 0;
    while i < c
        invariant
            d < 0x80000000,
            spec_dir_valid(r@, d as int),
            c == spec_dir_count(r@, d as int),
            i <= c,
            spec_find_named(r@, d as int, t as int, 0) == spec_find_named(
                r@,
                d as int,
                t as int,
                i as int,
            ),
        decreases c - i,
    {
        if ent_name_of(r, d, i) == t {
            proof {
                assert(spec_find_named(r@, d as int, t as int, i as int) == Some(i as int));
            }
            return Some(i);
        }
        i = i + 1;
    }
    None
}

/// Read string `k` of a string table block.
fn table_string(t: &Vec<u8>, k: u32) -> (res: Option<Vec<u16>>)
    ensures
        match res {
            Some(w) => spec_table_string(t@, k as int) == Some(w@),
            None => spec_table_string(t@, k as int) is None,
        },
{
    let len = t.len();
    let mut p: u64 = 0;
    let mut m: u32 = 0;
    while m < k
        invariant
            len == t@.len(),
            m <= k,
            spec_str_off(t@, m as int) == Some(p as int),
            p <= t@.len(),
        decreases k - m,
    {
        let avail = len as u64 - p;
        if avail < 2 {
            proof {
                assert(spec_str_off(t@, m as int + 1) is None);
                lemma_str_off_none(t@, m as int + 1, k as int);
            }
            return None;
        }
        let n = read_u16(t.as_slice(), p as usize);
        if 2 * (n as u64) > avail - 2 {
            proof {
                assert(spec_str_off(t@, m as int + 1) is None);
                lemma_str_off_none(t@, m as int + 1, k as int);
            }
            return None;
        }
        p = p + 2 + 2 * (n as u64);
        m = m + 1;
    }
    let avail = len as u64 - p;
    if avail < 2 {
        return None;
    }
    let n = read_u16(t.as_slice(), p as usize);
    if 2 * (n as u64) > avail - 2 {
        return None;
    }
    let mut w: Vec<u16> = Vec::new();
    let mut j: usize = 0;
    while j < n as usize
        invariant
            len == t@.len(),
            p + 2 + 2 * (n as u64) <= t@.len(),
            j <= n as usize,
            w@.len() == j,
            forall|q: int| 0 <= q < j ==> w@[q] == le16(t@, p as int + 2 + 2 * q) as u16,
        decreases n as usize - j,
    {
        w.push(read_u16(t.as_slice(), p as usize + 2 + 2 * j));
        j = j + 1;
    }
    proof {
        assert(w@ =~= spec_wide_words(t@, p as int + 2, n as int));
    }
    Some(w)
}

/// Look up the string table entry of `sid`.
fn string_words(r: &[u8], rva: u32, sid: u32) -> (res: Option<Vec<u16>>)
    ensures
        match res {
            Some(w) => spec_string_words(r@, rva as int, sid as int) == Some(w@),
            None => spec_string_words(r@, rva as int, sid as int) is None,
        },
{
    let td = match find_type_dir(r, RT_STRING) {
        None => {
            return None;
        },
        Some(td) => td,
    };
    let i = match find_named(r, td, sid / 16 + 1) {
        None => {
            return None;
        },
        Some(i) => i,
    };
    let tb = match first_data(r, rva, td, i) {
        None => {
            return None;
        },
        Some(v) => v,
    };
    table_string(&tb, sid % 16)
}

/// Look up the raw data resource of `sid`.
fn rcdata_bytes(r: &[u8], rva: u32, sid: u32) -> (res: Option<Vec<u8>>)
    ensures
        match res {
            Some(v) => spec_rcdata_bytes(r@, rva as int, sid as int) == Some(v@),
            None => spec_rcdata_bytes(r@, rva as int, sid as int) is None,
        },
{
    let td = match find_type_dir(r, RT_RCDATA) {
        None => {
            return None;
        },
        Some(td) => td,
    };
    let i = match find_named(r, td, sid) {
        None => {
            return None;
        },
        Some(i) => i,
    };
    first_data(r, rva, td, i)
}

/// Extract a text resource by id: the string table entry of the id's
/// magnitude when present and non-empty, else the raw data resource of
/// that magnitude read as UTF-8 with replacement.
pub fn get_dll_txt(bin: &[u8], id: i32) -> (res: Result<String, ExtractError>)
    ensures
        match res {
            Ok(s) => spec_get_dll_txt(bin@, id) == Ok::<Seq<char>, ExtractError>(s@),
            Err(e) => spec_get_dll_txt(bin@, id) == Err::<Seq<char>, ExtractError>(e),
        },
{
    let (off, n, rva) = match resources_of(bin) {
        Err(e) => {
            return Err(e);
        },
        Ok(t) => t,
    };
    let len = bin.len();
    proof {
        assert(off + n <= len);
    }
    let r = slice_subrange(bin, off, off + n);
    let sid: u32 = if id < 0 {
        (-(id as i64)) as u32
    } else {
        id as u32
    };
    let sw = string_words(r, rva, sid);
    let use_string: bool = match &sw {
        Some(w) => w.len() > 0,
        None => false,
    };
    if use_string {
        let w = match sw {
            Some(w) => w,
            None => {
                proof {
                    assert(false);
                }
                return Err(ExtractError::BadEncoding);
            },
        };
        match utf16_to_string(&w) {
            Some(s) => Ok(s),
            None => Err(ExtractError::BadEncoding),
        }
    } else {
        match rcdata_bytes(r, rva, sid) {
            Some(bs) => Ok(utf8_lossy(&bs)),
            None => Err(ExtractError::TextNotFound(id)),
        }
    }
}

} // verus!
