//! PE header reading: little-endian field access, bitness detection, and
//! location of the resource section inside the file image.
//!
//! Offsets follow the PE layout: a 4-byte pointer at 0x3C leads to the
//! `PE\0\0` signature, a 20-byte file header follows it, and the optional
//! header's first word distinguishes PE32 (0x10B) from PE32+ (0x20B). The
//! data directory and section table positions depend on that bitness.

use vstd::prelude::*;

use crate::error::ParseError;

verus! {

/// Address width of a PE image.
#[derive(Clone, Copy, Debug, PartialEq, Eq, Structural)]
pub enum Bitness {
    Bits32,
    Bits64,
}

/// The little-endian 16-bit value stored at byte offset `i`.
pub open spec fn le16(b: Seq<u8>, i: int) -> int {
    b[i] + 0x100 * b[i + 1]
}

/// The little-endian 32-bit value stored at byte offset `i`.
pub open spec fn le32(b: Seq<u8>, i: int) -> int {
    b[i] + 0x100 * b[i + 1] + 0x10000 * b[i + 2] + 0x1000000 * b[i + 3]
}

/// Read a little-endian 16-bit field.
pub(crate) fn read_u16(b: &[u8], off: usize) -> (r: u16)
    requires
        off + 2 <= b@.len(),
    ensures
        r == le16(b@, off as int),
{
    b[off] as u16 + 0x100 * (b[off + 1] as u16)
}

/// Read a little-endian 32-bit field.
pub(crate) fn read_u32(b: &[u8], off: usize) -> (r: u32)
    requires
        off + 4 <= b@.len(),
    ensures
        r == le32(b@, off as int),
{
    b[off] as u32 + 0x100 * (b[off + 1] as u32) + 0x10000 * (b[off + 2] as u32) + 0x1000000 * (b[
        off + 3] as u32)
}

/// Offset of the PE signature: the 32-bit pointer stored at 0x3C.
pub open spec fn spec_pe_off(b: Seq<u8>) -> int {
    le32(b, 0x3c)
}

/// Whether the four signature bytes at the PE offset read `PE\0\0`.
pub open spec fn spec_sig_ok(b: Seq<u8>) -> bool {
    let p = spec_pe_off(b);
    b[p] == 0x50 && b[p + 1] == 0x45 && b[p + 2] == 0 && b[p + 3] == 0
}

/// The optional header magic word.
pub open spec fn spec_magic(b: Seq<u8>) -> int {
    le16(b, spec_pe_off(b) + 24)
}

/// What bitness detection yields on any byte buffer: the header pointer,
/// signature and magic checks in order, with the error each failed check
/// produces.
pub open spec fn spec_detect_bitness(b: Seq<u8>) -> Result<Bitness, ParseError> {
    if b.len() < 0x40 {
        Err(ParseError::UnexpectedEof)
    } else if spec_pe_off(b) + 26 > b.len() {
        Err(ParseError::UnexpectedEof)
    } else if !spec_sig_ok(b) {
        Err(ParseError::InvalidSignature)
    } else if spec_magic(b) == 0x10b {
        Ok(Bitness::Bits32)
    } else if spec_magic(b) == 0x20b {
        Ok(Bitness::Bits64)
    } else {
        Err(ParseError::UnknownMagic(spec_magic(b) as u16))
    }
}

/// Determine whether a byte buffer is a 32-bit or 64-bit PE image.
///
/// Reads the header pointer at 0x3C, verifies the `PE\0\0` signature, and
/// inspects the optional header magic. Every read is bounds-checked, so a
/// truncated buffer fails with `UnexpectedEof` and never panics.
pub fn detect_bitness(bytes: &[u8]) -> (r: Result<Bitness, ParseError>)
    ensures
        r == spec_detect_bitness(bytes@),
{
    if bytes.len() < 0x40 {
        return Err(ParseError::UnexpectedEof);
    }
    let pe = read_u32(bytes, 0x3c);
    if pe as u64 + 26 > bytes.len() as u64 {
        return Err(ParseError::UnexpectedEof);
    }
    let p = pe as usize;
    if !(bytes[p] == 0x50 && bytes[p + 1] == 0x45 && bytes[p + 2] == 0 && bytes[p + 3] == 0) {
        return Err(ParseError::InvalidSignature);
    }
    let magic = read_u16(bytes, p + 24);
    if magic == 0x10b {
        Ok(Bitness::Bits32)
    } else if magic == 0x20b {
        Ok(Bitness::Bits64)
    } else {
        Err(ParseError::UnknownMagic(magic))
    }
}

/// Number of sections, from the file header.
pub open spec fn spec_nsections(b: Seq<u8>) -> int {
    le16(b, spec_pe_off(b) + 6)
}

/// Start of the optional header.
pub open spec fn spec_opt_off(b: Seq<u8>) -> int {
    spec_pe_off(b) + 24
}

/// Start of the section table: the optional header plus its declared size.
pub open spec fn spec_sec_off(b: Seq<u8>) -> int {
    spec_opt_off(b) + le16(b, spec_pe_off(b) + 20)
}

/// Start of the data directory array; its position depends on bitness.
pub open spec fn spec_dd_base(b: Seq<u8>) -> int {
    if spec_magic(b) == 0x10b {
        spec_opt_off(b) + 96
    } else {
        spec_opt_off(b) + 112
    }
}

/// The declared count of data directory entries, capped at the standard 16.
pub open spec fn spec_ndirs(b: Seq<u8>) -> int {
    let n = le32(b, spec_dd_base(b) - 4);
    if n < 16 {
        n
    } else {
        16
    }
}

/// Whether the headers parse and every table the walker needs lies inside
/// the buffer: the data directory array and the whole section table.
pub open spec fn spec_layout_ok(b: Seq<u8>) -> bool {
    &&& spec_detect_bitness(b) is Ok
    &&& spec_dd_base(b) <= b.len()
    &&& spec_dd_base(b) + 8 * spec_ndirs(b) <= b.len()
    &&& spec_sec_off(b) + 40 * spec_nsections(b) <= b.len()
}

/// Header parsing as a whole: the bitness check first, then the bounds of
/// the directory and section tables, any of which failing is a truncation.
pub open spec fn spec_parse(b: Seq<u8>) -> Result<Bitness, ParseError> {
    match spec_detect_bitness(b) {
        Err(e) => Err(e),
        Ok(bits) => if spec_layout_ok(b) {
            Ok(bits)
        } else {
            Err(ParseError::UnexpectedEof)
        },
    }
}

/// Validated header positions of one image.
pub struct Layout {
    pub bitness: Bitness,
    /// Number of sections.
    pub nsections: u16,
    /// File offset of the section table.
    pub sec_off: u64,
    /// File offset of the data directory array.
    pub dd_base: u64,
    /// Capped count of data directory entries.
    pub ndirs: u32,
}

impl Layout {
    /// The fields hold the positions that the byte buffer determines.
    pub open spec fn matches(self, b: Seq<u8>) -> bool {
        &&& spec_layout_ok(b)
        &&& Ok::<Bitness, ParseError>(self.bitness) == spec_detect_bitness(b)
        &&& self.nsections == spec_nsections(b)
        &&& self.sec_off == spec_sec_off(b)
        &&& self.dd_base == spec_dd_base(b)
        &&& self.ndirs == spec_ndirs(b)
    }
}

/// Parse the PE headers and return the table positions.
pub(crate) fn parse_layout(bytes: &[u8]) -> (r: Result<Layout, ParseError>)
    ensures
        match r {
            Ok(l) => l.matches(bytes@) && spec_parse(bytes@) == Ok::<Bitness, ParseError>(
                l.bitness,
            ),
            Err(e) => spec_parse(bytes@) == Err::<Bitness, ParseError>(e),
        },
{
    let bitness = match detect_bitness(bytes) {
        Ok(bits) => bits,
        Err(e) => {
            return Err(e);
        },
    };
    let len = bytes.len();
    proof {
        assert(spec_pe_off(bytes@) + 26 <= bytes@.len());
    }
    let pe = read_u32(bytes, 0x3c) as u64;
    let opt = pe + 24;
    let nsections = read_u16(bytes, pe as usize + 6);
    let opt_size = read_u16(bytes, pe as usize + 20);
    let sec_off = opt + opt_size as u64;
    let dd_base: u64 = match bitness {
        Bitness::Bits32 => opt + 96,
        Bitness::Bits64 => opt + 112,
    };
    if dd_base > len as u64 {
        return Err(ParseError::UnexpectedEof);
    }
    let ndirs_raw = read_u32(bytes, dd_base as usize - 4);
    let ndirs: u32 = if ndirs_raw < 16 {
        ndirs_raw
    } else {
        16
    };
    if dd_base + 8 * ndirs as u64 > len as u64 {
        return Err(ParseError::UnexpectedEof);
    }
    if sec_off + 40 * nsections as u64 > len as u64 {
        return Err(ParseError::UnexpectedEof);
    }
    Ok(Layout { bitness, nsections, sec_off, dd_base, ndirs })
}

} // verus!
