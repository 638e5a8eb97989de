//! The icon assembler: pairing icon group records with their raw icon
//! images and producing complete ICO file bytes.
//!
//! An ICO file is a 6-byte header (reserved, type, count), one 16-byte
//! directory entry per image, and the concatenated image payloads. A group
//! record holds the same header and 14-byte entries whose last word is the
//! raw icon's resource id; assembly copies the first 12 bytes of each
//! entry and replaces the id with the payload's accumulated file offset.

use vstd::prelude::*;

use crate::error::AssembleError;
use crate::pe::{le16, le32, read_u16, read_u32};
use crate::rsrc::{spec_grp_valid, RawIcon};
use vstd::arithmetic::div_mod::{lemma_div_denominator, lemma_fundamental_div_mod,
    lemma_mod_bound, lemma_small_mod};
use vstd::slice::{slice_subrange, slice_to_vec};

verus! {

/// Entry count of a group record.
pub open spec fn grp_count(g: Seq<u8>) -> int {
    le16(g, 4)
}

/// Raw icon id of group entry `j`.
pub open spec fn grp_entry_id(g: Seq<u8>, j: int) -> int {
    le16(g, 6 + 14 * j + 12)
}

/// Declared byte count of group entry `j`.
pub open spec fn grp_entry_size(g: Seq<u8>, j: int) -> int {
    le32(g, 6 + 14 * j + 8)
}

/// The data of the first raw icon carrying `id`, if any.
pub open spec fn spec_lookup(icons: Seq<(int, Seq<u8>)>, id: int) -> Option<Seq<u8>>
    decreases icons.len(),
{
    if icons.len() == 0 {
        None
    } else if icons[0].0 == id {
        Some(icons[0].1)
    } else {
        spec_lookup(icons.drop_first(), id)
    }
}

/// Sum of the declared byte counts of group entries before `j`.
pub open spec fn spec_size_sum(g: Seq<u8>, j: int) -> int
    decreases j,
{
    if j <= 0 {
        0
    } else {
        spec_size_sum(g, j - 1) + grp_entry_size(g, j - 1)
    }
}

/// File offset at which the payload of entry `j` starts: the header, the
/// whole directory, and every earlier payload.
pub open spec fn spec_entry_offset(g: Seq<u8>, j: int) -> int {
    6 + 16 * grp_count(g) + spec_size_sum(g, j)
}

/// What stops assembly at entry `j`, if anything: a missing raw icon, a
/// payload whose length differs from the declared byte count, or an
/// accumulated offset beyond the 32-bit offset field.
pub open spec fn spec_entry_err(g: Seq<u8>, icons: Seq<(int, Seq<u8>)>, j: int) -> Option<
    AssembleError,
> {
    let id = grp_entry_id(g, j);
    match spec_lookup(icons, id) {
        None => Some(AssembleError::MissingIcon(id as u16)),
        Some(p) => if p.len() != grp_entry_size(g, j) {
            Some(AssembleError::SizeMismatch(id as u16))
        } else if spec_entry_offset(g, j) + grp_entry_size(g, j) > 0xffffffff {
            Some(AssembleError::TooLarge)
        } else {
            None
        },
    }
}

/// The first assembly error among entries at or after `j`.
pub open spec fn spec_first_err(g: Seq<u8>, icons: Seq<(int, Seq<u8>)>, j: int) -> Option<
    AssembleError,
>
    decreases grp_count(g) - j,
{
    if j >= grp_count(g) {
        None
    } else {
        match spec_entry_err(g, icons, j) {
            Some(e) => Some(e),
            None => spec_first_err(g, icons, j + 1),
        }
    }
}

/// The four little-endian bytes of a 32-bit value.
#[verifier::opaque]
pub open spec fn le32_bytes(v: int) -> Seq<u8> {
    seq![
        (v % 256) as u8,
        ((v / 256) % 256) as u8,
        ((v / 65536) % 256) as u8,
        ((v / 16777216) % 256) as u8,
    ]
}

/// The 16-byte ICO directory entry for group entry `j`: the entry's first
/// 12 bytes, then the payload's file offset.
pub open spec fn spec_dir_entry(g: Seq<u8>, j: int) -> Seq<u8> {
    g.subrange(6 + 14 * j, 6 + 14 * j + 12) + le32_bytes(spec_entry_offset(g, j))
}

/// The concatenated ICO directory entries before `j`.
pub open spec fn spec_dir_bytes(g: Seq<u8>, j: int) -> Seq<u8>
    decreases j,
{
    if j <= 0 {
        Seq::empty()
    } else {
        spec_dir_bytes(g, j - 1) + spec_dir_entry(g, j - 1)
    }
}

/// The concatenated payloads of group entries before `j`.
pub open spec fn spec_payload_bytes(g: Seq<u8>, icons: Seq<(int, Seq<u8>)>, j: int) -> Seq<u8>
    decreases j,
{
    if j <= 0 {
        Seq::empty()
    } else {
        spec_payload_bytes(g, icons, j - 1) + spec_lookup(icons, grp_entry_id(g, j - 1))->Some_0
    }
}

/// The complete assembled ICO file: the group's own 6-byte header, the
/// directory, and the payloads.
pub open spec fn spec_assembled(g: Seq<u8>, icons: Seq<(int, Seq<u8>)>) -> Seq<u8> {
    g.subrange(0, 6) + spec_dir_bytes(g, grp_count(g)) + spec_payload_bytes(
        g,
        icons,
        grp_count(g),
    )
}

/// What assembling a group against a set of raw icons yields: the ICO
/// bytes, or the first error in entry order.
pub open spec fn spec_assemble(g: Seq<u8>, icons: Seq<(int, Seq<u8>)>) -> Result<
    Seq<u8>,
    AssembleError,
> {
    if !spec_grp_valid(g) {
        Err(AssembleError::BadGroup)
    } else {
        match spec_first_err(g, icons, 0) {
            Some(e) => Err(e),
            None => Ok(spec_assembled(g, icons)),
        }
    }
}

/// The raw icons as a specification-level association list.
pub open spec fn icons_view(s: Seq<RawIcon>) -> Seq<(int, Seq<u8>)> {
    Seq::new(s.len(), |j: int| (s[j].id as int, s[j].data@))
}

/// Find the first raw icon carrying `id`.
fn lookup_icon<'a>(icons: &'a Vec<RawIcon>, id: u16) -> (res: Option<&'a Vec<u8>>)
    ensures
        match res {
            Some(v) => spec_lookup(icons_view(icons@), id as int) == Some(v@),
            None => spec_lookup(icons_view(icons@), id as int) is None,
        },
{
    let ghost iv = icons_view(icons@);
    proof {
        assert(iv.skip(0) =~= iv);
    }
    let mut k: usize = 0;
    while k < icons.len()
        invariant
            iv == icons_view(icons@),
            k <= icons@.len(),
            spec_lookup(iv, id as int) == spec_lookup(iv.skip(k as int), id as int),
        decreases icons@.len() - k,
    {
        proof {
            assert(iv.skip(k as int).len() > 0);
            assert(iv.skip(k as int)[0] == iv[k as int]);
        }
        if icons[k].id == id as u32 {
            return Some(&icons[k].data);
        }
        proof {
            assert(iv.skip(k as int).drop_first() =~= iv.skip(k as int + 1));
        }
        k = k + 1;
    }
    proof {
        assert(iv.skip(k as int).len() == 0);
    }
    None
}

/// Build a valid ICO container from one group record, taking the image
/// bytes of each member from the raw icon list.
///
/// Fails, without output, on a malformed group record, on a member whose
/// raw icon is absent or whose length differs from the declared byte
/// count, and on offsets beyond the 32-bit field; a consumer of the
/// returned bytes needs no repair.
#[verifier::rlimit(100)]
pub fn assemble(group: &[u8], icons: &Vec<RawIcon>) -> (res: Result<Vec<u8>, AssembleError>)
    ensures
        match res {
            Ok(v) => spec_assemble(group@, icons_view(icons@)) == Ok::<Seq<u8>, AssembleError>(v@),
            Err(e) => spec_assemble(group@, icons_view(icons@)) == Err::<Seq<u8>, AssembleError>(
                e,
            ),
        },
{
    let ghost g = group@;
    let ghost iv = icons_view(icons@);
    if group.len() < 6 {
        return Err(AssembleError::BadGroup);
    }
    let reserved = read_u16(group, 0);
    let ty = read_u16(group, 2);
    let c = read_u16(group, 4);
    if !(reserved == 0 && ty == 1 && group.len() as u64 == 6 + 14 * c as u64) {
        return Err(AssembleError::BadGroup);
    }
    proof {
        assert(spec_grp_valid(g));
    }
    let mut out: Vec<u8> = slice_to_vec(slice_subrange(group, 0, 6));
    let mut acc: u64 = 6 + 16 * c as u64;
    let mut j: usize = 0;
    while j < c as usize
        invariant
            g == group@,
            iv == icons_view(icons@),
            spec_grp_valid(g),
            c == grp_count(g),
            j <= c,
            acc == spec_entry_offset(g, j as int),
            acc <= 0xffffffff,
            spec_first_err(g, iv, 0) == spec_first_err(g, iv, j as int),
            out@ =~= g.subrange(0, 6) + spec_dir_bytes(g, j as int),
        decreases c - j,
    {
        let id = read_u16(group, 6 + 14 * j + 12);
        let sz = read_u32(group, 6 + 14 * j + 8);
        match lookup_icon(icons, id) {
            None => {
                return Err(AssembleError::MissingIcon(id));
            },
            Some(p) => {
                if p.len() as u64 != sz as u64 {
                    return Err(AssembleError::SizeMismatch(id));
                }
                if acc + sz as u64 > 0xffffffff {
                    return Err(AssembleError::TooLarge);
                }
            },
        }
        proof {
            assert(spec_entry_err(g, iv, j as int) is None);
        }
        let mut piece = slice_to_vec(slice_subrange(group, 6 + 14 * j, 6 + 14 * j + 12));
        out.append(&mut piece);
        let off = acc as u32;
        out.push((off % 256) as u8);
        out.push(((off / 256) % 256) as u8);
        out.push(((off / 65536) % 256) as u8);
        out.push(((off / 16777216) % 256) as u8);
        proof {
            reveal(le32_bytes);
            assert(out@ =~= g.subrange(0, 6) + spec_dir_bytes(g, j as int) + spec_dir_entry(
                g,
                j as int,
            ));
            assert(out@ =~= g.subrange(0, 6) + spec_dir_bytes(g, j as int + 1));
        }
        acc = acc + sz as u64;
        j = j + 1;
    }
    proof {
        assert(spec_first_err(g, iv, 0) is None);
    }
    let mut j: usize = 0;
    while j < c as usize
        invariant
            g == group@,
            iv == icons_view(icons@),
            spec_grp_valid(g),
            c == grp_count(g),
            j <= c,
            spec_first_err(g, iv, 0) is None,
            out@ =~= g.subrange(0, 6) + spec_dir_bytes(g, grp_count(g)) + spec_payload_bytes(
                g,
                iv,
                j as int,
            ),
        decreases c - j,
    {
        proof {
            lemma_no_err_entry(g, iv, 0, j as int);
        }
        let id = read_u16(group, 6 + 14 * j + 12);
        match lookup_icon(icons, id) {
            None => {
                proof {
                    assert(false);
                }
            },
            Some(p) => {
                let mut piece = slice_to_vec(p.as_slice());
                out.append(&mut piece);
            },
        }
        proof {
            assert(out@ =~= g.subrange(0, 6) + spec_dir_bytes(g, grp_count(g))
                + spec_payload_bytes(g, iv, j as int + 1));
        }
        j = j + 1;
    }
    proof {
        assert(out@ =~= spec_assembled(g, iv));
    }
    Ok(out)
}

/// Entry count an ICO reader sees in assembled bytes.
pub open spec fn ico_count(v: Seq<u8>) -> int {
    le16(v, 4)
}

/// Width byte of directory entry `j` of an ICO file.
pub open spec fn ico_entry_width(v: Seq<u8>, j: int) -> int {
    v[6 + 16 * j] as int
}

/// Height byte of directory entry `j` of an ICO file.
pub open spec fn ico_entry_height(v: Seq<u8>, j: int) -> int {
    v[6 + 16 * j + 1] as int
}

/// Bit count word of directory entry `j` of an ICO file.
pub open spec fn ico_entry_bit_count(v: Seq<u8>, j: int) -> int {
    le16(v, 6 + 16 * j + 6)
}

/// Byte count field of directory entry `j` of an ICO file.
pub open spec fn ico_entry_bytes(v: Seq<u8>, j: int) -> int {
    le32(v, 6 + 16 * j + 8)
}

/// Width byte of group entry `j`.
pub open spec fn grp_entry_width(g: Seq<u8>, j: int) -> int {
    g[6 + 14 * j] as int
}

/// Height byte of group entry `j`.
pub open spec fn grp_entry_height(g: Seq<u8>, j: int) -> int {
    g[6 + 14 * j + 1] as int
}

/// Bit count word of group entry `j`.
pub open spec fn grp_entry_bit_count(g: Seq<u8>, j: int) -> int {
    le16(g, 6 + 14 * j + 6)
}

/// A 32-bit value's little-endian form holds four bytes.
proof fn lemma_le32_bytes_len(v: int)
    ensures
        le32_bytes(v).len() == 4,
{
    reveal(le32_bytes);
}

/// The concatenated directory entries before `j` hold 16 bytes per entry.
proof fn lemma_dir_bytes_len(g: Seq<u8>, j: int)
    requires
        spec_grp_valid(g),
        0 <= j <= grp_count(g),
    ensures
        spec_dir_bytes(g, j).len() == 16 * j,
    decreases j,
{
    if j > 0 {
        lemma_dir_bytes_len(g, j - 1);
        lemma_le32_bytes_len(spec_entry_offset(g, j - 1));
    }
}

/// Byte `t` of directory entry `m` inside the concatenated directory.
#[verifier::rlimit(100)]
proof fn lemma_dir_bytes_index(g: Seq<u8>, j: int, m: int, t: int)
    requires
        spec_grp_valid(g),
        0 <= m < j <= grp_count(g),
        0 <= t < 16,
    ensures
        spec_dir_bytes(g, j).len() == 16 * j,
        spec_dir_bytes(g, j)[16 * m + t] == spec_dir_entry(g, m)[t],
    decreases j,
{
    lemma_dir_bytes_len(g, j);
    lemma_dir_bytes_len(g, j - 1);
    if m < j - 1 {
        lemma_dir_bytes_index(g, j - 1, m, t);
    }
}

/// Offset field of directory entry `j` of an ICO file.
pub open spec fn ico_entry_offset(v: Seq<u8>, j: int) -> int {
    le32(v, 6 + 16 * j + 12)
}

/// A value below 2^32 is recovered from its four little-endian bytes.
proof fn lemma_le32_bytes_value(x: int)
    requires
        0 <= x < 0x100000000,
    ensures
        ({
            let s = le32_bytes(x);
            s[0] + 0x100 * s[1] + 0x10000 * s[2] + 0x1000000 * s[3] == x
        }),
{
    reveal(le32_bytes);
    lemma_fundamental_div_mod(x, 256);
    lemma_fundamental_div_mod(x / 256, 256);
    lemma_fundamental_div_mod(x / 65536, 256);
    lemma_div_denominator(x, 256, 256);
    lemma_div_denominator(x, 65536, 256);
    lemma_mod_bound(x, 256);
    lemma_mod_bound(x / 256, 256);
    lemma_mod_bound(x / 65536, 256);
    assert(x / 16777216 < 256) by (nonlinear_arith)
        requires
            0 <= x < 0x100000000,
    ;
    assert(x / 16777216 >= 0) by (nonlinear_arith)
        requires
            x >= 0,
    ;
    lemma_small_mod((x / 16777216) as nat, 256);
}

/// Byte counts of group entries are never negative, so their partial sums
/// grow with the index.
proof fn lemma_size_sum_mono(g: Seq<u8>, i: int, j: int)
    requires
        0 <= i <= j,
    ensures
        spec_size_sum(g, i) <= spec_size_sum(g, j),
    decreases j - i,
{
    if i < j {
        lemma_size_sum_mono(g, i, j - 1);
    }
}

/// When assembly errs nowhere, the payloads before `j` hold exactly the
/// declared byte counts.
proof fn lemma_payload_bytes_len(g: Seq<u8>, icons: Seq<(int, Seq<u8>)>, j: int)
    requires
        spec_grp_valid(g),
        spec_first_err(g, icons, 0) is None,
        0 <= j <= grp_count(g),
    ensures
        spec_payload_bytes(g, icons, j).len() == spec_size_sum(g, j),
    decreases j,
{
    if j > 0 {
        lemma_payload_bytes_len(g, icons, j - 1);
        lemma_no_err_entry(g, icons, 0, j - 1);
    }
}

/// Byte `m` of the concatenated payloads, for `m` inside the span of
/// entry `j`, comes from entry `j`'s own payload.
proof fn lemma_payload_index(g: Seq<u8>, icons: Seq<(int, Seq<u8>)>, j: int, k: int, m: int)
    requires
        spec_grp_valid(g),
        spec_first_err(g, icons, 0) is None,
        0 <= j < k <= grp_count(g),
        spec_size_sum(g, j) <= m < spec_size_sum(g, j) + grp_entry_size(g, j),
    ensures
        spec_payload_bytes(g, icons, k)[m] == spec_lookup(icons, grp_entry_id(g, j))->Some_0[m
            - spec_size_sum(g, j)],
    decreases k,
{
    lemma_no_err_entry(g, icons, 0, j);
    lemma_payload_bytes_len(g, icons, k - 1);
    lemma_size_sum_mono(g, 0, j);
    let p = spec_lookup(icons, grp_entry_id(g, j))->Some_0;
    let whole = spec_payload_bytes(g, icons, k - 1) + spec_lookup(
        icons,
        grp_entry_id(g, k - 1),
    )->Some_0;
    assert(spec_payload_bytes(g, icons, k) == whole);
    if j == k - 1 {
        assert(whole[m] == p[m - spec_size_sum(g, j)]);
    } else {
        lemma_size_sum_mono(g, j + 1, k - 1);
        lemma_payload_index(g, icons, j, k - 1, m);
        assert(spec_size_sum(g, j) + grp_entry_size(g, j) == spec_size_sum(g, j + 1));
        assert(m < spec_payload_bytes(g, icons, k - 1).len());
        assert(whole[m] == spec_payload_bytes(g, icons, k - 1)[m]);
    }
}

/// Byte `t` of the offset field of entry `j` in the assembled file.
#[verifier::rlimit(100)]
proof fn lemma_assembled_offset_byte(g: Seq<u8>, icons: Seq<(int, Seq<u8>)>, j: int, t: int)
    requires
        spec_grp_valid(g),
        0 <= j < grp_count(g),
        0 <= t < 4,
    ensures
        spec_assembled(g, icons)[6 + 16 * j + 12 + t] == le32_bytes(spec_entry_offset(g, j))[t],
{
    let v = spec_assembled(g, icons);
    let c = grp_count(g);
    let head = g.subrange(0, 6);
    let dir = spec_dir_bytes(g, c);
    let pay = spec_payload_bytes(g, icons, c);
    lemma_dir_bytes_len(g, c);
    lemma_dir_bytes_index(g, c, j, 12 + t);
    lemma_le32_bytes_len(spec_entry_offset(g, j));
    assert(v == (head + dir) + pay);
    assert(6 + 16 * j + 12 + t < (head + dir).len());
    assert(v[6 + 16 * j + 12 + t] == (head + dir)[6 + 16 * j + 12 + t]);
    assert((head + dir)[6 + 16 * j + 12 + t] == dir[16 * j + 12 + t]);
    assert(g.subrange(6 + 14 * j, 6 + 14 * j + 12).len() == 12);
    assert(spec_dir_entry(g, j)[12 + t] == le32_bytes(spec_entry_offset(g, j))[t]);
}

/// Round trip of assembly: re-parsing assembled ICO bytes with an ICO
/// reader yields the same entry count as the group record, and for every
/// entry the same width, height, bit count and byte length the group
/// record declares; each entry's offset field points at exactly its own
/// payload, whose bytes follow unchanged, so a consumer needs no repair.
pub proof fn lemma_assemble_round_trip(g: Seq<u8>, icons: Seq<(int, Seq<u8>)>)
    requires
        spec_assemble(g, icons) is Ok,
    ensures
        ({
            let v = spec_assemble(g, icons)->Ok_0;
            &&& ico_count(v) == grp_count(g)
            &&& v.len() == spec_entry_offset(g, grp_count(g))
            &&& forall|j: int|
                0 <= j < grp_count(g) ==> #[trigger] ico_entry_width(v, j) == grp_entry_width(g, j)
                    && ico_entry_height(v, j) == grp_entry_height(g, j) && ico_entry_bit_count(
                    v,
                    j,
                ) == grp_entry_bit_count(g, j) && ico_entry_bytes(v, j) == grp_entry_size(g, j)
            &&& forall|j: int|
                0 <= j < grp_count(g) ==> #[trigger] ico_entry_offset(v, j) == spec_entry_offset(
                    g,
                    j,
                )
            &&& forall|j: int|
                0 <= j < grp_count(g) ==> v.subrange(
                    spec_entry_offset(g, j),
                    spec_entry_offset(g, j) + #[trigger] grp_entry_size(g, j),
                ) == spec_lookup(icons, grp_entry_id(g, j))->Some_0
        }),
{
    let v = spec_assemble(g, icons)->Ok_0;
    let c = grp_count(g);
    let head = g.subrange(0, 6);
    let dir = spec_dir_bytes(g, c);
    let pay = spec_payload_bytes(g, icons, c);
    assert(v == head + dir + pay);
    lemma_dir_bytes_len(g, c);
    lemma_payload_bytes_len(g, icons, c);
    assert(v.len() == spec_entry_offset(g, c));
    assert(ico_count(v) == grp_count(g)) by {
        assert(v[4] == head[4] && v[5] == head[5]);
    }
    assert forall|j: int| 0 <= j < c implies #[trigger] ico_entry_offset(v, j)
        == spec_entry_offset(g, j) by {
        lemma_assembled_offset_byte(g, icons, j, 0);
        lemma_assembled_offset_byte(g, icons, j, 1);
        lemma_assembled_offset_byte(g, icons, j, 2);
        lemma_assembled_offset_byte(g, icons, j, 3);
        lemma_no_err_entry(g, icons, 0, j);
        lemma_size_sum_mono(g, 0, j);
        lemma_le32_bytes_value(spec_entry_offset(g, j));
    }
    assert forall|j: int| 0 <= j < c implies v.subrange(
        spec_entry_offset(g, j),
        spec_entry_offset(g, j) + #[trigger] grp_entry_size(g, j),
    ) == spec_lookup(icons, grp_entry_id(g, j))->Some_0 by {
        lemma_no_err_entry(g, icons, 0, j);
        lemma_size_sum_mono(g, 0, j);
        lemma_size_sum_mono(g, j + 1, c);
        let off = spec_entry_offset(g, j);
        let sz = grp_entry_size(g, j);
        let p = spec_lookup(icons, grp_entry_id(g, j))->Some_0;
        assert(off + sz <= v.len());
        assert forall|m: int| 0 <= m < sz implies v[off + m] == p[m] by {
            lemma_payload_index(g, icons, j, c, spec_size_sum(g, j) + m);
            assert((head + dir).len() == 6 + 16 * c);
            assert(v[off + m] == pay[spec_size_sum(g, j) + m]);
        }
        assert(v.subrange(off, off + sz) =~= p);
    }
    assert forall|j: int| 0 <= j < c implies #[trigger] ico_entry_width(v, j) == grp_entry_width(
        g,
        j,
    ) && ico_entry_height(v, j) == grp_entry_height(g, j) && ico_entry_bit_count(v, j)
        == grp_entry_bit_count(g, j) && ico_entry_bytes(v, j) == grp_entry_size(g, j) by {
        lemma_assembled_byte(g, icons, j, 0);
        lemma_assembled_byte(g, icons, j, 1);
        lemma_assembled_byte(g, icons, j, 6);
        lemma_assembled_byte(g, icons, j, 7);
        lemma_assembled_byte(g, icons, j, 8);
        lemma_assembled_byte(g, icons, j, 9);
        lemma_assembled_byte(g, icons, j, 10);
        lemma_assembled_byte(g, icons, j, 11);
    }
}

/// Byte `t` of the 12 copied bytes of entry `j` stands unchanged in the
/// assembled file, shifted from the 14-byte to the 16-byte record pitch.
#[verifier::rlimit(100)]
proof fn lemma_assembled_byte(g: Seq<u8>, icons: Seq<(int, Seq<u8>)>, j: int, t: int)
    requires
        spec_grp_valid(g),
        0 <= j < grp_count(g),
        0 <= t < 12,
    ensures
        spec_assembled(g, icons)[6 + 16 * j + t] == g[6 + 14 * j + t],
{
    let v = spec_assembled(g, icons);
    let c = grp_count(g);
    let head = g.subrange(0, 6);
    let dir = spec_dir_bytes(g, c);
    let pay = spec_payload_bytes(g, icons, c);
    lemma_dir_bytes_len(g, c);
    lemma_dir_bytes_index(g, c, j, t);
    assert(v == (head + dir) + pay);
    assert(6 + 16 * j + t < (head + dir).len());
    assert(v[6 + 16 * j + t] == (head + dir)[6 + 16 * j + t]);
    assert((head + dir)[6 + 16 * j + t] == dir[16 * j + t]);
    assert(g.subrange(6 + 14 * j, 6 + 14 * j + 12).len() == 12);
    assert(spec_dir_entry(g, j)[t] == g.subrange(6 + 14 * j, 6 + 14 * j + 12)[t]);
    assert(g.subrange(6 + 14 * j, 6 + 14 * j + 12)[t] == g[6 + 14 * j + t]);
}

/// When no entry at or after `i` errs, entry `j` at or after `i` does not
/// err either.
proof fn lemma_no_err_entry(g: Seq<u8>, icons: Seq<(int, Seq<u8>)>, i: int, j: int)
    requires
        spec_first_err(g, icons, i) is None,
        i <= j < grp_count(g),
    ensures
        spec_entry_err(g, icons, j) is None,
    decreases j - i,
{
    if i < j {
        lemma_no_err_entry(g, icons, i + 1, j);
    }
}

} // verus!
