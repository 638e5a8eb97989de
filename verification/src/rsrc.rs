//! The resource directory walker.
//!
//! A PE resource tree has three levels — type, name/id, language — whose
//! directories and entries live in one resource section. All offsets inside
//! the tree are relative to that section's start, except leaf data entries,
//! which hold virtual addresses relative to the image base. Entries whose
//! data cannot be decoded (corrupt lengths, references outside the image)
//! are skipped one by one; they never abort enumeration of the rest.

use vstd::prelude::*;

use crate::pe::{le16, le32, read_u16, read_u32, spec_dd_base, spec_ndirs, spec_nsections,
    spec_sec_off, Layout};
use vstd::slice::{slice_subrange, slice_to_vec};

verus! {

/// Resource type number of raw icon images.
pub const RT_ICON: u32 = 3;

/// Resource type number of icon group records.
pub const RT_GROUP_ICON: u32 = 14;

/// A resource name: either a numeric identifier or a UTF-16 string.
#[derive(Debug)]
pub enum ResName {
    Id(u32),
    Wide(Vec<u16>),
}

/// Specification-level resource name.
#[verifier::ext_equal]
pub enum NameV {
    Id(int),
    Wide(Seq<u16>),
}

impl View for ResName {
    type V = NameV;

    open spec fn view(&self) -> NameV {
        match self {
            ResName::Id(n) => NameV::Id(*n as int),
            ResName::Wide(w) => NameV::Wide(w@),
        }
    }
}

/// Virtual address of section `i`.
pub open spec fn spec_sec_va(b: Seq<u8>, i: int) -> int {
    le32(b, spec_sec_off(b) + 40 * i + 12)
}

/// Virtual size of section `i`.
pub open spec fn spec_sec_vsz(b: Seq<u8>, i: int) -> int {
    le32(b, spec_sec_off(b) + 40 * i + 8)
}

/// Size of raw data of section `i`.
pub open spec fn spec_sec_rsz(b: Seq<u8>, i: int) -> int {
    le32(b, spec_sec_off(b) + 40 * i + 16)
}

/// File pointer to raw data of section `i`.
pub open spec fn spec_sec_ptr(b: Seq<u8>, i: int) -> int {
    le32(b, spec_sec_off(b) + 40 * i + 20)
}

/// Whether section `i` covers the virtual address `rva`: its span is the
/// larger of virtual size and raw size, with 32-bit wraparound on the end
/// address dismissing a corrupt header.
pub open spec fn spec_sec_matches(b: Seq<u8>, i: int, rva: int) -> bool {
    let va = spec_sec_va(b, i);
    let span = if spec_sec_vsz(b, i) >= spec_sec_rsz(b, i) {
        spec_sec_vsz(b, i)
    } else {
        spec_sec_rsz(b, i)
    };
    va <= rva < (va + span) % 0x100000000
}

/// Index of the first section, at or after `i`, that covers `rva`.
pub open spec fn spec_find_sec(b: Seq<u8>, rva: int, i: int) -> Option<int>
    decreases spec_nsections(b) - i,
{
    if i >= spec_nsections(b) {
        None
    } else if spec_sec_matches(b, i, rva) {
        Some(i)
    } else {
        spec_find_sec(b, rva, i + 1)
    }
}

/// Virtual address of the resource data directory entry.
pub open spec fn spec_rsrc_rva(b: Seq<u8>) -> int {
    le32(b, spec_dd_base(b) + 16)
}

/// Declared size of the resource data directory entry.
pub open spec fn spec_rsrc_size(b: Seq<u8>) -> int {
    le32(b, spec_dd_base(b) + 20)
}

/// Where the resource section lies in the file: its file offset, its
/// length, and its virtual address. `None` when the image has no locatable
/// resource directory: too few data directory entries, a zero address, no
/// section covering it, or a section with corrupt raw-data bounds.
pub open spec fn spec_rsrc_bounds(b: Seq<u8>) -> Option<(int, int, int)> {
    if spec_ndirs(b) < 3 {
        None
    } else {
        let rva = spec_rsrc_rva(b);
        if rva == 0 {
            None
        } else {
            match spec_find_sec(b, rva, 0) {
                None => None,
                Some(i) => {
                    let ptr = spec_sec_ptr(b, i);
                    let rsz = spec_sec_rsz(b, i);
                    let off = rva - spec_sec_va(b, i);
                    if ptr + rsz >= 0x100000000 || ptr + rsz > b.len() || off > rsz {
                        None
                    } else {
                        let avail = rsz - off;
                        let n = if spec_rsrc_size(b) < avail {
                            spec_rsrc_size(b)
                        } else {
                            avail
                        };
                        Some((ptr + off, n, rva))
                    }
                },
            }
        }
    }
}

/// Locate the resource section in the file image.
#[verifier::rlimit(100)]
pub(crate) fn locate_resources(bytes: &[u8], l: &Layout) -> (res: Option<(usize, usize, u32)>)
    requires
        l.matches(bytes@),
    ensures
        match res {
            Some((off, n, rva)) => spec_rsrc_bounds(bytes@) == Some(
                (off as int, n as int, rva as int),
            ),
            None => spec_rsrc_bounds(bytes@) is None,
        },
{
    let len = bytes.len();
    if l.ndirs < 3 {
        return None;
    }
    let rva = read_u32(bytes, l.dd_base as usize + 16);
    let size = read_u32(bytes, l.dd_base as usize + 20);
    if rva == 0 {
        return None;
    }
    let mut i: u16 = 0;
    let ghost b = bytes@;
    while i < l.nsections
        invariant
            l.matches(b),
            b == bytes@,
            len == b.len(),
            i <= l.nsections,
            spec_ndirs(b) >= 3,
            rva == spec_rsrc_rva(b),
            rva != 0,
            size == spec_rsrc_size(b),
            spec_find_sec(b, rva as int, 0) == spec_find_sec(b, rva as int, i as int),
        decreases l.nsections - i,
    {
        let sbase = l.sec_off as usize + 40 * i as usize;
        let va = read_u32(bytes, sbase + 12);
        let vsz = read_u32(bytes, sbase + 8);
        let rsz = read_u32(bytes, sbase + 16);
        let ptr = read_u32(bytes, sbase + 20);
        let span: u32 = if vsz >= rsz {
            vsz
        } else {
            rsz
        };
        let end: u64 = (va as u64 + span as u64) % 0x100000000;
        if va <= rva && (rva as u64) < end {
            proof {
                assert(spec_sec_matches(b, i as int, rva as int));
                assert(spec_find_sec(b, rva as int, i as int) == Some(i as int));
            }
            if ptr as u64 + rsz as u64 >= 0x100000000 || ptr as u64 + rsz as u64 > len as u64 {
                return None;
            }
            let off = rva - va;
            if off > rsz {
                return None;
            }
            let avail = rsz - off;
            let n: u32 = if size < avail {
                size
            } else {
                avail
            };
            return Some((ptr as usize + off as usize, n as usize, rva));
        }
        proof {
            assert(!spec_sec_matches(b, i as int, rva as int));
        }
        i = i + 1;
    }
    None
}

/// Entry count of the directory table at offset `d`: named entries plus
/// id entries.
pub open spec fn spec_dir_count(r: Seq<u8>, d: int) -> int {
    le16(r, d + 12) + le16(r, d + 14)
}

/// Whether a directory table at `d` lies inside the section, header and
/// all its entries.
pub open spec fn spec_dir_valid(r: Seq<u8>, d: int) -> bool {
    &&& 0 <= d
    &&& d + 16 <= r.len()
    &&& d + 16 + 8 * spec_dir_count(r, d) <= r.len()
}

/// Name field of entry `i` of the directory at `d`.
pub open spec fn spec_ent_name(r: Seq<u8>, d: int, i: int) -> int {
    le32(r, d + 16 + 8 * i)
}

/// Offset field of entry `i` of the directory at `d`.
pub open spec fn spec_ent_off(r: Seq<u8>, d: int, i: int) -> int {
    le32(r, d + 16 + 8 * i + 4)
}

/// The `n` 16-bit words stored from offset `s`.
pub open spec fn spec_wide_words(r: Seq<u8>, s: int, n: int) -> Seq<u16> {
    Seq::new(n as nat, |k: int| le16(r, s + 2 * k) as u16)
}

/// The name of entry `i`: a numeric id when the high bit of the name field
/// is clear, else a length-prefixed UTF-16 string the field points at.
/// `None` when the string lies outside the section.
pub open spec fn spec_name_of(r: Seq<u8>, d: int, i: int) -> Option<NameV> {
    let nm = spec_ent_name(r, d, i);
    if nm < 0x80000000 {
        Some(NameV::Id(nm))
    } else {
        let s = nm - 0x80000000;
        if s + 2 <= r.len() && s + 2 + 2 * le16(r, s) <= r.len() {
            Some(NameV::Wide(spec_wide_words(r, s + 2, le16(r, s))))
        } else {
            None
        }
    }
}

/// The subdirectory entry `i` points at, when its offset field has the
/// high bit set and the subdirectory table is valid.
pub open spec fn spec_subdir_of(r: Seq<u8>, d: int, i: int) -> Option<int> {
    let o = spec_ent_off(r, d, i);
    if o >= 0x80000000 && spec_dir_valid(r, o - 0x80000000) {
        Some(o - 0x80000000)
    } else {
        None
    }
}

/// The leaf data entry `i` points at, when its offset field has the high
/// bit clear and the 16-byte data entry lies inside the section.
pub open spec fn spec_leaf_of(r: Seq<u8>, d: int, i: int) -> Option<int> {
    let o = spec_ent_off(r, d, i);
    if o < 0x80000000 && o + 16 <= r.len() {
        Some(o)
    } else {
        None
    }
}

/// The bytes a leaf data entry at `e` describes: its virtual address is
/// rebased against the section's own virtual address and its size must
/// keep the range inside the section.
pub open spec fn spec_data_bytes(r: Seq<u8>, rva: int, e: int) -> Option<Seq<u8>> {
    let drva = le32(r, e);
    let sz = le32(r, e + 4);
    if drva >= rva && (drva - rva) + sz < 0x100000000 && (drva - rva) + sz <= r.len() {
        Some(r.subrange(drva - rva, drva - rva + sz))
    } else {
        None
    }
}

/// Index of the first root entry, at or after `i`, whose name field is the
/// numeric type `t`.
pub open spec fn spec_find_type_from(r: Seq<u8>, t: int, i: int) -> Option<int>
    decreases spec_dir_count(r, 0) - i,
{
    if i >= spec_dir_count(r, 0) {
        None
    } else if spec_ent_name(r, 0, i) == t {
        Some(i)
    } else {
        spec_find_type_from(r, t, i + 1)
    }
}

/// The subdirectory of resource type `t`, reached from the root directory.
pub open spec fn spec_type_dir(r: Seq<u8>, t: int) -> Option<int> {
    if !spec_dir_valid(r, 0) {
        None
    } else {
        match spec_find_type_from(r, t, 0) {
            None => None,
            Some(i) => spec_subdir_of(r, 0, i),
        }
    }
}

/// Whether a byte sequence is a well-formed icon group record: the
/// reserved word zero, the type word one, and the length exactly the
/// 6-byte header plus 14 bytes per declared entry.
pub open spec fn spec_grp_valid(g: Seq<u8>) -> bool {
    &&& g.len() >= 6
    &&& le16(g, 0) == 0
    &&& le16(g, 2) == 1
    &&& g.len() == 6 + 14 * le16(g, 4)
}

/// The data bytes behind entry `i` of the directory at `d`: the entry must
/// lead to a language subdirectory whose first entry is a leaf that
/// resolves inside the section.
pub open spec fn spec_first_data(r: Seq<u8>, rva: int, d: int, i: int) -> Option<Seq<u8>> {
    match spec_subdir_of(r, d, i) {
        None => None,
        Some(ld) => if spec_dir_count(r, ld) < 1 {
            None
        } else {
            match spec_leaf_of(r, ld, 0) {
                None => None,
                Some(e) => spec_data_bytes(r, rva, e),
            }
        },
    }
}

/// The icon group behind entry `i` of the group-icon type directory:
/// its resolved name and its well-formed group record.
pub open spec fn spec_group_at(r: Seq<u8>, rva: int, td: int, i: int) -> Option<(NameV, Seq<u8>)> {
    match spec_name_of(r, td, i) {
        None => None,
        Some(nm) => match spec_first_data(r, rva, td, i) {
            None => None,
            Some(g) => if spec_grp_valid(g) {
                Some((nm, g))
            } else {
                None
            },
        },
    }
}

/// The icon groups from entry `i` onward, in entry order, undecodable
/// entries skipped.
pub open spec fn spec_groups_from(r: Seq<u8>, rva: int, td: int, i: int) -> Seq<(NameV, Seq<u8>)>
    decreases spec_dir_count(r, td) - i,
{
    if i >= spec_dir_count(r, td) {
        Seq::empty()
    } else {
        match spec_group_at(r, rva, td, i) {
            Some(g) => seq![g] + spec_groups_from(r, rva, td, i + 1),
            None => spec_groups_from(r, rva, td, i + 1),
        }
    }
}

/// Every icon group of the resource section, in the walker's enumeration
/// order; empty when the section has no group-icon type directory.
pub open spec fn spec_icon_groups(r: Seq<u8>, rva: int) -> Seq<(NameV, Seq<u8>)> {
    match spec_type_dir(r, RT_GROUP_ICON as int) {
        None => Seq::empty(),
        Some(td) => spec_groups_from(r, rva, td, 0),
    }
}

/// The raw icon behind entry `i` of the icon type directory: entries with
/// string names carry no numeric id and are not raw icons.
pub open spec fn spec_raw_at(r: Seq<u8>, rva: int, td: int, i: int) -> Option<(int, Seq<u8>)> {
    let nm = spec_ent_name(r, td, i);
    if nm >= 0x80000000 {
        None
    } else {
        match spec_first_data(r, rva, td, i) {
            None => None,
            Some(d) => Some((nm, d)),
        }
    }
}

/// The raw icons from entry `i` onward, in entry order, undecodable
/// entries skipped.
pub open spec fn spec_raws_from(r: Seq<u8>, rva: int, td: int, i: int) -> Seq<(int, Seq<u8>)>
    decreases spec_dir_count(r, td) - i,
{
    if i >= spec_dir_count(r, td) {
        Seq::empty()
    } else {
        match spec_raw_at(r, rva, td, i) {
            Some(d) => seq![d] + spec_raws_from(r, rva, td, i + 1),
            None => spec_raws_from(r, rva, td, i + 1),
        }
    }
}

/// Every raw icon of the resource section, in enumeration order.
pub open spec fn spec_raw_icons(r: Seq<u8>, rva: int) -> Seq<(int, Seq<u8>)> {
    match spec_type_dir(r, RT_ICON as int) {
        None => Seq::empty(),
        Some(td) => spec_raws_from(r, rva, td, 0),
    }
}

/// Read a directory header and validate that its entries fit the section.
pub(crate) fn dir_count_of(r: &[u8], d: u32) -> (res: Option<u32>)
    requires
        d < 0x80000000,
    ensures
        match res {
            Some(c) => spec_dir_valid(r@, d as int) && c == spec_dir_count(r@, d as int),
            None => !spec_dir_valid(r@, d as int),
        },
{
    let len = r.len();
    if d as u64 + 16 > len as u64 {
        return None;
    }
    let named = read_u16(r, d as usize + 12);
    let ids = read_u16(r, d as usize + 14);
    let c = named as u32 + ids as u32;
    if d as u64 + 16 + 8 * c as u64 > len as u64 {
        return None;
    }
    Some(c)
}

/// Read the name field of a directory entry.
pub(crate) fn ent_name_of(r: &[u8], d: u32, i: u32) -> (nm: u32)
    requires
        d < 0x80000000,
        spec_dir_valid(r@, d as int),
        i < spec_dir_count(r@, d as int),
    ensures
        nm == spec_ent_name(r@, d as int, i as int),
{
    proof {
        assert(spec_dir_count(r@, d as int) <= 0x1fffe);
    }
    read_u32(r, d as usize + 16 + 8 * i as usize)
}

/// Read the offset field of a directory entry.
fn ent_off_of(r: &[u8], d: u32, i: u32) -> (o: u32)
    requires
        d < 0x80000000,
        spec_dir_valid(r@, d as int),
        i < spec_dir_count(r@, d as int),
    ensures
        o == spec_ent_off(r@, d as int, i as int),
{
    proof {
        assert(spec_dir_count(r@, d as int) <= 0x1fffe);
    }
    read_u32(r, d as usize + 16 + 8 * i as usize + 4)
}

/// Resolve the name of a directory entry.
fn name_of(r: &[u8], d: u32, i: u32) -> (res: Option<ResName>)
    requires
        d < 0x80000000,
        spec_dir_valid(r@, d as int),
        i < spec_dir_count(r@, d as int),
    ensures
        match res {
            Some(n) => spec_name_of(r@, d as int, i as int) == Some(n@),
            None => spec_name_of(r@, d as int, i as int) is None,
        },
{
    let nm = ent_name_of(r, d, i);
    if nm < 0x80000000 {
        return Some(ResName::Id(nm));
    }
    let s = nm - 0x80000000;
    let len = r.len();
    if s as u64 + 2 > len as u64 {
        return None;
    }
    let n = read_u16(r, s as usize);
    if s as u64 + 2 + 2 * n as u64 > len as u64 {
        return None;
    }
    let mut w: Vec<u16> = Vec::new();
    let mut k: usize = 0;
    while k < n as usize
        invariant
            len == r@.len(),
            s as u64 + 2 + 2 * n as u64 <= r@.len(),
            k <= n as usize,
            w@.len() == k,
            forall|j: int| 0 <= j < k ==> w@[j] == le16(r@, s as int + 2 + 2 * j) as u16,
        decreases n as usize - k,
    {
        w.push(read_u16(r, s as usize + 2 + 2 * k));
        k = k + 1;
    }
    proof {
        assert(w@ =~= spec_wide_words(r@, s as int + 2, n as int));
    }
    Some(ResName::Wide(w))
}

/// Resolve the data bytes behind a directory entry, through its language
/// subdirectory's first leaf.
pub(crate) fn first_data(r: &[u8], rva: u32, d: u32, i: u32) -> (res: Option<Vec<u8>>)
    requires
        d < 0x80000000,
        spec_dir_valid(r@, d as int),
        i < spec_dir_count(r@, d as int),
    ensures
        match res {
            Some(v) => spec_first_data(r@, rva as int, d as int, i as int) == Some(v@),
            None => spec_first_data(r@, rva as int, d as int, i as int) is None,
        },
{
    let o = ent_off_of(r, d, i);
    if o < 0x80000000 {
        return None;
    }
    let ld = o - 0x80000000;
    let c = match dir_count_of(r, ld) {
        None => {
            return None;
        },
        Some(c) => c,
    };
    if c < 1 {
        return None;
    }
    let e = ent_off_of(r, ld, 0);
    if e >= 0x80000000 {
        return None;
    }
    let len = r.len();
    if e as u64 + 16 > len as u64 {
        return None;
    }
    let drva = read_u32(r, e as usize);
    let sz = read_u32(r, e as usize + 4);
    if drva < rva {
        return None;
    }
    let start = drva - rva;
    if start as u64 + sz as u64 > 0xffffffff {
        return None;
    }
    if start as u64 + sz as u64 > len as u64 {
        return None;
    }
    let sl = slice_subrange(r, start as usize, start as usize + sz as usize);
    Some(slice_to_vec(sl))
}

/// Find the subdirectory of resource type `t` under the root directory.
pub(crate) fn find_type_dir(r: &[u8], t: u32) -> (res: Option<u32>)
    requires
        t < 0x80000000,
    ensures
        match res {
            Some(td) => spec_type_dir(r@, t as int) == Some(td as int) && td < 0x80000000
                && spec_dir_valid(r@, td as int),
            None => spec_type_dir(r@, t as int) is None,
        },
{
    let c = match dir_count_of(r, 0) {
        None => {
            return None;
        },
        Some(c) => c,
    };
    let mut i: u32 = 0;
    while i < c
        invariant
            spec_dir_valid(r@, 0),
            c == spec_dir_count(r@, 0),
            i <= c,
            t < 0x80000000,
            spec_find_type_from(r@, t as int, 0) == spec_find_type_from(r@, t as int, i as int),
        decreases c - i,
    {
        if ent_name_of(r, 0, i) == t {
            proof {
                assert(spec_find_type_from(r@, t as int, i as int) == Some(i as int));
            }
            let o = ent_off_of(r, 0, i);
            if o < 0x80000000 {
                return None;
            }
            let ld = o - 0x80000000;
            match dir_count_of(r, ld) {
                None => {
                    return None;
                },
                Some(_) => {
                    return Some(ld);
                },
            }
        }
        i = i + 1;
    }
    None
}

/// One icon group: its resource name and its group record bytes.
#[derive(Debug)]
pub struct IconGroup {
    pub name: ResName,
    pub data: Vec<u8>,
}

/// One raw icon image: its numeric id and its data bytes.
#[derive(Debug)]
pub struct RawIcon {
    pub id: u32,
    pub data: Vec<u8>,
}

/// Decode the icon group behind one type-directory entry.
fn group_at(r: &[u8], rva: u32, td: u32, i: u32) -> (res: Option<IconGroup>)
    requires
        td < 0x80000000,
        spec_dir_valid(r@, td as int),
        i < spec_dir_count(r@, td as int),
    ensures
        match res {
            Some(g) => spec_group_at(r@, rva as int, td as int, i as int) == Some((g.name@, g.data@)),
            None => spec_group_at(r@, rva as int, td as int, i as int) is None,
        },
{
    let name = match name_of(r, td, i) {
        None => {
            return None;
        },
        Some(n) => n,
    };
    let data = match first_data(r, rva, td, i) {
        None => {
            return None;
        },
        Some(v) => v,
    };
    if data.len() < 6 {
        return None;
    }
    let ds = data.as_slice();
    let reserved = read_u16(ds, 0);
    let ty = read_u16(ds, 2);
    let cnt = read_u16(ds, 4);
    if !(reserved == 0 && ty == 1 && data.len() as u64 == 6 + 14 * cnt as u64) {
        return None;
    }
    Some(IconGroup { name, data })
}

/// Enumerate the icon groups of the resource section, in the walker's
/// deterministic entry order; entries that cannot be decoded are skipped.
pub(crate) fn icon_groups_in(r: &[u8], rva: u32) -> (res: Vec<IconGroup>)
    ensures
        ({
            let s = spec_icon_groups(r@, rva as int);
            &&& res@.len() == s.len()
            &&& forall|j: int|
                0 <= j < s.len() ==> (#[trigger] res@[j]).name@ == s[j].0 && res@[j].data@
                    == s[j].1
        }),
{
    let ghost s0 = spec_icon_groups(r@, rva as int);
    let td = match find_type_dir(r, RT_GROUP_ICON) {
        None => {
            return Vec::new();
        },
        Some(td) => td,
    };
    let c = match dir_count_of(r, td) {
        None => {
            proof {
                assert(false);
            }
            return Vec::new();
        },
        Some(c) => c,
    };
    let mut out: Vec<IconGroup> = Vec::new();
    let mut i: u32 = 0;
    while i < c
        invariant
            td < 0x80000000,
            spec_dir_valid(r@, td as int),
            c == spec_dir_count(r@, td as int),
            i <= c,
            s0 == spec_icon_groups(r@, rva as int),
            spec_type_dir(r@, RT_GROUP_ICON as int) == Some(td as int),
            out@.len() <= s0.len(),
            forall|j: int|
                0 <= j < out@.len() ==> (#[trigger] out@[j]).name@ == s0[j].0 && out@[j].data@
                    == s0[j].1,
            spec_groups_from(r@, rva as int, td as int, i as int) =~= s0.skip(out@.len() as int),
        decreases c - i,
    {
        let ghost k = out@.len() as int;
        match group_at(r, rva, td, i) {
            Some(g) => {
                proof {
                    assert(spec_groups_from(r@, rva as int, td as int, i as int) == seq![
                        (g.name@, g.data@),
                    ] + spec_groups_from(r@, rva as int, td as int, i as int + 1));
                    assert(s0.skip(k)[0] == s0[k]);
                    let ghost rest = spec_groups_from(r@, rva as int, td as int, i as int + 1);
                    assert forall|m: int| 0 <= m < rest.len() implies rest[m] == s0.skip(k + 1)[m] by {
                        assert(spec_groups_from(r@, rva as int, td as int, i as int)[m + 1]
                            == rest[m]);
                        assert(s0.skip(k)[m + 1] == s0[k + 1 + m]);
                    }
                    assert(rest =~= s0.skip(k + 1));
                }
                out.push(g);
            },
            None => {
                proof {
                    assert(spec_groups_from(r@, rva as int, td as int, i as int)
                        == spec_groups_from(r@, rva as int, td as int, i as int + 1));
                }
            },
        }
        i = i + 1;
    }
    proof {
        assert(spec_groups_from(r@, rva as int, td as int, c as int) =~= Seq::<(
            NameV,
            Seq<u8>,
        )>::empty());
        assert(out@.len() == s0.len());
    }
    out
}

/// Decode the raw icon behind one type-directory entry.
fn raw_at(r: &[u8], rva: u32, td: u32, i: u32) -> (res: Option<RawIcon>)
    requires
        td < 0x80000000,
        spec_dir_valid(r@, td as int),
        i < spec_dir_count(r@, td as int),
    ensures
        match res {
            Some(d) => spec_raw_at(r@, rva as int, td as int, i as int) == Some(
                (d.id as int, d.data@),
            ),
            None => spec_raw_at(r@, rva as int, td as int, i as int) is None,
        },
{
    let nm = ent_name_of(r, td, i);
    if nm >= 0x80000000 {
        return None;
    }
    let data = match first_data(r, rva, td, i) {
        None => {
            return None;
        },
        Some(v) => v,
    };
    Some(RawIcon { id: nm, data })
}

/// Enumerate the raw icon images of the resource section, in entry order;
/// entries that cannot be decoded are skipped.
pub(crate) fn raw_icons_in(r: &[u8], rva: u32) -> (res: Vec<RawIcon>)
    ensures
        ({
            let s = spec_raw_icons(r@, rva as int);
            &&& res@.len() == s.len()
            &&& forall|j: int|
                0 <= j < s.len() ==> (#[trigger] res@[j]).id == s[j].0 && res@[j].data@ == s[j].1
        }),
{
    let ghost s0 = spec_raw_icons(r@, rva as int);
    let td = match find_type_dir(r, RT_ICON) {
        None => {
            return Vec::new();
        },
        Some(td) => td,
    };
    let c = match dir_count_of(r, td) {
        None => {
            proof {
                assert(false);
            }
            return Vec::new();
        },
        Some(c) => c,
    };
    let mut out: Vec<RawIcon> = Vec::new();
    let mut i: u32 = 0;
    while i < c
        invariant
            td < 0x80000000,
            spec_dir_valid(r@, td as int),
            c == spec_dir_count(r@, td as int),
            i <= c,
            s0 == spec_raw_icons(r@, rva as int),
            spec_type_dir(r@, RT_ICON as int) == Some(td as int),
            out@.len() <= s0.len(),
            forall|j: int|
                0 <= j < out@.len() ==> (#[trigger] out@[j]).id == s0[j].0 && out@[j].data@
                    == s0[j].1,
            spec_raws_from(r@, rva as int, td as int, i as int) =~= s0.skip(out@.len() as int),
        decreases c - i,
    {
        let ghost k = out@.len() as int;
        match raw_at(r, rva, td, i) {
            Some(d) => {
                proof {
                    assert(spec_raws_from(r@, rva as int, td as int, i as int) == seq![
                        (d.id as int, d.data@),
                    ] + spec_raws_from(r@, rva as int, td as int, i as int + 1));
                    assert(s0.skip(k)[0] == s0[k]);
                    let ghost rest = spec_raws_from(r@, rva as int, td as int, i as int + 1);
                    assert forall|m: int| 0 <= m < rest.len() implies rest[m] == s0.skip(k + 1)[m] by {
                        assert(spec_raws_from(r@, rva as int, td as int, i as int)[m + 1]
                            == rest[m]);
                        assert(s0.skip(k)[m + 1] == s0[k + 1 + m]);
                    }
                    assert(rest =~= s0.skip(k + 1));
                }
                out.push(d);
            },
            None => {
                proof {
                    assert(spec_raws_from(r@, rva as int, td as int, i as int) == spec_raws_from(
                        r@,
                        rva as int,
                        td as int,
                        i as int + 1,
                    ));
                }
            },
        }
        i = i + 1;
    }
    proof {
        assert(spec_raws_from(r@, rva as int, td as int, c as int) =~= Seq::<(
            int,
            Seq<u8>,
        )>::empty());
        assert(out@.len() == s0.len());
    }
    out
}

} // verus!

