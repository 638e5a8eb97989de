//! The extraction pipeline over a whole PE image: locate the resource
//! section, enumerate icon groups and raw icons, and assemble ICO files,
//! selected by resource id or by ordinal position.

use vstd::prelude::*;

use crate::error::{AssembleError, ExtractError, ParseError};
use crate::icons::{assemble, icons_view, spec_assemble};
use crate::names::{name_string, spec_name_string};
use crate::pe::{parse_layout, spec_parse};
use crate::rsrc::{icon_groups_in, locate_resources, raw_icons_in, spec_icon_groups,
    spec_raw_icons, spec_rsrc_bounds, IconGroup, NameV, RawIcon, ResName};
use vstd::slice::slice_subrange;

verus! {

/// One assembled icon group, ready to be written out: the stable string
/// form of its resource name, and complete ICO file bytes.
#[derive(Debug)]
pub struct Ico {
    pub id: String,
    pub data: Vec<u8>,
}

/// The resource section of an image, as bytes and virtual address, or the
/// reason none can be had: unreadable headers, or no locatable resource
/// directory.
pub open spec fn spec_resources(b: Seq<u8>) -> Result<(Seq<u8>, int), ExtractError> {
    match spec_parse(b) {
        Err(e) => Err(ExtractError::Parse(e)),
        Ok(_) => match spec_rsrc_bounds(b) {
            None => Err(ExtractError::NoResources),
            Some((off, n, rva)) => Ok((b.subrange(off, off + n), rva)),
        },
    }
}

/// The identifier's magnitude: the id that both a positive and a negative
/// spelling of the same icon id select.
pub open spec fn spec_abs_id(id: i32) -> int {
    if id < 0 {
        -(id as int)
    } else {
        id as int
    }
}

/// The group record of the first group at or after `k` whose name is the
/// numeric id.
pub open spec fn spec_find_by_id(s: Seq<(NameV, Seq<u8>)>, id: int, k: int) -> Option<Seq<u8>>
    decreases s.len() - k,
{
    if k >= s.len() {
        None
    } else if s[k].0 == NameV::Id(id) {
        Some(s[k].1)
    } else {
        spec_find_by_id(s, id, k + 1)
    }
}

/// What extracting one icon by id yields: the assembled ICO of the first
/// group whose numeric name matches the id's magnitude, so that the
/// positive and the negative spelling select the same group; the errors
/// distinguish unreadable headers, a missing resource directory, an absent
/// id, and a group that cannot be assembled.
pub open spec fn spec_get_ico(b: Seq<u8>, id: i32) -> Result<Seq<u8>, ExtractError> {
    match spec_resources(b) {
        Err(e) => Err(e),
        Ok((r, rva)) => match spec_find_by_id(spec_icon_groups(r, rva), spec_abs_id(id), 0) {
            None => Err(ExtractError::IconNotFound(id)),
            Some(g) => match spec_assemble(g, spec_raw_icons(r, rva)) {
                Ok(v) => Ok(v),
                Err(e) => Err(ExtractError::Assemble(e)),
            },
        },
    }
}

/// The assembled icons of the groups at or after `j`, in enumeration
/// order; a group whose assembly fails is excluded and aborts nothing.
pub open spec fn spec_icos_from(
    groups: Seq<(NameV, Seq<u8>)>,
    icons: Seq<(int, Seq<u8>)>,
    j: int,
) -> Seq<(NameV, Seq<u8>)>
    decreases groups.len() - j,
{
    if j >= groups.len() {
        Seq::empty()
    } else {
        match spec_assemble(groups[j].1, icons) {
            Ok(v) => seq![(groups[j].0, v)] + spec_icos_from(groups, icons, j + 1),
            Err(_) => spec_icos_from(groups, icons, j + 1),
        }
    }
}

/// What batch extraction yields: every group that decodes and assembles,
/// with its name, in enumeration order.
pub open spec fn spec_get_icos(b: Seq<u8>) -> Result<Seq<(NameV, Seq<u8>)>, ExtractError> {
    match spec_resources(b) {
        Err(e) => Err(e),
        Ok((r, rva)) => Ok(
            spec_icos_from(spec_icon_groups(r, rva), spec_raw_icons(r, rva), 0),
        ),
    }
}

/// What extracting one icon by ordinal yields: the assembled ICO of the
/// group at that position of the enumeration order; a negative ordinal or
/// one at or past the group count names no icon.
pub open spec fn spec_get_ico_by_ordinal(b: Seq<u8>, ordinal: i32) -> Result<
    Seq<u8>,
    ExtractError,
> {
    match spec_resources(b) {
        Err(e) => Err(e),
        Ok((r, rva)) => {
            let groups = spec_icon_groups(r, rva);
            if ordinal < 0 || ordinal >= groups.len() {
                Err(ExtractError::IconNotFound(ordinal))
            } else {
                match spec_assemble(groups[ordinal as int].1, spec_raw_icons(r, rva)) {
                    Ok(v) => Ok(v),
                    Err(e) => Err(ExtractError::Assemble(e)),
                }
            }
        },
    }
}

/// Locate the resource section of an image.
pub(crate) fn resources_of(bin: &[u8]) -> (res: Result<(usize, usize, u32), ExtractError>)
    ensures
        match res {
            Ok((off, n, rva)) => {
                &&& spec_resources(bin@) == Ok::<(Seq<u8>, int), ExtractError>(
                    (bin@.subrange(off as int, off as int + n as int), rva as int),
                )
                &&& off + n <= bin@.len()
            },
            Err(e) => spec_resources(bin@) == Err::<(Seq<u8>, int), ExtractError>(e),
        },
{
    let l = match parse_layout(bin) {
        Err(e) => {
            return Err(ExtractError::Parse(e));
        },
        Ok(l) => l,
    };
    match locate_resources(bin, &l) {
        None => Err(ExtractError::NoResources),
        Some((off, n, rva)) => {
            proof {
                assert(spec_rsrc_bounds(bin@) == Some((off as int, n as int, rva as int)));
                assert(off + n <= bin@.len());
            }
            Ok((off, n, rva))
        },
    }
}

/// Enumerate the icon groups of a PE image, in the walker's deterministic
/// order; `NoResources` when the image has no resource directory, an empty
/// vector when it has one without icon groups.
pub fn iterate_icon_groups(bin: &[u8]) -> (res: Result<Vec<IconGroup>, ExtractError>)
    ensures
        match res {
            Ok(v) => spec_resources(bin@) matches Ok((r, rva)) && {
                let s = spec_icon_groups(r, rva);
                &&& v@.len() == s.len()
                &&& forall|j: int|
                    0 <= j < s.len() ==> (#[trigger] v@[j]).name@ == s[j].0 && v@[j].data@
                        == s[j].1
            },
            Err(e) => spec_resources(bin@) == Err::<(Seq<u8>, int), ExtractError>(e),
        },
{
    let (off, n, rva) = match resources_of(bin) {
        Err(e) => {
            return Err(e);
        },
        Ok(t) => t,
    };
    let len = bin.len();
    proof {
        assert(off + n <= len);
    }
    let r = slice_subrange(bin, off, off + n);
    Ok(icon_groups_in(r, rva))
}

/// Enumerate the raw icon images of a PE image, in the walker's
/// deterministic order.
pub fn iterate_raw_icons(bin: &[u8]) -> (res: Result<Vec<RawIcon>, ExtractError>)
    ensures
        match res {
            Ok(v) => spec_resources(bin@) matches Ok((r, rva)) && {
                let s = spec_raw_icons(r, rva);
                &&& v@.len() == s.len()
                &&& forall|j: int|
                    0 <= j < s.len() ==> (#[trigger] v@[j]).id == s[j].0 && v@[j].data@ == s[j].1
            },
            Err(e) => spec_resources(bin@) == Err::<(Seq<u8>, int), ExtractError>(e),
        },
{
    let (off, n, rva) = match resources_of(bin) {
        Err(e) => {
            return Err(e);
        },
        Ok(t) => t,
    };
    let len = bin.len();
    proof {
        assert(off + n <= len);
    }
    let r = slice_subrange(bin, off, off + n);
    Ok(raw_icons_in(r, rva))
}

/// Find the first group whose numeric name is `target` and assemble it.
fn find_and_assemble(
    groups: &Vec<IconGroup>,
    icons: &Vec<RawIcon>,
    target: u32,
    Ghost(s): Ghost<Seq<(NameV, Seq<u8>)>>,
) -> (res: Option<Result<Vec<u8>, AssembleError>>)
    requires
        groups@.len() == s.len(),
        forall|j: int|
            0 <= j < s.len() ==> (#[trigger] groups@[j]).name@ == s[j].0 && groups@[j].data@
                == s[j].1,
    ensures
        match res {
            None => spec_find_by_id(s, target as int, 0) is None,
            Some(ar) => {
                &&& spec_find_by_id(s, target as int, 0) is Some
                &&& match ar {
                    Ok(v) => spec_assemble(
                        spec_find_by_id(s, target as int, 0)->Some_0,
                        icons_view(icons@),
                    ) == Ok::<Seq<u8>, AssembleError>(v@),
                    Err(e) => spec_assemble(
                        spec_find_by_id(s, target as int, 0)->Some_0,
                        icons_view(icons@),
                    ) == Err::<Seq<u8>, AssembleError>(e),
                }
            },
        },
{
    let mut k: usize = 0;
    while k < groups.len()
        invariant
            groups@.len() == s.len(),
            forall|j: int|
                0 <= j < s.len() ==> (#[trigger] groups@[j]).name@ == s[j].0 && groups@[j].data@
                    == s[j].1,
            k <= s.len(),
            spec_find_by_id(s, target as int, 0) == spec_find_by_id(s, target as int, k as int),
        decreases s.len() - k,
    {
        let matched: bool = match &groups[k].name {
            ResName::Id(v) => *v == target,
            ResName::Wide(_) => false,
        };
        if matched {
            proof {
                assert(s[k as int].0 == NameV::Id(target as int));
                assert(spec_find_by_id(s, target as int, k as int) == Some(s[k as int].1));
            }
            return Some(assemble(groups[k].data.as_slice(), icons));
        }
        proof {
            assert(s[k as int].0 != NameV::Id(target as int));
        }
        k = k + 1;
    }
    None
}

/// Extract one icon group as ICO bytes, selected by resource id.
///
/// A negative and a positive spelling of the same id select the same
/// group: the id's magnitude is matched against the numeric resource
/// names.
pub fn get_ico(bin: &[u8], ico_id: i32) -> (res: Result<Vec<u8>, ExtractError>)
    ensures
        match res {
            Ok(v) => spec_get_ico(bin@, ico_id) == Ok::<Seq<u8>, ExtractError>(v@),
            Err(e) => spec_get_ico(bin@, ico_id) == Err::<Seq<u8>, ExtractError>(e),
        },
{
    let (off, n, rva) = match resources_of(bin) {
        Err(e) => {
            return Err(e);
        },
        Ok(t) => t,
    };
    let len = bin.len();
    proof {
        assert(off + n <= len);
    }
    let r = slice_subrange(bin, off, off + n);
    let groups = icon_groups_in(r, rva);
    let icons = raw_icons_in(r, rva);
    proof {
        lemma_icons_view_eq(icons@, spec_raw_icons(r@, rva as int));
    }
    let target: u32 = if ico_id < 0 {
        (-(ico_id as i64)) as u32
    } else {
        ico_id as u32
    };
    match find_and_assemble(&groups, &icons, target, Ghost(spec_icon_groups(r@, rva as int))) {
        None => Err(ExtractError::IconNotFound(ico_id)),
        Some(Ok(v)) => Ok(v),
        Some(Err(e)) => Err(ExtractError::Assemble(e)),
    }
}

/// The element-wise facts the walker establishes make the association list
/// of an enumerated raw icon vector the specified one.
proof fn lemma_icons_view_eq(v: Seq<RawIcon>, s: Seq<(int, Seq<u8>)>)
    requires
        v.len() == s.len(),
        forall|j: int| 0 <= j < s.len() ==> (#[trigger] v[j]).id == s[j].0 && v[j].data@ == s[j].1,
    ensures
        icons_view(v) == s,
{
    assert(icons_view(v) =~~= s);
}

/// Extract one icon group as ICO bytes, selected by a non-negative ordinal
/// position in the walker's enumeration order.
pub fn get_ico_by_ordinal(bin: &[u8], ordinal: i32) -> (res: Result<Vec<u8>, ExtractError>)
    ensures
        match res {
            Ok(v) => spec_get_ico_by_ordinal(bin@, ordinal) == Ok::<Seq<u8>, ExtractError>(v@),
            Err(e) => spec_get_ico_by_ordinal(bin@, ordinal) == Err::<Seq<u8>, ExtractError>(e),
        },
{
    let (off, n, rva) = match resources_of(bin) {
        Err(e) => {
            return Err(e);
        },
        Ok(t) => t,
    };
    let len = bin.len();
    proof {
        assert(off + n <= len);
    }
    let r = slice_subrange(bin, off, off + n);
    let groups = icon_groups_in(r, rva);
    if ordinal < 0 || ordinal as u64 >= groups.len() as u64 {
        return Err(ExtractError::IconNotFound(ordinal));
    }
    let icons = raw_icons_in(r, rva);
    proof {
        lemma_icons_view_eq(icons@, spec_raw_icons(r@, rva as int));
    }
    match assemble(groups[ordinal as usize].data.as_slice(), &icons) {
        Ok(v) => Ok(v),
        Err(e) => Err(ExtractError::Assemble(e)),
    }
}

/// Extract every icon group of a PE image as ICO bytes, named by the
/// stable string form of its resource name, in enumeration order; a group
/// that cannot be decoded or assembled is excluded without aborting the
/// batch.
#[verifier::rlimit(100)]
pub fn get_icos(bin: &[u8]) -> (res: Result<Vec<Ico>, ExtractError>)
    ensures
        match res {
            Ok(v) => spec_get_icos(bin@) matches Ok(s) && {
                &&& v@.len() == s.len()
                &&& forall|j: int|
                    0 <= j < s.len() ==> (#[trigger] v@[j]).id@ == spec_name_string(s[j].0)
                        && v@[j].data@ == s[j].1
            },
            Err(e) => spec_get_icos(bin@) == Err::<Seq<(NameV, Seq<u8>)>, ExtractError>(e),
        },
{
    let (off, n, rva) = match resources_of(bin) {
        Err(e) => {
            return Err(e);
        },
        Ok(t) => t,
    };
    let len = bin.len();
    proof {
        assert(off + n <= len);
    }
    let r = slice_subrange(bin, off, off + n);
    let groups = icon_groups_in(r, rva);
    let icons = raw_icons_in(r, rva);
    let ghost gs = spec_icon_groups(r@, rva as int);
    let ghost iv = spec_raw_icons(r@, rva as int);
    proof {
        lemma_icons_view_eq(icons@, iv);
    }
    let ghost s0 = spec_icos_from(gs, iv, 0);
    let mut out: Vec<Ico> = Vec::new();
    let mut k: usize = 0;
    while k < groups.len()
        invariant
            gs == spec_icon_groups(r@, rva as int),
            iv == spec_raw_icons(r@, rva as int),
            icons_view(icons@) == iv,
            s0 == spec_icos_from(gs, iv, 0),
            groups@.len() == gs.len(),
            forall|j: int|
                0 <= j < gs.len() ==> (#[trigger] groups@[j]).name@ == gs[j].0 && groups@[j].data@
                    == gs[j].1,
            k <= gs.len(),
            out@.len() <= s0.len(),
            forall|j: int|
                0 <= j < out@.len() ==> (#[trigger] out@[j]).id@ == spec_name_string(s0[j].0)
                    && out@[j].data@ == s0[j].1,
            spec_icos_from(gs, iv, k as int) =~= s0.skip(out@.len() as int),
        decreases gs.len() - k,
    {
        let ghost p = out@.len() as int;
        match assemble(groups[k].data.as_slice(), &icons) {
            Ok(v) => {
                proof {
                    assert(spec_icos_from(gs, iv, k as int) == seq![(gs[k as int].0, v@)]
                        + spec_icos_from(gs, iv, k as int + 1));
                    assert(s0.skip(p)[0] == s0[p]);
                    let rest = spec_icos_from(gs, iv, k as int + 1);
                    assert forall|m: int| 0 <= m < rest.len() implies rest[m] == s0.skip(p + 1)[m] by {
                        assert(spec_icos_from(gs, iv, k as int)[m + 1] == rest[m]);
                        assert(s0.skip(p)[m + 1] == s0[p + 1 + m]);
                    }
                    assert(rest =~= s0.skip(p + 1));
                }
                let id = name_string(&groups[k].name);
                out.push(Ico { id, data: v });
            },
            Err(_) => {
                proof {
                    assert(spec_icos_from(gs, iv, k as int) == spec_icos_from(
                        gs,
                        iv,
                        k as int + 1,
                    ));
                }
            },
        }
        k = k + 1;
    }
    proof {
        assert(spec_icos_from(gs, iv, gs.len() as int) =~= Seq::<(NameV, Seq<u8>)>::empty());
        assert(out@.len() == s0.len());
    }
    Ok(out)
}

} // verus!
