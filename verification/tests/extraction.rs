use exeico::{
    assemble, bgra_to_rgba, decode_rendered_icon, detect_bitness, frame_to_ico, get_dll_ico,
    get_dll_icos, get_dll_txt, get_ico, get_ico_by_ordinal, get_icos, iterate_icon_groups,
    iterate_raw_icons, AssembleError, Bitness, ExtractError, ParseError, RawIcon, RawPixelBuffer,
};

fn w16(v: u16) -> [u8; 2] {
    v.to_le_bytes()
}

fn w32(v: u32) -> [u8; 4] {
    v.to_le_bytes()
}

/// A resource name in a fixture: numeric or UTF-16 string.
enum TName {
    Id(u32),
    Str(&'static str),
}

/// Build a complete PE image with one `.rsrc` section holding the given
/// bytes at the given virtual address. `None` produces an image without a
/// resource directory.
fn build_pe(is64: bool, rsrc: Option<(&[u8], u32)>) -> Vec<u8> {
    let mut v = vec![0u8; 0x40];
    v[0x3c..0x40].copy_from_slice(&w32(0x40));
    v.extend_from_slice(b"PE\0\0");
    v.extend_from_slice(&w16(if is64 { 0x8664 } else { 0x014c }));
    let nsections: u16 = if rsrc.is_some() { 1 } else { 0 };
    v.extend_from_slice(&w16(nsections));
    v.extend_from_slice(&w32(0));
    v.extend_from_slice(&w32(0));
    v.extend_from_slice(&w32(0));
    let opt_size: u16 = if is64 { 112 + 128 } else { 96 + 128 };
    v.extend_from_slice(&w16(opt_size));
    v.extend_from_slice(&w16(0));
    let opt_start = v.len();
    v.extend_from_slice(&w16(if is64 { 0x20b } else { 0x10b }));
    let ndirs_off = opt_start + if is64 { 108 } else { 92 };
    while v.len() < ndirs_off {
        v.push(0);
    }
    v.extend_from_slice(&w32(16));
    for i in 0..16u32 {
        match (i, &rsrc) {
            (2, Some((r, rva))) => {
                v.extend_from_slice(&w32(*rva));
                v.extend_from_slice(&w32(r.len() as u32));
            }
            _ => {
                v.extend_from_slice(&w32(0));
                v.extend_from_slice(&w32(0));
            }
        }
    }
    if let Some((r, rva)) = rsrc {
        v.extend_from_slice(b".rsrc\0\0\0");
        v.extend_from_slice(&w32(r.len() as u32));
        v.extend_from_slice(&w32(rva));
        v.extend_from_slice(&w32(r.len() as u32));
        v.extend_from_slice(&w32(0x200));
        v.extend_from_slice(&[0u8; 16]);
        while v.len() < 0x200 {
            v.push(0);
        }
        v.extend_from_slice(r);
    }
    v
}

/// Build a resource section with the given raw icons (type 3) and icon
/// groups (type 14), plus arbitrary extra typed blobs (for string tables
/// and raw data).
fn build_rsrc(
    rva: u32,
    icons: &[(u32, &[u8])],
    groups: &[(TName, &[u8])],
    extra: &[(u32, u32, &[u8])],
) -> Vec<u8> {
    // Items in lang-dir/data-entry order: icons, groups, then one item per
    // extra (type, id, data) triple, each type getting its own directory.
    let have_icons = !icons.is_empty();
    let have_groups = !groups.is_empty();
    let n_root = have_icons as usize + have_groups as usize + extra.len();
    let root_size = 16 + 8 * n_root;
    let icon_dir_size = if have_icons { 16 + 8 * icons.len() } else { 0 };
    let group_dir_size = if have_groups { 16 + 8 * groups.len() } else { 0 };
    let extra_dir_size = 24 * extra.len();
    let icon_dir_off = root_size;
    let group_dir_off = icon_dir_off + icon_dir_size;
    let extra_dir_off = group_dir_off + group_dir_size;
    let lang_base = extra_dir_off + extra_dir_size;
    let n_items = icons.len() + groups.len() + extra.len();
    let data_base = lang_base + 24 * n_items;
    let names_base = data_base + 16 * n_items;

    let mut names_area: Vec<u8> = Vec::new();
    let mut group_name_fields: Vec<u32> = Vec::new();
    for (nm, _) in groups {
        match nm {
            TName::Id(id) => group_name_fields.push(*id),
            TName::Str(s) => {
                let off = names_base + names_area.len();
                let units: Vec<u16> = s.encode_utf16().collect();
                names_area.extend_from_slice(&w16(units.len() as u16));
                for u in &units {
                    names_area.extend_from_slice(&w16(*u));
                }
                group_name_fields.push(0x8000_0000 | off as u32);
            }
        }
    }
    let payload_base = names_base + names_area.len();
    let mut payload_area: Vec<u8> = Vec::new();
    let mut payload_offs: Vec<usize> = Vec::new();
    for (_, d) in icons {
        payload_offs.push(payload_base + payload_area.len());
        payload_area.extend_from_slice(d);
    }
    for (_, d) in groups {
        payload_offs.push(payload_base + payload_area.len());
        payload_area.extend_from_slice(d);
    }
    for (_, _, d) in extra {
        payload_offs.push(payload_base + payload_area.len());
        payload_area.extend_from_slice(d);
    }

    let mut v: Vec<u8> = Vec::new();
    // Root directory.
    v.extend_from_slice(&[0u8; 12]);
    v.extend_from_slice(&w16(0));
    v.extend_from_slice(&w16(n_root as u16));
    if have_icons {
        v.extend_from_slice(&w32(3));
        v.extend_from_slice(&w32(0x8000_0000 | icon_dir_off as u32));
    }
    if have_groups {
        v.extend_from_slice(&w32(14));
        v.extend_from_slice(&w32(0x8000_0000 | group_dir_off as u32));
    }
    for (k, (ty, _, _)) in extra.iter().enumerate() {
        v.extend_from_slice(&w32(*ty));
        v.extend_from_slice(&w32(0x8000_0000 | (extra_dir_off + 24 * k) as u32));
    }
    // Icon directory.
    if have_icons {
        v.extend_from_slice(&[0u8; 12]);
        v.extend_from_slice(&w16(0));
        v.extend_from_slice(&w16(icons.len() as u16));
        for (k, (id, _)) in icons.iter().enumerate() {
            v.extend_from_slice(&w32(*id));
            v.extend_from_slice(&w32(0x8000_0000 | (lang_base + 24 * k) as u32));
        }
    }
    // Group directory.
    if have_groups {
        v.extend_from_slice(&[0u8; 12]);
        v.extend_from_slice(&w16(0));
        v.extend_from_slice(&w16(groups.len() as u16));
        for (k, _) in groups.iter().enumerate() {
            v.extend_from_slice(&w32(group_name_fields[k]));
            v.extend_from_slice(&w32(0x8000_0000 | (lang_base + 24 * (icons.len() + k)) as u32));
        }
    }
    // One directory per extra typed blob.
    for (k, (_, id, _)) in extra.iter().enumerate() {
        v.extend_from_slice(&[0u8; 12]);
        v.extend_from_slice(&w16(0));
        v.extend_from_slice(&w16(1));
        v.extend_from_slice(&w32(*id));
        v.extend_from_slice(
            &w32(0x8000_0000 | (lang_base + 24 * (icons.len() + groups.len() + k)) as u32),
        );
    }
    // Language directories: one entry each, pointing at a data entry.
    for k in 0..n_items {
        v.extend_from_slice(&[0u8; 12]);
        v.extend_from_slice(&w16(0));
        v.extend_from_slice(&w16(1));
        v.extend_from_slice(&w32(1033));
        v.extend_from_slice(&w32((data_base + 16 * k) as u32));
    }
    // Data entries.
    let sizes: Vec<usize> = icons
        .iter()
        .map(|(_, d)| d.len())
        .chain(groups.iter().map(|(_, d)| d.len()))
        .chain(extra.iter().map(|(_, _, d)| d.len()))
        .collect();
    for k in 0..n_items {
        v.extend_from_slice(&w32(rva + payload_offs[k] as u32));
        v.extend_from_slice(&w32(sizes[k] as u32));
        v.extend_from_slice(&w32(0));
        v.extend_from_slice(&w32(0));
    }
    v.extend_from_slice(&names_area);
    v.extend_from_slice(&payload_area);
    v
}

/// Build a well-formed icon group record from (icon id, width, height,
/// bit count, byte count) tuples.
fn group_record(entries: &[(u16, u8, u8, u16, u32)]) -> Vec<u8> {
    let mut g: Vec<u8> = Vec::new();
    g.extend_from_slice(&w16(0));
    g.extend_from_slice(&w16(1));
    g.extend_from_slice(&w16(entries.len() as u16));
    for (id, w, h, bits, bytes) in entries {
        g.push(*w);
        g.push(*h);
        g.push(0);
        g.push(0);
        g.extend_from_slice(&w16(1));
        g.extend_from_slice(&w16(*bits));
        g.extend_from_slice(&w32(*bytes));
        g.extend_from_slice(&w16(*id));
    }
    g
}

const RVA: u32 = 0x3000;

#[test]
fn detect_bitness_pe32() {
    let pe = build_pe(false, None);
    assert_eq!(detect_bitness(&pe), Ok(Bitness::Bits32));
}

#[test]
fn detect_bitness_pe64() {
    let pe = build_pe(true, None);
    assert_eq!(detect_bitness(&pe), Ok(Bitness::Bits64));
}

#[test]
fn detect_bitness_short_buffer() {
    let buf = vec![0u8; 0x3f];
    assert_eq!(detect_bitness(&buf), Err(ParseError::UnexpectedEof));
}

#[test]
fn detect_bitness_bad_signature() {
    let mut pe = build_pe(false, None);
    pe[0x41] = b'X';
    assert_eq!(detect_bitness(&pe), Err(ParseError::InvalidSignature));
}

#[test]
fn detect_bitness_unknown_magic() {
    let mut pe = build_pe(false, None);
    pe[0x58] = 0x0c;
    pe[0x59] = 0x01;
    assert_eq!(detect_bitness(&pe), Err(ParseError::UnknownMagic(0x010c)));
}

#[test]
fn detect_bitness_truncated_at_header() {
    let mut pe = build_pe(false, None);
    pe.truncate(0x41);
    assert_eq!(detect_bitness(&pe), Err(ParseError::UnexpectedEof));
}

#[test]
fn convert_channel_order_vector() {
    let mut buf = vec![
        10u8, 11, 12, 13, 20, 21, 22, 23, 30, 31, 32, 33, 40, 41, 42, 43,
    ];
    bgra_to_rgba(&mut buf);
    assert_eq!(
        buf,
        vec![12u8, 11, 10, 13, 22, 21, 20, 23, 32, 31, 30, 33, 42, 41, 40, 43]
    );
}

#[test]
fn convert_channel_order_self_inverse() {
    let original: Vec<u8> = (0u8..32).collect();
    let mut buf = original.clone();
    bgra_to_rgba(&mut buf);
    assert_ne!(buf, original);
    bgra_to_rgba(&mut buf);
    assert_eq!(buf, original);
}

#[test]
fn convert_channel_order_partial_tail_kept() {
    let mut buf: Vec<u8> = (0u8..20).collect();
    bgra_to_rgba(&mut buf);
    assert_eq!(&buf[16..], &[16u8, 17, 18, 19]);
}

#[test]
fn assemble_builds_exact_ico() {
    let group = group_record(&[(1, 16, 16, 32, 4), (2, 32, 32, 8, 6)]);
    let icons = vec![
        RawIcon {
            id: 1,
            data: vec![0xaa, 0xbb, 0xcc, 0xdd],
        },
        RawIcon {
            id: 2,
            data: vec![1, 2, 3, 4, 5, 6],
        },
    ];
    let ico = assemble(&group, &icons).unwrap();
    // Header: reserved 0, type 1, count 2.
    assert_eq!(&ico[0..6], &[0, 0, 1, 0, 2, 0]);
    // First entry: width, height, colors, reserved, planes, bit count,
    // byte count, then the offset just past the directory.
    assert_eq!(&ico[6..14], &[16, 16, 0, 0, 1, 0, 32, 0]);
    assert_eq!(&ico[14..18], &w32(4));
    assert_eq!(&ico[18..22], &w32(6 + 32));
    // Second entry offset lies after the first payload.
    assert_eq!(&ico[30..34], &w32(6));
    assert_eq!(&ico[34..38], &w32(6 + 32 + 4));
    // Payloads in order.
    assert_eq!(&ico[38..42], &[0xaa, 0xbb, 0xcc, 0xdd]);
    assert_eq!(&ico[42..48], &[1, 2, 3, 4, 5, 6]);
    assert_eq!(ico.len(), 48);
}

#[test]
fn assemble_round_trips_entry_fields() {
    let entries = [(1u16, 48u8, 48u8, 4u16, 8u32), (2, 64, 64, 24, 3)];
    let group = group_record(&entries);
    let icons = vec![
        RawIcon {
            id: 1,
            data: vec![9; 8],
        },
        RawIcon {
            id: 2,
            data: vec![7; 3],
        },
    ];
    let ico = assemble(&group, &icons).unwrap();
    // Re-parse the assembled bytes as an ICO reader would.
    let count = u16::from_le_bytes([ico[4], ico[5]]) as usize;
    assert_eq!(count, entries.len());
    for (j, (_, w, h, bits, bytes)) in entries.iter().enumerate() {
        let e = 6 + 16 * j;
        assert_eq!(ico[e], *w);
        assert_eq!(ico[e + 1], *h);
        assert_eq!(u16::from_le_bytes([ico[e + 6], ico[e + 7]]), *bits);
        assert_eq!(
            u32::from_le_bytes([ico[e + 8], ico[e + 9], ico[e + 10], ico[e + 11]]),
            *bytes
        );
    }
}

#[test]
fn assemble_rejects_missing_icon() {
    let group = group_record(&[(9, 16, 16, 32, 4)]);
    let icons: Vec<RawIcon> = Vec::new();
    assert_eq!(assemble(&group, &icons), Err(AssembleError::MissingIcon(9)));
}

#[test]
fn assemble_rejects_size_mismatch() {
    let group = group_record(&[(1, 16, 16, 32, 4)]);
    let icons = vec![RawIcon {
        id: 1,
        data: vec![0; 5],
    }];
    assert_eq!(assemble(&group, &icons), Err(AssembleError::SizeMismatch(1)));
}

#[test]
fn assemble_rejects_bad_group() {
    let icons: Vec<RawIcon> = Vec::new();
    assert_eq!(assemble(&[0, 0, 2, 0, 0, 0], &icons), Err(AssembleError::BadGroup));
    assert_eq!(assemble(&[1, 0], &icons), Err(AssembleError::BadGroup));
}

fn single_group_image(id_field: u32) -> Vec<u8> {
    let group = group_record(&[(1, 16, 16, 32, 4)]);
    let rsrc = build_rsrc(
        RVA,
        &[(1, &[0xde, 0xad, 0xbe, 0xef])],
        &[(TName::Id(id_field), &group)],
        &[],
    );
    build_pe(false, Some((&rsrc, RVA)))
}

#[test]
fn lookup_by_id_accepts_both_signs() {
    let pe = single_group_image(5);
    let a = get_ico(&pe, 5).unwrap();
    let b = get_ico(&pe, -5).unwrap();
    assert_eq!(a, b);
    assert_eq!(&a[0..6], &[0, 0, 1, 0, 1, 0]);
    assert_eq!(get_ico(&pe, 6), Err(ExtractError::IconNotFound(6)));
}

#[test]
fn no_resources_is_distinct_from_empty() {
    let bare = build_pe(false, None);
    assert!(matches!(get_icos(&bare), Err(ExtractError::NoResources)));
    // A resource directory without icon groups is an empty success.
    let rsrc = build_rsrc(RVA, &[], &[], &[(10, 7, b"x")]);
    let pe = build_pe(false, Some((&rsrc, RVA)));
    let icos = get_icos(&pe).unwrap();
    assert!(icos.is_empty());
    assert!(matches!(
        iterate_icon_groups(&build_pe(true, None)),
        Err(ExtractError::NoResources)
    ));
}

#[test]
fn batch_skips_corrupt_group() {
    let good = group_record(&[(1, 16, 16, 32, 4)]);
    let mut corrupt = good.clone();
    corrupt[0] = 0xff; // reserved word must be zero
    let rsrc = build_rsrc(
        RVA,
        &[(1, &[1, 2, 3, 4])],
        &[
            (TName::Id(10), &good),
            (TName::Id(11), &corrupt),
            (TName::Id(12), &good),
            (TName::Id(13), &good),
        ],
        &[],
    );
    let pe = build_pe(false, Some((&rsrc, RVA)));
    let icos = get_icos(&pe).unwrap();
    assert_eq!(icos.len(), 3);
    assert_eq!(icos[0].id, "#10");
    assert_eq!(icos[1].id, "#12");
    assert_eq!(icos[2].id, "#13");
}

#[test]
fn ordinals_follow_enumeration_order() {
    let g1 = group_record(&[(1, 16, 16, 32, 4)]);
    let g2 = group_record(&[(2, 32, 32, 8, 2)]);
    let rsrc = build_rsrc(
        RVA,
        &[(1, &[1, 2, 3, 4]), (2, &[5, 6])],
        &[(TName::Id(21), &g1), (TName::Id(22), &g2)],
        &[],
    );
    let pe = build_pe(false, Some((&rsrc, RVA)));
    let icos = get_icos(&pe).unwrap();
    assert_eq!(icos.len(), 2);
    assert_eq!(get_ico_by_ordinal(&pe, 0).unwrap(), icos[0].data);
    assert_eq!(get_ico_by_ordinal(&pe, 1).unwrap(), icos[1].data);
    assert_eq!(get_ico_by_ordinal(&pe, 2), Err(ExtractError::IconNotFound(2)));
    assert_eq!(get_ico_by_ordinal(&pe, -1), Err(ExtractError::IconNotFound(-1)));
}

#[test]
fn string_named_group_round_trips() {
    let group = group_record(&[(1, 16, 16, 32, 4)]);
    let rsrc = build_rsrc(
        RVA,
        &[(1, &[1, 2, 3, 4])],
        &[(TName::Str("MAIN"), &group)],
        &[],
    );
    let pe = build_pe(true, Some((&rsrc, RVA)));
    let icos = get_icos(&pe).unwrap();
    assert_eq!(icos.len(), 1);
    assert_eq!(icos[0].id, "MAIN");
    // A string-named group is not reachable by numeric id.
    assert_eq!(get_ico(&pe, 1), Err(ExtractError::IconNotFound(1)));
}

#[test]
fn pe64_walks_like_pe32() {
    let group = group_record(&[(1, 16, 16, 32, 4)]);
    let rsrc = build_rsrc(RVA, &[(1, &[1, 2, 3, 4])], &[(TName::Id(5), &group)], &[]);
    let pe32 = build_pe(false, Some((&rsrc, RVA)));
    let pe64 = build_pe(true, Some((&rsrc, RVA)));
    assert_eq!(get_ico(&pe32, 5).unwrap(), get_ico(&pe64, 5).unwrap());
}

#[test]
fn raw_icons_enumerate_in_order() {
    let rsrc = build_rsrc(RVA, &[(7, &[1, 2]), (9, &[3])], &[], &[]);
    let pe = build_pe(false, Some((&rsrc, RVA)));
    let raws = iterate_raw_icons(&pe).unwrap();
    assert_eq!(raws.len(), 2);
    assert_eq!(raws[0].id, 7);
    assert_eq!(raws[0].data, vec![1, 2]);
    assert_eq!(raws[1].id, 9);
    assert_eq!(raws[1].data, vec![3]);
}

#[test]
fn truncated_image_is_a_parse_error() {
    let pe = single_group_image(5);
    assert!(matches!(
        get_icos(&pe[..0x50]),
        Err(ExtractError::Parse(ParseError::UnexpectedEof))
    ));
}

#[test]
fn frame_encoding_runs_the_codec() {
    // One red pixel in B,G,R,A order.
    let frame = RawPixelBuffer {
        width: 1,
        height: 1,
        pixels: vec![0, 0, 255, 255],
    };
    let ico = frame_to_ico(&frame).unwrap();
    // A real ICO container comes back, not the input bytes.
    assert_eq!(&ico[0..6], &[0, 0, 1, 0, 1, 0]);
    assert!(ico.len() > 22);
}

#[test]
fn frame_encoding_rejects_oversize() {
    let frame = RawPixelBuffer {
        width: 257,
        height: 1,
        pixels: vec![0; 257 * 4],
    };
    assert_eq!(frame_to_ico(&frame), Err(ExtractError::Encode));
}

#[test]
fn batch_encoding_skips_rejected_frames() {
    let frames = vec![
        RawPixelBuffer {
            width: 1,
            height: 1,
            pixels: vec![0, 0, 255, 255],
        },
        RawPixelBuffer {
            width: 300,
            height: 1,
            pixels: vec![0; 300 * 4],
        },
        RawPixelBuffer {
            width: 1,
            height: 1,
            pixels: vec![255, 0, 0, 255],
        },
    ];
    let icos = get_dll_icos(&frames);
    assert_eq!(icos.len(), 2);
}

#[test]
fn dll_ico_selection_prefers_primary() {
    assert_eq!(
        get_dll_ico(3, Some(vec![1]), Some(vec![2])),
        Ok(vec![1])
    );
    assert_eq!(get_dll_ico(3, None, Some(vec![2])), Ok(vec![2]));
    assert_eq!(
        get_dll_ico(3, None, None),
        Err(ExtractError::IconNotFound(3))
    );
}

#[test]
fn rendered_icon_payload_decodes() {
    assert_eq!(decode_rendered_icon("AQID"), Some(vec![1, 2, 3]));
    assert_eq!(decode_rendered_icon("!!!"), None);
    assert_eq!(decode_rendered_icon(""), Some(Vec::new()));
}

fn string_table_block(strings: &[&str]) -> Vec<u8> {
    let mut t = Vec::new();
    for s in strings {
        let units: Vec<u16> = s.encode_utf16().collect();
        t.extend_from_slice(&w16(units.len() as u16));
        for u in units {
            t.extend_from_slice(&w16(u));
        }
    }
    t
}

#[test]
fn text_from_string_table() {
    // Id 5 lives in block 1 at position 5.
    let mut strings = vec![""; 16];
    strings[5] = "Hello PE";
    let block = string_table_block(&strings);
    let rsrc = build_rsrc(RVA, &[], &[], &[(6, 1, &block)]);
    let pe = build_pe(false, Some((&rsrc, RVA)));
    assert_eq!(get_dll_txt(&pe, 5).unwrap(), "Hello PE");
    assert_eq!(get_dll_txt(&pe, -5).unwrap(), "Hello PE");
}

#[test]
fn text_falls_back_to_raw_data() {
    let rsrc = build_rsrc(RVA, &[], &[], &[(10, 7, b"raw payload")]);
    let pe = build_pe(false, Some((&rsrc, RVA)));
    assert_eq!(get_dll_txt(&pe, 7).unwrap(), "raw payload");
    assert_eq!(get_dll_txt(&pe, 8), Err(ExtractError::TextNotFound(8)));
}

#[test]
fn text_prefers_nonempty_string_entry() {
    let mut strings = vec![""; 16];
    strings[3] = "from table";
    let block = string_table_block(&strings);
    let rsrc = build_rsrc(RVA, &[], &[], &[(6, 1, &block), (10, 3, b"from rcdata")]);
    let pe = build_pe(false, Some((&rsrc, RVA)));
    assert_eq!(get_dll_txt(&pe, 3).unwrap(), "from table");
    // An empty table entry falls through to the raw data resource.
    let rsrc2 = build_rsrc(RVA, &[], &[], &[(6, 1, &block), (10, 4, b"from rcdata")]);
    let pe2 = build_pe(false, Some((&rsrc2, RVA)));
    assert_eq!(get_dll_txt(&pe2, 4).unwrap(), "from rcdata");
}

#[test]
fn error_helpers_carry_their_fields() {
    match exeico::error::file_operation_error("Write", "/tmp/out.ico", "denied") {
        exeico::error::AppError::FileOperation {
            operation,
            path,
            detail,
        } => {
            assert_eq!(operation, "Write");
            assert_eq!(path, "/tmp/out.ico");
            assert_eq!(detail, "denied");
        }
        _ => panic!("wrong variant"),
    }
    match exeico::error::parse_error("id", "abc") {
        exeico::error::AppError::Parse { item, value } => {
            assert_eq!(item, "id");
            assert_eq!(value, "abc");
        }
        _ => panic!("wrong variant"),
    }
    match exeico::error::resource_not_found("Icon", -5) {
        exeico::error::AppError::ResourceNotFound { resource_type, id } => {
            assert_eq!(resource_type, "Icon");
            assert_eq!(id, -5);
        }
        _ => panic!("wrong variant"),
    }
}

#[test]
fn group_with_missing_raw_icon_is_excluded_from_batch() {
    let good = group_record(&[(1, 16, 16, 32, 4)]);
    let orphan = group_record(&[(99, 16, 16, 32, 4)]);
    let rsrc = build_rsrc(
        RVA,
        &[(1, &[1, 2, 3, 4])],
        &[(TName::Id(10), &good), (TName::Id(11), &orphan)],
        &[],
    );
    let pe = build_pe(false, Some((&rsrc, RVA)));
    let icos = get_icos(&pe).unwrap();
    assert_eq!(icos.len(), 1);
    assert_eq!(icos[0].id, "#10");
    // Requested directly, the same group reports its missing member.
    assert_eq!(
        get_ico(&pe, 11),
        Err(ExtractError::Assemble(AssembleError::MissingIcon(99)))
    );
}

#[test]
fn text_with_invalid_utf16_reports_bad_encoding() {
    // Block 1, position 0: one word holding an unpaired surrogate.
    let mut block = Vec::new();
    block.extend_from_slice(&w16(1));
    block.extend_from_slice(&w16(0xd800));
    for _ in 1..16 {
        block.extend_from_slice(&w16(0));
    }
    let rsrc = build_rsrc(RVA, &[], &[], &[(6, 1, &block)]);
    let pe = build_pe(false, Some((&rsrc, RVA)));
    assert_eq!(get_dll_txt(&pe, 0), Err(ExtractError::BadEncoding));
}

#[test]
fn enumeration_is_restartable_and_stable() {
    let g1 = group_record(&[(1, 16, 16, 32, 4)]);
    let g2 = group_record(&[(2, 32, 32, 8, 2)]);
    let rsrc = build_rsrc(
        RVA,
        &[(1, &[1, 2, 3, 4]), (2, &[5, 6])],
        &[(TName::Id(21), &g1), (TName::Id(22), &g2)],
        &[],
    );
    let pe = build_pe(false, Some((&rsrc, RVA)));
    let first = get_icos(&pe).unwrap();
    let second = get_icos(&pe).unwrap();
    assert_eq!(first.len(), second.len());
    for (a, b) in first.iter().zip(second.iter()) {
        assert_eq!(a.id, b.id);
        assert_eq!(a.data, b.data);
    }
}

#[test]
fn raw_data_with_invalid_utf8_is_replaced() {
    let rsrc = build_rsrc(RVA, &[], &[], &[(10, 2, &[b'o', b'k', 0xff][..])]);
    let pe = build_pe(false, Some((&rsrc, RVA)));
    assert_eq!(get_dll_txt(&pe, 2).unwrap(), "ok\u{fffd}");
}
