//! Decoding capability arrays and picking one buffer scheme.

use waywallen::drm::DrmNode;
use waywallen::negotiate::{
    fourcc_str, hex_uuid, pack_uuid_words, pick, pick_color, pick_mem_hint_same_dev, pick_sync,
    unflatten_caps, DeviceIdentity, MemSource, NegotiateError, PathCategory, PeerCaps,
    COLOR_ALPHA_PREMUL, COLOR_ENC_BT709, COLOR_RANGE_FULL, COLOR_RANGE_LIMITED, DEFAULT_COLOR,
    DRM_FORMAT_ABGR8888, DRM_FORMAT_MOD_INVALID, DRM_FORMAT_MOD_LINEAR, DRM_FORMAT_XRGB8888,
    MEM_HINT_DEVICE_LOCAL, MEM_HINT_HOST_VISIBLE, MEM_HINT_PROTECTED, SYNC_IMPLICIT,
    SYNC_SYNCOBJ_BINARY, SYNC_SYNCOBJ_TIMELINE, USAGE_SAMPLED, USAGE_SCANOUT,
};

fn drm() -> DrmNode {
    DrmNode { major: 0, minor: 0 }
}

#[test]
fn unflatten_multi_fourcc_multi_modifier() {
    let caps = unflatten_caps(
        &[DRM_FORMAT_ABGR8888, DRM_FORMAT_XRGB8888],
        &[2, 1],
        &[
            DRM_FORMAT_MOD_LINEAR,
            DRM_FORMAT_MOD_INVALID,
            DRM_FORMAT_MOD_LINEAR,
        ],
        &[USAGE_SAMPLED, USAGE_SAMPLED, USAGE_SCANOUT],
        &[1, 1, 1],
        &[0; 4],
        &[0; 4],
        drm(),
        SYNC_SYNCOBJ_TIMELINE,
        DEFAULT_COLOR,
        0,
        (640, 360),
    )
    .unwrap();
    assert_eq!(caps.formats.by_fourcc.len(), 2);
    let abgr = caps.formats.by_fourcc.get(&DRM_FORMAT_ABGR8888).unwrap();
    assert_eq!(abgr.len(), 2);
    assert_eq!(abgr[1].modifier, DRM_FORMAT_MOD_INVALID);
    let xrgb = caps.formats.by_fourcc.get(&DRM_FORMAT_XRGB8888).unwrap();
    assert_eq!(xrgb.len(), 1);
    assert_eq!(xrgb[0].usage, USAGE_SCANOUT);
}

#[test]
fn last_entry_of_a_modifier_counts() {
    let caps = unflatten_caps(
        &[5, 5],
        &[1, 1],
        &[7, 7],
        &[1, 2],
        &[1, 1],
        &[0; 4],
        &[0; 4],
        DrmNode::unknown(),
        0,
        0,
        0,
        (0, 0),
    )
    .unwrap();
    assert_eq!(caps.formats.by_fourcc.len(), 1);
    let list = caps.formats.by_fourcc.get(&5).unwrap();
    assert_eq!(list.len(), 1);
    assert_eq!((list[0].modifier, list[0].usage, list[0].plane_count), (7, 2, 1));

    // Within one group and across groups, each modifier keeps its first place.
    let caps = unflatten_caps(
        &[5, 6, 5],
        &[3, 1, 2],
        &[7, 8, 7, 7, 9, 8],
        &[1, 2, 3, 4, 5, 6],
        &[1, 1, 2, 1, 1, 4],
        &[0; 4],
        &[0; 4],
        DrmNode::unknown(),
        0,
        0,
        0,
        (0, 0),
    )
    .unwrap();
    let list = caps.formats.by_fourcc.get(&5).unwrap();
    let told: Vec<(u64, u32, u32)> =
        list.iter().map(|c| (c.modifier, c.usage, c.plane_count)).collect();
    assert_eq!(told, vec![(7, 3, 2), (8, 6, 4), (9, 5, 1)]);
    assert_eq!(caps.formats.by_fourcc.get(&6).unwrap().len(), 1);
}

#[test]
fn format_listed_once_keeps_its_entries() {
    let caps = unflatten_caps(
        &[5, 6],
        &[2, 0],
        &[7, 7],
        &[1, 2],
        &[1, 1],
        &[0; 4],
        &[0; 4],
        DrmNode::unknown(),
        0,
        0,
        0,
        (0, 0),
    )
    .unwrap();
    let list = caps.formats.by_fourcc.get(&5).unwrap();
    let told: Vec<(u64, u32, u32)> =
        list.iter().map(|c| (c.modifier, c.usage, c.plane_count)).collect();
    assert_eq!(told, vec![(7, 1, 1), (7, 2, 1)]);
    assert_eq!(caps.formats.by_fourcc.get(&6).unwrap().len(), 0);
}

#[test]
fn any_entry_of_a_modifier_can_match() {
    let gpu = DeviceIdentity { device_uuid: [1; 16], driver_uuid: [2; 16], drm: drm() };
    let caps = |mods: &[(u64, u32)]| {
        caps_one_fourcc(
            DRM_FORMAT_ABGR8888,
            mods,
            gpu,
            SYNC_SYNCOBJ_TIMELINE,
            DEFAULT_COLOR,
            MEM_HINT_DEVICE_LOCAL,
        )
    };
    let scheme = pick(&caps(&[(8, 1), (8, 2)]), &caps(&[(8, 1)])).unwrap();
    assert_eq!((scheme.modifier, scheme.plane_count), (8, 1));
}

#[test]
fn unflatten_rejects_length_mismatch() {
    let err = unflatten_caps(
        &[DRM_FORMAT_ABGR8888],
        &[2],
        &[DRM_FORMAT_MOD_LINEAR],
        &[USAGE_SAMPLED, USAGE_SAMPLED],
        &[1, 1],
        &[0; 4],
        &[0; 4],
        drm(),
        0,
        0,
        0,
        (0, 0),
    )
    .unwrap_err();
    assert!(matches!(err, NegotiateError::MalformedCaps(_)));
}

#[test]
fn unflatten_rejects_bad_uuid_length() {
    let err = unflatten_caps(
        &[],
        &[],
        &[],
        &[],
        &[],
        &[0, 0, 0],
        &[0; 4],
        drm(),
        0,
        0,
        0,
        (0, 0),
    )
    .unwrap_err();
    assert!(matches!(err, NegotiateError::MalformedCaps(_)));
}

#[test]
fn unflatten_rejects_bad_mod_counts() {
    let err = unflatten_caps(
        &[DRM_FORMAT_ABGR8888, DRM_FORMAT_XRGB8888],
        &[1],
        &[DRM_FORMAT_MOD_LINEAR],
        &[USAGE_SAMPLED],
        &[1],
        &[0; 4],
        &[0; 4],
        drm(),
        0,
        0,
        0,
        (0, 0),
    )
    .unwrap_err();
    assert!(matches!(err, NegotiateError::MalformedCaps(_)));
}

#[test]
fn device_identity_same_device_by_uuid() {
    let mut a = DeviceIdentity::zero();
    let mut b = DeviceIdentity::zero();
    a.device_uuid[0] = 0x42;
    b.device_uuid[0] = 0x42;
    assert!(a.same_device(&b));
}

#[test]
fn device_identity_zero_uuid_falls_back_to_drm() {
    let a = DeviceIdentity {
        device_uuid: [0; 16],
        driver_uuid: [0; 16],
        drm: DrmNode {
            major: 226,
            minor: 128,
        },
    };
    let b = DeviceIdentity {
        device_uuid: [0; 16],
        driver_uuid: [0; 16],
        drm: DrmNode {
            major: 226,
            minor: 128,
        },
    };
    assert!(a.same_device(&b));
    let c = DeviceIdentity {
        device_uuid: [0; 16],
        driver_uuid: [0; 16],
        drm: DrmNode {
            major: 226,
            minor: 129,
        },
    };
    assert!(!a.same_device(&c));
}

#[test]
fn device_identity_uuid_takes_precedence_over_mismatched_drm() {
    let mut a = DeviceIdentity {
        device_uuid: [0x42; 16],
        driver_uuid: [0; 16],
        drm: DrmNode {
            major: 226,
            minor: 128,
        },
    };
    let b = DeviceIdentity {
        device_uuid: [0x42; 16],
        driver_uuid: [0; 16],
        drm: DrmNode {
            major: 226,
            minor: 129,
        },
    };
    assert!(a.same_device(&b));
    a.device_uuid = [0x42; 16];
    let c = DeviceIdentity {
        device_uuid: [0x99; 16],
        driver_uuid: [0; 16],
        drm: DrmNode {
            major: 226,
            minor: 128,
        },
    };
    assert!(!a.same_device(&c));
}

fn caps_one_fourcc(
    fourcc: u32,
    mods: &[(u64, u32)],
    identity: DeviceIdentity,
    sync: u32,
    color: u32,
    mem: u32,
) -> PeerCaps {
    let mod_count = mods.len() as u32;
    let modifiers: Vec<u64> = mods.iter().map(|(m, _)| *m).collect();
    let plane_counts: Vec<u32> = mods.iter().map(|(_, p)| *p).collect();
    let usages: Vec<u32> = vec![USAGE_SAMPLED; mods.len()];
    let dev_words: Vec<u32> = identity
        .device_uuid
        .chunks_exact(4)
        .map(|c| u32::from_le_bytes([c[0], c[1], c[2], c[3]]))
        .collect();
    let drv_words: Vec<u32> = identity
        .driver_uuid
        .chunks_exact(4)
        .map(|c| u32::from_le_bytes([c[0], c[1], c[2], c[3]]))
        .collect();
    unflatten_caps(
        &[fourcc],
        &[mod_count],
        &modifiers,
        &usages,
        &plane_counts,
        &dev_words,
        &drv_words,
        identity.drm,
        sync,
        color,
        mem,
        (1920, 1080),
    )
    .unwrap()
}

fn ident_uuid(byte: u8) -> DeviceIdentity {
    DeviceIdentity {
        device_uuid: [byte; 16],
        driver_uuid: [byte; 16],
        drm: DrmNode {
            major: 226,
            minor: 128,
        },
    }
}

fn ident_split_uuid(driver_byte: u8, device_byte: u8, drm_minor: u32) -> DeviceIdentity {
    DeviceIdentity {
        device_uuid: [device_byte; 16],
        driver_uuid: [driver_byte; 16],
        drm: DrmNode {
            major: 226,
            minor: drm_minor,
        },
    }
}

#[test]
fn pick_same_device_prefers_non_linear() {
    let nl: u64 = 0x0100_0000_0000_0001;
    let p = caps_one_fourcc(
        DRM_FORMAT_ABGR8888,
        &[(DRM_FORMAT_MOD_LINEAR, 1), (nl, 1)],
        ident_uuid(0x42),
        SYNC_SYNCOBJ_TIMELINE,
        DEFAULT_COLOR,
        MEM_HINT_DEVICE_LOCAL | MEM_HINT_HOST_VISIBLE,
    );
    let c = caps_one_fourcc(
        DRM_FORMAT_ABGR8888,
        &[(DRM_FORMAT_MOD_LINEAR, 1), (nl, 1)],
        ident_uuid(0x42),
        SYNC_SYNCOBJ_TIMELINE,
        DEFAULT_COLOR,
        MEM_HINT_DEVICE_LOCAL | MEM_HINT_HOST_VISIBLE,
    );
    let s = pick(&p, &c).unwrap();
    assert_eq!(s.fourcc, DRM_FORMAT_ABGR8888);
    assert_eq!(s.modifier, nl);
    assert_eq!(s.plane_count, 1);
    assert_eq!(s.mem_hint, MEM_HINT_DEVICE_LOCAL);
}

#[test]
fn pick_cross_device_uses_compat_linear() {
    let nl: u64 = 0x0100_0000_0000_0001;
    let p = caps_one_fourcc(
        DRM_FORMAT_ABGR8888,
        &[(DRM_FORMAT_MOD_LINEAR, 1), (nl, 1)],
        ident_uuid(0xAA),
        SYNC_SYNCOBJ_TIMELINE,
        DEFAULT_COLOR,
        MEM_HINT_DEVICE_LOCAL,
    );
    let c = caps_one_fourcc(
        DRM_FORMAT_ABGR8888,
        &[(DRM_FORMAT_MOD_LINEAR, 1), (nl, 1)],
        ident_uuid(0xBB),
        SYNC_SYNCOBJ_TIMELINE,
        DEFAULT_COLOR,
        MEM_HINT_HOST_VISIBLE,
    );
    let s = pick(&p, &c).unwrap();
    assert_eq!(s.fourcc, DRM_FORMAT_ABGR8888);
    assert_eq!(s.modifier, DRM_FORMAT_MOD_LINEAR);
    assert_eq!(s.path, PathCategory::CompatLinear);
    assert_eq!(s.mem_source, MemSource::GpuLinear);
    assert_eq!(s.mem_hint, 0);
}

#[test]
fn pick_no_fourcc_intersection() {
    let p = caps_one_fourcc(
        DRM_FORMAT_ABGR8888,
        &[(DRM_FORMAT_MOD_LINEAR, 1)],
        ident_uuid(0x42),
        SYNC_SYNCOBJ_TIMELINE,
        DEFAULT_COLOR,
        MEM_HINT_HOST_VISIBLE,
    );
    let c = caps_one_fourcc(
        DRM_FORMAT_XRGB8888,
        &[(DRM_FORMAT_MOD_LINEAR, 1)],
        ident_uuid(0x42),
        SYNC_SYNCOBJ_TIMELINE,
        DEFAULT_COLOR,
        MEM_HINT_HOST_VISIBLE,
    );
    assert_eq!(
        pick(&p, &c).unwrap_err(),
        NegotiateError::NoFormatIntersection
    );
}

#[test]
fn pick_blacklist_excludes_modifier() {
    let nl: u64 = 0x0100_0000_0000_0001;
    let mut p = caps_one_fourcc(
        DRM_FORMAT_ABGR8888,
        &[(DRM_FORMAT_MOD_LINEAR, 1), (nl, 1)],
        ident_uuid(0x42),
        SYNC_SYNCOBJ_TIMELINE,
        DEFAULT_COLOR,
        MEM_HINT_HOST_VISIBLE,
    );
    let c = caps_one_fourcc(
        DRM_FORMAT_ABGR8888,
        &[(DRM_FORMAT_MOD_LINEAR, 1), (nl, 1)],
        ident_uuid(0x42),
        SYNC_SYNCOBJ_TIMELINE,
        DEFAULT_COLOR,
        MEM_HINT_HOST_VISIBLE,
    );
    p.blacklist.insert((DRM_FORMAT_ABGR8888, nl));
    let s = pick(&p, &c).unwrap();
    assert_eq!(s.modifier, DRM_FORMAT_MOD_LINEAR);
}

fn caps_multi_fourcc(entries: &[(u32, &[(u64, u32)])], identity: DeviceIdentity) -> PeerCaps {
    let fourccs: Vec<u32> = entries.iter().map(|(f, _)| *f).collect();
    let mod_counts: Vec<u32> = entries.iter().map(|(_, m)| m.len() as u32).collect();
    let mut modifiers: Vec<u64> = Vec::new();
    let mut plane_counts: Vec<u32> = Vec::new();
    let mut usages: Vec<u32> = Vec::new();
    for (_, mods) in entries {
        for (m, p) in *mods {
            modifiers.push(*m);
            plane_counts.push(*p);
            usages.push(USAGE_SAMPLED);
        }
    }
    let dev_words: Vec<u32> = identity
        .device_uuid
        .chunks_exact(4)
        .map(|c| u32::from_le_bytes([c[0], c[1], c[2], c[3]]))
        .collect();
    let drv_words: Vec<u32> = identity
        .driver_uuid
        .chunks_exact(4)
        .map(|c| u32::from_le_bytes([c[0], c[1], c[2], c[3]]))
        .collect();
    unflatten_caps(
        &fourccs,
        &mod_counts,
        &modifiers,
        &usages,
        &plane_counts,
        &dev_words,
        &drv_words,
        identity.drm,
        SYNC_SYNCOBJ_TIMELINE,
        DEFAULT_COLOR,
        MEM_HINT_HOST_VISIBLE,
        (1920, 1080),
    )
    .unwrap()
}

#[test]
fn pick_cross_device_only_tile_modifiers_in_producer() {
    let nv_tile: u64 = 0x0300_0000_0060_6010;
    let amd_tile: u64 = 0x0200_0000_0008_2305;
    let p = caps_one_fourcc(
        DRM_FORMAT_ABGR8888,
        &[(nv_tile, 1)],
        ident_uuid(0xAA),
        SYNC_SYNCOBJ_TIMELINE,
        DEFAULT_COLOR,
        MEM_HINT_HOST_VISIBLE,
    );
    let c = caps_one_fourcc(
        DRM_FORMAT_ABGR8888,
        &[(amd_tile, 1), (DRM_FORMAT_MOD_LINEAR, 1)],
        ident_uuid(0xBB),
        SYNC_SYNCOBJ_TIMELINE,
        DEFAULT_COLOR,
        MEM_HINT_HOST_VISIBLE,
    );
    let s = pick(&p, &c).unwrap();
    assert_eq!(s.fourcc, DRM_FORMAT_ABGR8888);
    assert_eq!(s.modifier, DRM_FORMAT_MOD_LINEAR);
    assert_eq!(s.path, PathCategory::CompatLinear);
    assert_eq!(s.mem_source, MemSource::GpuLinear);
}

#[test]
fn pick_no_topology_falls_back_to_compat() {
    let p = caps_one_fourcc(
        DRM_FORMAT_ABGR8888,
        &[(DRM_FORMAT_MOD_LINEAR, 1)],
        DeviceIdentity {
            device_uuid: [0; 16],
            driver_uuid: [0; 16],
            drm: DrmNode {
                major: 226,
                minor: 128,
            },
        },
        SYNC_SYNCOBJ_TIMELINE,
        DEFAULT_COLOR,
        MEM_HINT_HOST_VISIBLE,
    );
    let c = caps_one_fourcc(
        DRM_FORMAT_ABGR8888,
        &[(DRM_FORMAT_MOD_LINEAR, 1)],
        DeviceIdentity {
            device_uuid: [0; 16],
            driver_uuid: [0; 16],
            drm: DrmNode {
                major: 226,
                minor: 130,
            },
        },
        SYNC_SYNCOBJ_TIMELINE,
        DEFAULT_COLOR,
        MEM_HINT_HOST_VISIBLE,
    );
    let s = pick(&p, &c).unwrap();
    assert_eq!(s.path, PathCategory::CompatLinear);
    assert_eq!(s.mem_source, MemSource::GpuLinear);
    assert_eq!(s.mem_hint, 0);
}

#[test]
fn pick_sync_priority_timeline_over_binary() {
    let p = caps_one_fourcc(
        DRM_FORMAT_ABGR8888,
        &[(DRM_FORMAT_MOD_LINEAR, 1)],
        ident_uuid(0x42),
        SYNC_SYNCOBJ_TIMELINE | SYNC_SYNCOBJ_BINARY | SYNC_IMPLICIT,
        DEFAULT_COLOR,
        MEM_HINT_HOST_VISIBLE,
    );
    let c = caps_one_fourcc(
        DRM_FORMAT_ABGR8888,
        &[(DRM_FORMAT_MOD_LINEAR, 1)],
        ident_uuid(0x42),
        SYNC_SYNCOBJ_TIMELINE | SYNC_SYNCOBJ_BINARY,
        DEFAULT_COLOR,
        MEM_HINT_HOST_VISIBLE,
    );
    let s = pick(&p, &c).unwrap();
    assert_eq!(s.sync_mode, SYNC_SYNCOBJ_TIMELINE);

    let c2 = caps_one_fourcc(
        DRM_FORMAT_ABGR8888,
        &[(DRM_FORMAT_MOD_LINEAR, 1)],
        ident_uuid(0x42),
        SYNC_SYNCOBJ_BINARY | SYNC_IMPLICIT,
        DEFAULT_COLOR,
        MEM_HINT_HOST_VISIBLE,
    );
    let s2 = pick(&p, &c2).unwrap();
    assert_eq!(s2.sync_mode, SYNC_SYNCOBJ_BINARY);
}

#[test]
fn pick_no_sync_intersection() {
    let p = caps_one_fourcc(
        DRM_FORMAT_ABGR8888,
        &[(DRM_FORMAT_MOD_LINEAR, 1)],
        ident_uuid(0x42),
        SYNC_SYNCOBJ_TIMELINE,
        DEFAULT_COLOR,
        MEM_HINT_HOST_VISIBLE,
    );
    let c = caps_one_fourcc(
        DRM_FORMAT_ABGR8888,
        &[(DRM_FORMAT_MOD_LINEAR, 1)],
        ident_uuid(0x42),
        SYNC_IMPLICIT,
        DEFAULT_COLOR,
        MEM_HINT_HOST_VISIBLE,
    );
    assert_eq!(
        pick(&p, &c).unwrap_err(),
        NegotiateError::NoSyncIntersection
    );
}

#[test]
fn pick_color_per_axis_intersect() {
    let p_color = COLOR_ENC_BT709 | COLOR_RANGE_FULL | COLOR_ALPHA_PREMUL;
    let c_color = COLOR_ENC_BT709 | COLOR_RANGE_LIMITED | COLOR_ALPHA_PREMUL;
    let p = caps_one_fourcc(
        DRM_FORMAT_ABGR8888,
        &[(DRM_FORMAT_MOD_LINEAR, 1)],
        ident_uuid(0x42),
        SYNC_SYNCOBJ_TIMELINE,
        p_color,
        MEM_HINT_HOST_VISIBLE,
    );
    let c = caps_one_fourcc(
        DRM_FORMAT_ABGR8888,
        &[(DRM_FORMAT_MOD_LINEAR, 1)],
        ident_uuid(0x42),
        SYNC_SYNCOBJ_TIMELINE,
        c_color,
        MEM_HINT_HOST_VISIBLE,
    );
    let s = pick(&p, &c).unwrap();
    assert!(s.color & COLOR_ENC_BT709 != 0, "BT709 must be picked");
    assert!(
        s.color & COLOR_RANGE_LIMITED != 0,
        "range axis empty → DEFAULT_COLOR's LIMITED applied"
    );
    assert!(s.color & COLOR_ALPHA_PREMUL != 0);
}

#[test]
fn fourcc_reads_as_text_or_hex() {
    assert_eq!(fourcc_str(DRM_FORMAT_ABGR8888), "'AB24'");
    assert_eq!(fourcc_str(1), "0x00000001");
}

#[test]
fn uuid_words_are_packed_low_byte_first() {
    let b = pack_uuid_words(&[0x0403_0201, 0x0807_0605, 0, 0xff00_0000]);
    assert_eq!(b[..8], [1, 2, 3, 4, 5, 6, 7, 8]);
    assert_eq!(b[15], 0xff);
    assert_eq!(hex_uuid(&b), "010203040506070800000000000000ff");
}

#[test]
fn codes_of_paths_and_sources() {
    assert_eq!(PathCategory::OptimizedSameDevice.as_u32(), 0);
    assert_eq!(PathCategory::CompatCpuReadback.as_u32(), 3);
    assert_eq!(MemSource::GpuNative.as_u32(), 0);
    assert_eq!(MemSource::DmabufHeap.as_u32(), 2);
}

#[test]
fn sync_needs_a_shared_bit() {
    assert_eq!(pick_sync(SYNC_IMPLICIT, SYNC_IMPLICIT), Ok(SYNC_IMPLICIT));
    assert_eq!(
        pick_sync(SYNC_SYNCOBJ_BINARY, SYNC_IMPLICIT),
        Err(NegotiateError::NoSyncIntersection)
    );
}

#[test]
fn memory_hint_on_one_gpu() {
    assert_eq!(
        pick_mem_hint_same_dev(MEM_HINT_PROTECTED, MEM_HINT_PROTECTED),
        MEM_HINT_PROTECTED
    );
    assert_eq!(
        pick_mem_hint_same_dev(MEM_HINT_DEVICE_LOCAL, MEM_HINT_HOST_VISIBLE),
        MEM_HINT_HOST_VISIBLE
    );
}

#[test]
fn colour_axes_fall_back_to_the_default() {
    assert_eq!(pick_color(0, 0), DEFAULT_COLOR);
}

#[test]
fn dump_names_every_modifier() {
    let caps = caps_one_fourcc(
        DRM_FORMAT_ABGR8888,
        &[(DRM_FORMAT_MOD_LINEAR, 1), (5, 2)],
        ident_uuid(0x42),
        SYNC_SYNCOBJ_TIMELINE,
        DEFAULT_COLOR,
        MEM_HINT_HOST_VISIBLE,
    );
    let lines = caps.log_dump("display 1");
    assert_eq!(lines.len(), 4);
    assert!(lines[0].starts_with("display 1"));
    assert!(lines[1].contains("AB24"));
}

#[test]
fn same_device_is_symmetric() {
    let a = ident_uuid(0x42);
    let b = ident_split_uuid(0x42, 0x43, 129);
    assert_eq!(a.same_device(&b), b.same_device(&a));
    assert!(!a.same_device(&b));
}

#[test]
fn fourccs_of_several_groups() {
    let caps = caps_multi_fourcc(
        &[
            (DRM_FORMAT_XRGB8888, &[(DRM_FORMAT_MOD_LINEAR, 1)]),
            (DRM_FORMAT_ABGR8888, &[(DRM_FORMAT_MOD_LINEAR, 1)]),
        ],
        ident_uuid(1),
    );
    assert_eq!(caps.formats.fourccs(), vec![DRM_FORMAT_ABGR8888, DRM_FORMAT_XRGB8888]);
}
