//! The layer-shell display client.

use waywallen::drm::DrmNode;
use waywallen::endpoint::{on_hello, on_register, DisplayRequest, HelloOutcome, PoolMsg, Protocol};
use waywallen::layer::output::{physical_size, Binding, Output, ReleaseQueues};
use waywallen::layer::session::{
    hello, introduced, map_transform, on_accepted, on_welcome, register, Action, ServerEvent,
    Session, Transform,
};
use waywallen::layer::{
    bound_global, default_socket_path, format_table, main_device, missing_global, parse_args, Args,
    ArgsFault, ByteOrder, DmabufCaps, Global,
};
use waywallen::layout::Rect;
use waywallen::negotiate::{unflatten_caps, DRM_FORMAT_ABGR8888, DRM_FORMAT_XRGB8888};

fn args(list: &[&str]) -> Result<Args, ArgsFault> {
    let list: Vec<String> = list.iter().map(|s| s.to_string()).collect();
    parse_args(&list, &None, &Some("/run/user/7".to_string()))
}

#[test]
fn command_line_names_socket_and_prefix() {
    let a = args(&[]).unwrap();
    assert_eq!(a.socket, "/run/user/7/waywallen/display.sock");
    assert_eq!(a.name_prefix, "waywallen-layer-shell");
    let a = args(&["--socket", "/a", "--name", "n", "--socket", "/b"]).unwrap();
    assert_eq!((a.socket.as_str(), a.name_prefix.as_str()), ("/b", "n"));
    assert!(matches!(args(&["--socket"]), Err(ArgsFault::SocketValue)));
    assert!(matches!(args(&["--name"]), Err(ArgsFault::NameValue)));
    assert!(matches!(args(&["-h"]), Err(ArgsFault::Help)));
    assert!(matches!(args(&["--help", "--socket"]), Err(ArgsFault::Help)));
    assert!(matches!(args(&["-x"]), Err(ArgsFault::Unknown(a)) if a == "-x"));
    assert_eq!(default_socket_path(&None), "/tmp/waywallen/display.sock");
    let env = parse_args(&vec![], &Some("/env".into()), &None).unwrap();
    assert_eq!(env.socket, "/env");
}

#[test]
fn globals_are_bound_at_understood_versions() {
    assert_eq!(bound_global("wl_compositor", 9), Some((Global::Compositor, 6)));
    assert_eq!(bound_global("wl_compositor", 3), Some((Global::Compositor, 3)));
    assert_eq!(bound_global("wl_output", 4), Some((Global::Output, 4)));
    assert_eq!(bound_global("wp_viewporter", 2), Some((Global::Viewporter, 1)));
    assert_eq!(bound_global("wl_seat", 1), None);
    assert_eq!(missing_global(true, true, true, 1), None);
    let m = missing_global(false, false, false, 0);
    assert_eq!(m, Some("compositor does not expose wl_compositor"));
    assert_eq!(missing_global(true, true, true, 0), Some("no wl_output available"));
}

#[test]
fn device_numbers_are_read_from_bytes() {
    let dev: u64 = (226 << 8) | 128;
    let little = dev.to_le_bytes().to_vec();
    let big = dev.to_be_bytes().to_vec();
    let node = Some(DrmNode { major: 226, minor: 128 });
    assert_eq!(main_device(&little, ByteOrder::Little), node);
    assert_eq!(main_device(&big, ByteOrder::Big), node);
    assert_eq!(main_device(&vec![1, 2, 3], ByteOrder::Little), None);
}

fn table() -> Vec<(u32, u64)> {
    let mut bytes = vec![];
    for (f, m) in [(7u32, 0u64), (7, 5), (3, 9)] {
        bytes.extend(f.to_le_bytes());
        bytes.extend([0xff; 4]);
        bytes.extend(m.to_le_bytes());
    }
    bytes.push(1);
    format_table(&bytes, ByteOrder::Little)
}

#[test]
fn format_table_and_tranches() {
    assert_eq!(table(), vec![(7, 0), (7, 5), (3, 9)]);
    let mut caps = DmabufCaps::new();
    assert!(caps.is_empty());
    caps.add_tranche(&table(), &vec![2, 0, 1, 0, 200, 0, 9], ByteOrder::Little);
    let m = caps.announcement(DrmNode::unknown());
    assert_eq!(m.fourccs, vec![3, 7]);
    assert_eq!(m.mod_counts, vec![1, 1]);
    assert_eq!(m.modifiers, vec![9, 5]);
    assert_eq!(m.plane_counts, vec![1, 1]);
    caps.add_modifier(7, 1, 2);
    caps.add_modifier(7, 1, 2);
    caps.add_format(7);
    let m = caps.announcement(DrmNode::unknown());
    assert_eq!(m.mod_counts, vec![1, 3]);
    let mut of_seven = m.modifiers[1..].to_vec();
    of_seven.sort();
    assert_eq!(of_seven, vec![0, 5, (1 << 32) + 2]);
}

#[test]
fn silent_compositor_is_taken_to_know_linear() {
    let m = DmabufCaps::new().announcement(DrmNode { major: 226, minor: 128 });
    assert_eq!(m.fourccs, vec![DRM_FORMAT_ABGR8888, DRM_FORMAT_XRGB8888]);
    assert_eq!(m.modifiers, vec![0, 0]);
    assert_eq!((m.extent_max_w, m.extent_max_h), (7680, 4320));
    let caps = unflatten_caps(
        &m.fourccs,
        &m.mod_counts,
        &m.modifiers,
        &[1, 1],
        &m.plane_counts,
        &m.device_uuid,
        &m.driver_uuid,
        DrmNode { major: m.drm_render_major, minor: m.drm_render_minor },
        m.sync_caps,
        m.color_caps,
        m.mem_hints,
        (m.extent_max_w, m.extent_max_h),
    )
    .unwrap();
    assert_eq!(caps.identity.drm, DrmNode { major: 226, minor: 128 });
    assert_eq!(caps.formats.fourccs().len(), 2);
}

#[test]
fn sizes_are_scaled_and_rounded() {
    assert_eq!(physical_size((1920, 1080), 2, None), (3840, 2160));
    assert_eq!(physical_size((1920, 1080), 0, None), (1920, 1080));
    assert_eq!(physical_size((1707, 960), 1, Some(180)), (2561, 1440));
    assert_eq!(physical_size((101, 100), 1, Some(150)), (126, 125));
    assert_eq!(physical_size((u32::MAX, 1), 2, None), (u32::MAX, 2));
}

const NODE: DrmNode = DrmNode { major: 226, minor: 128 };

fn configured_output() -> Output {
    let mut o = Output::new();
    o.surface_made(true);
    let c = o.on_configure(1000, 500, "pre", 3, NODE);
    assert!(c.start_worker && c.resize.is_none());
    o
}

#[test]
fn first_size_starts_the_connection() {
    let mut o = configured_output();
    let b = o.binding.as_mut().unwrap();
    assert_eq!(b.display_name, "pre-3");
    assert_eq!(b.configured, Some((1000, 500)));
    b.session_started();
    register(b);
    assert_eq!(introduced(b, (1000, 500)), None);
    let c = o.on_configure(1000, 500, "pre", 3, NODE);
    assert!(!c.start_worker && c.resize.is_none());
    let c = o.on_configure(1200, 500, "pre", 3, NODE);
    assert_eq!(c.resize, Some((1200, 500)));
    o.binding.as_mut().unwrap().pushed((1200, 500));
    assert_eq!(o.on_preferred_scale(120), None);
    assert_eq!(o.on_preferred_scale(240), Some((2400, 1000)));
}

#[test]
fn closed_outputs_start_over() {
    let mut o = configured_output();
    assert!(!o.wants_surface(true, true));
    o.on_closed();
    assert!(o.binding.is_none() && !o.worker_started);
    assert!(o.wants_surface(true, true));
    assert!(!o.wants_surface(true, false));
    o.on_scale(-3);
    assert_eq!(o.scale, 1);

    let mut o = configured_output();
    assert!(o.binding.as_ref().unwrap().may_start());
    assert!(!o.on_removed());
    let b = o.binding.as_mut().unwrap();
    assert!(!b.may_start());
    b.session_started();
    assert!(!b.session_ended());
    assert!(o.binding.is_some());
}

#[test]
fn releases_are_answered_in_order() {
    let mut q = ReleaseQueues::new();
    assert!(!q.push(0, 1));
    q.reset(2);
    assert!(q.push(1, 10) && q.push(1, 11));
    assert_eq!(q.pop(1), Some(10));
    assert_eq!(q.pop(1), Some(11));
    assert_eq!(q.pop(1), None);
    assert_eq!(q.pop(7), None);
}

#[test]
fn released_buffers_signal_their_descriptor() {
    let (mut s, mut b) = bound();
    s.on_event(&mut b, frame(7, 1), vec![30, 31]).unwrap();
    let mut o = configured_output();
    assert_eq!(o.on_buffer_release(1), None);
    o.binding = Some(b);
    assert_eq!(o.on_buffer_release(1), Some(31));
    assert_eq!(o.on_buffer_release(1), None);
    assert_eq!(Output::new().on_buffer_release(0), None);
}

#[test]
fn client_and_daemon_get_along() {
    let mut o = configured_output();
    let b = o.binding.as_mut().unwrap();
    let p = Protocol { name: "waywallen-display-v1".into(), min_version: 1, max_version: 2 };
    let greeting = hello(b, "waywallen-display-v1", 2, "0.1.0");
    assert!(matches!(on_hello(&greeting, 1, &p, "0.1.0"), HelloOutcome::Welcome(_)));
    let reg = on_register(register(b), 2).unwrap();
    assert_eq!((reg.name.as_str(), reg.width, reg.height), ("pre-3", 1000, 500));
    assert_eq!(reg.gpu, NODE);
    assert_eq!(b.last_pushed, Some((1000, 500)));
}

#[test]
fn client_needs_explicit_fences() {
    let with = ServerEvent::Welcome { features: vec!["a".into(), "explicit_sync_fd".into()] };
    let without = ServerEvent::Welcome { features: vec!["a".into()] };
    assert!(on_welcome(&with, 1).is_ok());
    assert_eq!(on_welcome(&without, 1).unwrap_err(), "server missing explicit_sync_fd feature");
    assert_eq!(on_welcome(&ServerEvent::Other, 9).unwrap_err(), "expected welcome, got opcode 9");
    let accepted = ServerEvent::DisplayAccepted { display_id: 4 };
    assert_eq!(on_accepted(&accepted, 2), Ok(4));
    assert_eq!(
        on_accepted(&with, 1).unwrap_err(),
        "expected display_accepted, got opcode 1"
    );
}

#[test]
fn orientations_have_eight_values() {
    assert_eq!(map_transform(0), Transform::Normal);
    assert_eq!(map_transform(3), Transform::Rotated270);
    assert_eq!(map_transform(5), Transform::Flipped90);
    assert_eq!(map_transform(8), Transform::Normal);
}

fn pool(generation: u64) -> PoolMsg {
    PoolMsg {
        buffer_generation: generation,
        count: 2,
        width: 64,
        height: 32,
        fourcc: 1,
        modifier: (3 << 32) | 4,
        planes_per_buffer: 2,
        stride: vec![10, 11, 12, 13],
        plane_offset: vec![0, 1, 2, 3],
        size: vec![0; 4],
    }
}

fn bound() -> (Session, Binding) {
    let mut b = configured_output().binding.unwrap();
    let mut s = Session::new(1000, 500);
    let ev = ServerEvent::BindBuffers(pool(7));
    match s.on_event(&mut b, ev, vec![20, 21, 22, 23]).unwrap() {
        Action::Import { planes, .. } => {
            assert_eq!(planes.len(), 4);
            let p = planes[3];
            assert_eq!((p.buffer, p.plane, p.fd, p.offset, p.stride), (1, 1, 23, 3, 13));
            assert_eq!((p.modifier_hi, p.modifier_lo), (3, 4));
        }
        other => panic!("unexpected {other:?}"),
    }
    (s, b)
}

fn frame(generation: u64, index: u32) -> ServerEvent {
    ServerEvent::FrameReady { buffer_generation: generation, buffer_index: index, seq: 1 }
}

#[test]
fn frames_are_shown_one_at_a_time() {
    let (mut s, mut b) = bound();
    let source = Rect { x: 1, y: 2, w: 3, h: 4 };
    let cfg = ServerEvent::SetConfig { source, dest_w: 10, dest_h: 20, transform: 1 };
    assert!(matches!(s.on_event(&mut b, cfg, vec![]), Ok(Action::Nothing)));
    match s.on_event(&mut b, frame(7, 1), vec![30, 31]).unwrap() {
        Action::Frame { signal, commit: Some(c) } => {
            assert_eq!(signal, None);
            assert_eq!((c.buffer_index, c.dest), (1, Some((10, 20))));
            assert_eq!(c.transform, Some(Transform::Rotated90));
            assert_eq!(c.surface_size, (1000, 500));
            assert_eq!((c.buf_width, c.buf_height), (64, 32));
        }
        other => panic!("unexpected {other:?}"),
    }
    match s.on_event(&mut b, frame(7, 0), vec![32, 33]).unwrap() {
        Action::Frame { signal: None, commit: None } => {}
        other => panic!("unexpected {other:?}"),
    }
    b.frame_done();
    match s.on_event(&mut b, frame(7, 0), vec![34, 35]).unwrap() {
        Action::Frame { commit: Some(c), .. } => assert_eq!(c.transform, None),
        other => panic!("unexpected {other:?}"),
    }
    assert_eq!(b.releases.pop(1), Some(31));
    assert_eq!(b.releases.pop(0), Some(33));
    assert_eq!(b.releases.pop(0), Some(35));
}

#[test]
fn frames_of_other_pools_are_not_shown() {
    let (mut s, mut b) = bound();
    match s.on_event(&mut b, frame(6, 0), vec![30, 31]).unwrap() {
        Action::Frame { commit: None, signal: None } => {}
        other => panic!("unexpected {other:?}"),
    }
    match s.on_event(&mut b, frame(7, 5), vec![30, 31]).unwrap() {
        Action::Frame { commit: None, signal: Some(31) } => {}
        other => panic!("unexpected {other:?}"),
    }
    let other_pool = ServerEvent::Unbind { buffer_generation: 6 };
    assert!(matches!(s.on_event(&mut b, other_pool, vec![]), Ok(Action::Nothing)));
    let this_pool = ServerEvent::Unbind { buffer_generation: 7 };
    assert!(matches!(s.on_event(&mut b, this_pool, vec![]), Ok(Action::DropPool)));
    match s.on_event(&mut b, frame(7, 0), vec![30]).unwrap() {
        Action::Frame { commit: None, .. } => {}
        other => panic!("unexpected {other:?}"),
    }
}

#[test]
fn bad_pools_and_errors_end_the_session() {
    let (mut s, mut b) = bound();
    let e = s.on_event(&mut b, ServerEvent::BindBuffers(pool(8)), vec![1]).unwrap_err();
    assert_eq!(e, "bind_buffers expected 4 fds, got 1");
    let short = PoolMsg { stride: vec![1], ..pool(8) };
    let e = s.on_event(&mut b, ServerEvent::BindBuffers(short), vec![1, 2, 3, 4]).unwrap_err();
    assert_eq!(
        e,
        "bind_buffers stride/offset arrays size mismatch (expected 4, stride=1, offset=4)"
    );
    assert_eq!(s.generation, Some(7));
    let failed = ServerEvent::Error { code: 3, message: "no".into() };
    assert_eq!(s.on_event(&mut b, failed, vec![]).unwrap_err(), "server error 3: no");
    let req = DisplayRequest::Other;
    assert!(on_register(req, 1).is_err());
}
