//! A display's connection: greeting, registration, pools and frames.

use waywallen::drm::DrmNode;
use waywallen::endpoint::{
    bind_event, build_bind_event, frame_event, on_hello, on_loop_event, on_register, DisplayEvent,
    DisplayRequest, HelloOutcome, LoopEvent, Protocol, RefusalCode,
};
use waywallen::error::Error;
use waywallen::renderer::{
    BindSnapshot, ClearColor, FormatCapsMsg, RendererEvent, RendererHandle, SYNC_FD_RETENTION,
};
use waywallen::router::{DisplayRegistration, Effect, Router};
use waywallen::strmap::StrMap;

fn snap() -> BindSnapshot {
    BindSnapshot {
        generation: 7,
        flags: 0,
        count: 2,
        fourcc: 0x34325258,
        width: 800,
        height: 600,
        modifier: 0,
        planes_per_buffer: 1,
        stride: vec![3200, 3200],
        plane_offset: vec![0, 0],
        size: vec![1_920_000, 1_920_000],
        fds: vec![11, 12],
    }
}

fn renderer(bind_snapshot: Option<BindSnapshot>) -> RendererHandle {
    RendererHandle {
        id: "r1".into(),
        wp_type: "scene".into(),
        width: 800,
        height: 600,
        extent_mode: 0,
        extras: StrMap::new(),
        name: "stub".into(),
        pid: None,
        gpu: DrmNode::unknown(),
        bind_snapshot,
        pending_configure: None,
        sync_fds: vec![],
        release_syncobj: None,
        format_caps: None,
        last_dispatched_scheme: None,
        events_subscribed: vec![],
        clear_rgba: ClearColor::default(),
    }
}

#[test]
fn build_bind_event_identity() {
    let (event, dup_fds) = build_bind_event(&snap()).unwrap();
    assert_eq!(dup_fds.len(), 2);
    match event {
        DisplayEvent::BindBuffers(m) => {
            assert_eq!(m.buffer_generation, 7);
            assert_eq!(m.count, 2);
            assert_eq!(m.width, 800);
            assert_eq!(m.height, 600);
            assert_eq!(m.fourcc, 0x34325258);
            assert_eq!(m.modifier, 0);
            assert_eq!(m.planes_per_buffer, 1);
            assert_eq!(m.stride, vec![3200, 3200]);
            assert_eq!(m.plane_offset, vec![0, 0]);
            assert_eq!(m.size, vec![1_920_000, 1_920_000]);
        }
        other => panic!("expected BindBuffers, got {other:?}"),
    }
}

#[test]
fn pools_with_short_lists_are_refused() {
    let bad = BindSnapshot { stride: vec![3200], ..snap() };
    match build_bind_event(&bad) {
        Err(Error::Internal(m)) => assert_eq!(
            m,
            "BindSnapshot parallel arrays inconsistent: count=2 planes=1 expected=2 stride=1 \
             offset=2 size=2 fds=2"
        ),
        other => panic!("unexpected {other:?}"),
    }
}

#[test]
fn pool_of_a_renderer_needs_a_pool() {
    let (_, fds) = bind_event(&renderer(Some(snap()))).unwrap();
    assert_eq!(fds, vec![11, 12]);
    match bind_event(&renderer(None)) {
        Err(Error::Internal(m)) => assert_eq!(m, "renderer r1 has no snapshot"),
        other => panic!("unexpected {other:?}"),
    }
}

#[test]
fn frames_go_out_with_their_fence() {
    let mut h = renderer(Some(snap()));
    h.sync_fds = vec![(4, 100), (5, 101)];
    match frame_event(&h, 7, 1, 5) {
        Ok((DisplayEvent::FrameReady { buffer_generation, buffer_index, seq }, fence)) => {
            assert_eq!((buffer_generation, buffer_index, seq, fence), (7, 1, 5, 101));
        }
        other => panic!("unexpected {other:?}"),
    }
    match frame_event(&h, 7, 1, 9) {
        Err(Error::Internal(m)) => {
            assert_eq!(m, "acquire sync_fd for seq=9 missing (evicted or never arrived)")
        }
        other => panic!("unexpected {other:?}"),
    }
}

#[test]
fn only_the_newest_fences_are_kept() {
    let mut h = renderer(Some(snap()));
    let mut released = vec![];
    for seq in 0..20u64 {
        let ev = RendererEvent::FrameReady { image_index: 0, seq, release_point: seq };
        released.extend(h.apply_event(ev, vec![1000 + seq]));
    }
    assert_eq!(h.sync_fds.len(), SYNC_FD_RETENTION);
    assert_eq!(released, vec![1000, 1001, 1002, 1003]);
    assert_eq!(h.clone_sync_fd(3), None);
    assert_eq!(h.clone_sync_fd(4), Some(1004));
    assert_eq!(h.clone_sync_fd(19), Some(1019));
}

fn protocol() -> Protocol {
    Protocol { name: "waywallen-display-v1".into(), min_version: 2, max_version: 3 }
}

fn greeting(name: &str, version: u32) -> DisplayRequest {
    DisplayRequest::Hello {
        protocol: name.into(),
        client_name: "c".into(),
        client_version: "1".into(),
        client_protocol_version: version,
    }
}

#[test]
fn greeting_in_the_right_protocol_is_welcomed() {
    for v in [2, 3] {
        match on_hello(&greeting("waywallen-display-v1", v), 1, &protocol(), "0.1.0") {
            HelloOutcome::Welcome(DisplayEvent::Welcome { server_version, features }) => {
                assert_eq!(server_version, "waywallen 0.1.0");
                assert_eq!(
                    features,
                    vec!["explicit_sync_fd", "drm_syncobj_release", "modifier_negotiation_v1"]
                );
            }
            other => panic!("unexpected {other:?}"),
        }
    }
}

#[test]
fn other_protocols_are_refused_by_name() {
    match on_hello(&greeting("a\"b\n", 2), 1, &protocol(), "0.1.0") {
        HelloOutcome::Refuse {
            event: Some(DisplayEvent::Error { code, message }),
            error: Error::Internal(e),
        } => {
            assert_eq!(code, RefusalCode::ProtoNameMismatch);
            assert_eq!(
                message,
                "unsupported protocol: \"a\\\"b\\n\" (expected \"waywallen-display-v1\")"
            );
            assert_eq!(e, format!("bad protocol string: {message}"));
        }
        other => panic!("unexpected {other:?}"),
    }
}

#[test]
fn other_versions_are_refused() {
    for v in [0, 1, 4] {
        match on_hello(&greeting("waywallen-display-v1", v), 1, &protocol(), "0.1.0") {
            HelloOutcome::Refuse {
                event: Some(DisplayEvent::Error { code, message }),
                error: Error::Internal(e),
            } => {
                assert_eq!(code, RefusalCode::VersionUnsupported);
                assert_eq!(
                    message,
                    format!("client protocol v{v} not supported; daemon accepts [2..=3]")
                );
                assert_eq!(e, format!("version mismatch: {message}"));
            }
            other => panic!("unexpected {other:?}"),
        }
    }
}

#[test]
fn connections_start_with_a_greeting() {
    match on_hello(&DisplayRequest::Bye, 6, &protocol(), "0.1.0") {
        HelloOutcome::Refuse { event: None, error: Error::Internal(e) } => {
            assert_eq!(e, "expected hello, got opcode 6")
        }
        other => panic!("unexpected {other:?}"),
    }
}

fn registration(instance_id: &str) -> DisplayRequest {
    DisplayRequest::RegisterDisplay {
        name: "DP-1".into(),
        instance_id: instance_id.into(),
        width: 1920,
        height: 1080,
        refresh_mhz: 60_000,
        drm_render_major: 226,
        drm_render_minor: 128,
        properties: vec![("k".into(), "v".into())],
    }
}

#[test]
fn registration_follows_the_greeting() {
    let r = on_register(registration(""), 2).unwrap();
    assert_eq!(r.name, "DP-1");
    assert_eq!(r.instance_id, None);
    assert_eq!((r.width, r.height, r.refresh_mhz), (1920, 1080, 60_000));
    assert_eq!(r.gpu, DrmNode { major: 226, minor: 128 });
    assert_eq!(r.properties, vec![("k".to_string(), "v".to_string())]);
    assert!(r.consumer_caps.is_none());
    assert_eq!(on_register(registration("i"), 2).unwrap().instance_id, Some("i".to_string()));
    match on_register(DisplayRequest::MouseEvent, 9) {
        Err(Error::Internal(m)) => assert_eq!(m, "expected register_display, got opcode 9"),
        other => panic!("unexpected {other:?}"),
    }
}

fn router_with_display() -> (Router, u64) {
    let mut router = Router::new();
    let (id, _) = router.register_display(
        DisplayRegistration {
            name: "DP-1".into(),
            instance_id: None,
            width: 1920,
            height: 1080,
            refresh_mhz: 60_000,
            gpu: DrmNode::unknown(),
            properties: vec![],
            consumer_caps: None,
        },
        0,
    );
    (router, id)
}

#[test]
fn connection_ends_on_goodbye_and_on_failure() {
    let (mut router, id) = router_with_display();
    for ev in [
        LoopEvent::Shutdown,
        LoopEvent::RouterClosed,
        LoopEvent::ReadFailed,
        LoopEvent::ReaderEnded,
        LoopEvent::Request(DisplayRequest::Bye),
    ] {
        let (ended, fx) = on_loop_event(&mut router, id, ev);
        assert!(ended && fx.is_empty());
    }
    let (ended, fx) = on_loop_event(&mut router, id, LoopEvent::Request(DisplayRequest::Other));
    assert!(!ended && fx.is_empty());
}

/// One format with one modifier; well-formed where the count says one.
fn caps_msg(mod_counts: Vec<u32>) -> FormatCapsMsg {
    FormatCapsMsg {
        fourccs: vec![1],
        mod_counts,
        modifiers: vec![0],
        usages: vec![1],
        plane_counts: vec![1],
        device_uuid: vec![0; 4],
        driver_uuid: vec![0; 4],
        drm_render_major: 0,
        drm_render_minor: 0,
        mem_hints: 0,
        sync_caps: 0,
        color_caps: 0,
        extent_max_w: 0,
        extent_max_h: 0,
    }
}

#[test]
fn display_messages_reach_the_router() {
    let (mut router, id) = router_with_display();
    let resize = DisplayRequest::UpdateDisplay { width: 2560, height: 1440 };
    let (ended, fx) = on_loop_event(&mut router, id, LoopEvent::Request(resize));
    assert!(!ended);
    assert!(fx.iter().any(|e| matches!(e, Effect::Emit(_))));
    let d = router.snapshot_display(id).unwrap();
    assert_eq!((d.width, d.height), (2560, 1440));

    let bad = caps_msg(vec![2]);
    let caps = caps_msg(vec![1]);
    on_loop_event(&mut router, id, LoopEvent::Request(DisplayRequest::ConsumerCaps(bad)));
    assert!(router.display(id).unwrap().consumer_caps.is_none());
    on_loop_event(&mut router, id, LoopEvent::Request(DisplayRequest::ConsumerCaps(caps)));
    assert!(router.display(id).unwrap().consumer_caps.is_some());
    let failed = DisplayRequest::BindFailed { fourcc: 1, modifier: 0 };
    on_loop_event(&mut router, id, LoopEvent::Request(failed));
    let d = router.display(id).unwrap();
    assert!(d.consumer_caps.as_ref().unwrap().blacklist.contains(&(1, 0)));
}
