//! Starting renderers and talking to them.

use waywallen::dispatch::Registry;
use waywallen::drm::DrmNode;
use waywallen::error::Error;
use waywallen::negotiate::{MemSource, NegotiatedScheme, PathCategory};
use waywallen::registry::{
    best_for, declared_settings, RendererDef, SettingDef, SettingDefault, SettingType,
};
use waywallen::renderer::{RendererEvent, RendererHandle};
use waywallen::spawn::{
    build_init_msg, check_init_reply, choose_renderer, is_peer_gone, negotiate_message,
    negotiate_sent, parse_drm_dev, place_on_gpu, plan_spawn, plan_with_id, setting_changed,
    started, CodecFault, GpuInfo, LiveRenderer, PointerMsg, RendererManager, SpawnRequest,
    SPAWN_VERSION,
};
use waywallen::strmap::StrMap;

fn table(pairs: &[(&str, &str)]) -> StrMap<String> {
    let mut m = StrMap::new();
    for (k, v) in pairs {
        m.insert(k.to_string(), v.to_string());
    }
    m
}

fn text_setting(default: &str) -> SettingDef {
    SettingDef {
        ty: SettingType::Text,
        default: SettingDefault::Text(default.to_string()),
        identity: false,
        min: None,
        max: None,
        choices: None,
        order: 0,
    }
}

fn def_legacy(name: &str) -> RendererDef {
    RendererDef {
        name: name.to_string(),
        bin: "/dev/null".into(),
        types: vec!["scene".to_string()],
        priority: 100,
        version: "v0.0.0".into(),
        spawn_version: None,
        extras: Vec::new(),
        settings: StrMap::new(),
        events: Vec::new(),
    }
}

fn def_mpv_schema() -> RendererDef {
    let mut ps = StrMap::new();
    ps.insert("loop_file".to_string(), text_setting("inf"));
    RendererDef {
        name: "waywallen-mpv".into(),
        bin: "/dev/null".into(),
        types: vec!["video".into()],
        priority: 100,
        version: "v0.0.0".into(),
        spawn_version: Some(1),
        extras: Vec::new(),
        settings: ps,
        events: Vec::new(),
    }
}

fn def_mpv() -> RendererDef {
    let mut def = def_mpv_schema();
    def.settings.insert("hwdec".to_string(), text_setting("auto"));
    def
}

fn request(wp_type: &str, width: u32, height: u32) -> SpawnRequest {
    SpawnRequest {
        wp_type: wp_type.into(),
        extras: StrMap::new(),
        settings: StrMap::new(),
        width,
        height,
        extent_mode: 0,
        test_pattern: false,
        renderer_name: None,
        user_properties_json: None,
    }
}

#[test]
fn slim_init_carries_extent_and_settings_kv() {
    let req = SpawnRequest {
        settings: table(&[("loop_file", "inf")]),
        ..request("video", 1920, 1080)
    };
    let msg = build_init_msg(&req, &def_mpv_schema());
    assert_eq!(msg.spawn_version, 1);
    assert_eq!(msg.extent_w, 1920);
    assert_eq!(msg.extent_h, 1080);
    assert_eq!(msg.extent_mode, 0);
    assert_eq!(msg.settings, vec![("loop_file".to_string(), "inf".to_string())]);
    assert_eq!(msg.user_properties, "");
}

#[test]
fn spawn_handshake_init_nack_aborts() {
    let req = SpawnRequest {
        settings: table(&[("scene", "/tmp/scene.pkg")]),
        ..request("scene", 800, 600)
    };
    let init = build_init_msg(&req, &def_legacy("wescene-renderer"));
    assert_eq!(init.spawn_version, SPAWN_VERSION);
    let reply = RendererEvent::InitNack {
        received_spawn_version: 999,
        supported_spawn_version: SPAWN_VERSION,
        reason: "unsupported spawn_version".into(),
    };
    let err = match check_init_reply(&reply, "InitNack") {
        Err(e) => e,
        Ok(_) => panic!("a refusal must abort the start"),
    };
    let s = err.message();
    assert!(s.contains("renderer rejected Init"), "unexpected error: {s}");
    assert!(s.contains("unsupported spawn_version"), "unexpected error: {s}");
    assert!(s.contains("(received spawn_version=999, supported=4)"), "unexpected error: {s}");
}

#[test]
fn only_ready_lets_a_renderer_live() {
    let ready = RendererEvent::Ready { drm_render_major: 226, drm_render_minor: 129 };
    assert_eq!(check_init_reply(&ready, "Ready").ok(), Some(DrmNode { major: 226, minor: 129 }));
    let e = check_init_reply(&RendererEvent::ReleaseSyncobj, "ReleaseSyncobj").unwrap_err();
    assert!(e.message().contains("host emitted ReleaseSyncobj before Ready; aborting spawn"));
    assert!(matches!(e, Error::RendererSpawnFailed(_)));
}

fn live_mpv_handle(id: &str, extras: StrMap<String>) -> LiveRenderer {
    LiveRenderer {
        id: id.into(),
        wp_type: "video".into(),
        width: 1920,
        height: 1080,
        extent_mode: 0,
        extras,
        name: "waywallen-mpv".into(),
        pid: None,
        events: Vec::new(),
    }
}

fn req_with_extras(extras: StrMap<String>) -> SpawnRequest {
    SpawnRequest { extras, ..request("video", 1920, 1080) }
}

#[test]
fn find_reusable_hits_when_extras_match() {
    let def = def_mpv();
    let mut mgr = RendererManager::new();
    mgr.insert(live_mpv_handle("h1", table(&[("path", "/clip.mp4")])));
    let req = req_with_extras(table(&[("path", "/clip.mp4")]));
    let id = mgr.find_reusable(&req, Some(&def)).expect("reuse hit expected");
    assert_eq!(id, "h1");
}

#[test]
fn find_reusable_misses_on_different_path() {
    let def = def_mpv();
    let mut mgr = RendererManager::new();
    mgr.insert(live_mpv_handle("h1", table(&[("path", "/clip.mp4")])));
    let req = req_with_extras(table(&[("path", "/other.mp4")]));
    assert!(mgr.find_reusable(&req, Some(&def)).is_none());
}

#[test]
fn send_setting_changed_writes_wire_and_updates_cache() {
    let got = setting_changed(vec![("loop_file".into(), "no".into())], None);
    assert_eq!(got, vec![("loop_file".to_string(), "no".to_string())]);
}

#[test]
fn a_new_frame_rate_replaces_the_listed_one() {
    let kv = vec![
        ("fps".to_string(), "30".to_string()),
        ("volume".to_string(), "5".to_string()),
    ];
    assert_eq!(
        setting_changed(kv, Some(144)),
        vec![
            ("volume".to_string(), "5".to_string()),
            ("fps".to_string(), "144".to_string()),
        ]
    );
    let kept = vec![("fps".to_string(), "30".to_string())];
    assert_eq!(setting_changed(kept, Some(0)), vec![("fps".to_string(), "30".to_string())]);
}

#[test]
fn a_renderer_of_another_size_is_not_reused() {
    let def = def_mpv();
    let mut mgr = RendererManager::new();
    mgr.insert(live_mpv_handle("h1", StrMap::new()));
    let small = SpawnRequest { width: 640, ..request("video", 1920, 1080) };
    assert!(mgr.find_reusable(&small, Some(&def)).is_none());
    let same = request("video", 1920, 1080);
    assert_eq!(mgr.find_reusable(&same, Some(&def)), Some("h1".to_string()));
    let other_type = request("scene", 1920, 1080);
    assert!(mgr.find_reusable(&other_type, Some(&def)).is_none());
}

#[test]
fn best_renderer_has_the_highest_priority() {
    let def = |name: &str, types: &[&str], priority: i32| RendererDef {
        types: types.iter().map(|t| t.to_string()).collect(),
        priority,
        ..def_legacy(name)
    };
    let r = Registry::new(vec![
        def("a", &["image"], 1),
        def("b", &["image", "video"], 5),
        def("c", &["image"], 5),
        def("d", &["video", "scene"], 7),
        def("e", &[], 9),
    ]);
    let best = |t: &str| r.resolve(t).map(|d| d.name.clone());
    assert_eq!(best("image"), Some("b".to_string()));
    assert_eq!(best("video"), Some("d".to_string()));
    assert_eq!(best("scene"), Some("d".to_string()));
    assert_eq!(best("web"), None);
    assert_eq!(r.best.len(), 3);
    assert_eq!(best_for(&r.defs, "image"), Some(1));
    assert_eq!(best_for(&r.defs, "web"), None);
}

#[test]
fn declared_settings_are_listed_by_renderer() {
    let tables = declared_settings(&vec![def_legacy("plain"), def_mpv_schema()]);
    assert_eq!(tables.keys(), vec!["plain".to_string(), "waywallen-mpv".to_string()]);
    assert!(tables.get("plain").unwrap().is_empty());
    let mpv = tables.get("waywallen-mpv").unwrap();
    assert_eq!(mpv.get("loop_file").unwrap().default_text(), "inf");
    let twice = declared_settings(&vec![def_mpv_schema(), def_legacy("waywallen-mpv")]);
    assert!(twice.get("waywallen-mpv").unwrap().is_empty());
}

#[test]
fn renderers_are_listed_until_they_are_killed() {
    let mut mgr = RendererManager::new();
    mgr.insert(live_mpv_handle("h1", table(&[("path", "/clip.mp4")])));
    mgr.insert(live_mpv_handle("h2", StrMap::new()));
    mgr.insert(live_mpv_handle("h3", table(&[("path", "/clip.mp4")])));
    let mut ids = mgr.list();
    ids.sort();
    assert_eq!(ids, vec!["h1".to_string(), "h2".to_string(), "h3".to_string()]);
    assert_eq!(mgr.find_by_resource("/clip.mp4").map(|l| l.id.clone()), Some("h1".to_string()));
    assert!(mgr.find_by_resource("/none.mp4").is_none());
    assert!(mgr.kill("h1").is_ok());
    assert!(mgr.get("h1").is_none());
    match mgr.kill("h1") {
        Err(Error::RendererNotFound(id)) => assert_eq!(id, "h1"),
        other => panic!("expected an unknown renderer, got {other:?}"),
    }
    assert!(mgr.remove("h2"));
    assert!(!mgr.remove("h2"));
    assert_eq!(mgr.find_by_resource("/clip.mp4").map(|l| l.id.clone()), Some("h3".to_string()));
    assert!(mgr.remove("h3"));
    assert!(mgr.list().is_empty());
}

#[test]
fn pointer_events_reach_subscribers_only() {
    let mut mgr = RendererManager::new();
    mgr.insert(LiveRenderer {
        events: vec!["pointer".to_string()],
        ..live_mpv_handle("h1", StrMap::new())
    });
    mgr.insert(live_mpv_handle("h2", StrMap::new()));
    assert!(mgr.subscribed_to("h1", "pointer"));
    assert!(!mgr.subscribed_to("h1", "keyboard"));
    assert!(!mgr.subscribed_to("h2", "pointer"));
    assert!(!mgr.subscribed_to("h3", "pointer"));
}

#[test]
fn pointer_reaches_only_those_who_asked() {
    let mut mgr = RendererManager::new();
    mgr.insert(LiveRenderer {
        events: vec!["pointer".to_string()],
        ..live_mpv_handle("h1", StrMap::new())
    });
    mgr.insert(live_mpv_handle("h2", StrMap::new()));
    let (x, y) = (1.5f32.to_bits(), 2.5f32.to_bits());
    assert_eq!(
        mgr.send_pointer_motion("h1", x, y, 7, 1),
        Some(PointerMsg::Motion { x, y, timestamp_us: 7, modifiers: 1 })
    );
    assert_eq!(
        mgr.send_pointer_button("h1", x, y, 272, 1, 8, 0),
        Some(PointerMsg::Button { x, y, button: 272, state: 1, timestamp_us: 8, modifiers: 0 })
    );
    assert_eq!(
        mgr.send_pointer_axis("h1", x, y, y, x, 2, 9, 4),
        Some(PointerMsg::Axis {
            x,
            y,
            delta_x: y,
            delta_y: x,
            source: 2,
            timestamp_us: 9,
            modifiers: 4,
        })
    );
    for id in ["h2", "h3"] {
        assert_eq!(mgr.send_pointer_motion(id, x, y, 7, 1), None);
        assert_eq!(mgr.send_pointer_button(id, x, y, 272, 1, 8, 0), None);
        assert_eq!(mgr.send_pointer_axis(id, x, y, y, x, 2, 9, 4), None);
    }
}

fn two_gpus() -> Vec<GpuInfo> {
    vec![
        GpuInfo { major: 226, minor: 128, render_node: Some("/dev/dri/renderD128".into()) },
        GpuInfo { major: 226, minor: 129, render_node: None },
    ]
}

#[test]
fn gpu_choice_becomes_a_render_node() {
    assert_eq!(parse_drm_dev("226:128"), Some((226, 128)));
    assert_eq!(parse_drm_dev("226"), None);
    assert_eq!(parse_drm_dev("226:x"), None);
    assert_eq!(parse_drm_dev("1:2:3"), None);

    let mut known = table(&[("gpu_drm_dev", "226:128"), ("volume", "5")]);
    place_on_gpu(&mut known, &two_gpus());
    assert_eq!(
        known.sorted_pairs(),
        vec![
            ("render_node".to_string(), "/dev/dri/renderD128".to_string()),
            ("volume".to_string(), "5".to_string()),
        ]
    );

    for dropped in ["226:129", "1:1", "none"] {
        let mut s = table(&[("gpu_drm_dev", dropped)]);
        place_on_gpu(&mut s, &two_gpus());
        assert!(s.is_empty());
    }
}

#[test]
fn plan_names_socket_arguments_and_settings() {
    let req = SpawnRequest {
        extras: table(&[("workshop_id", "7"), ("path", "/a.pkg")]),
        settings: table(&[("gpu_drm_dev", "226:128")]),
        user_properties_json: Some("{}".to_string()),
        ..request("scene", 0, 0)
    };
    let plan = plan_with_id("abc".into(), req, &def_legacy("wescene"), &two_gpus(), "/run/w");
    assert_eq!(plan.socket, "/run/w/renderer-abc.sock");
    assert_eq!(plan.bin, "/dev/null");
    assert_eq!(
        plan.argv,
        vec!["--ipc", "/run/w/renderer-abc.sock", "--path", "/a.pkg", "--workshop_id", "7"]
    );
    assert_eq!(
        plan.init.settings,
        vec![("render_node".to_string(), "/dev/dri/renderD128".to_string())]
    );
    assert_eq!(plan.init.user_properties, "{}");
}

#[test]
fn fresh_ids_are_hyphenated_and_differ() {
    let def = def_legacy("wescene");
    let a = plan_spawn(request("scene", 1, 1), &def, &vec![], "/r");
    let b = plan_spawn(request("scene", 1, 1), &def, &vec![], "/r");
    assert_ne!(a.id, b.id);
    assert_eq!(a.id.len(), 36);
    for (i, c) in a.id.chars().enumerate() {
        if [8, 13, 18, 23].contains(&i) {
            assert_eq!(c, '-');
        } else {
            assert!(c.is_ascii_digit() || ('a'..='f').contains(&c));
        }
    }
    assert_eq!(a.socket, format!("/r/renderer-{}.sock", a.id));
}

#[test]
fn named_renderer_wins_over_the_type() {
    let (named, typed) = (def_legacy("named"), def_legacy("typed"));
    let free = request("scene", 1, 1);
    let pinned = SpawnRequest { renderer_name: Some("named".into()), ..request("scene", 1, 1) };
    assert_eq!(choose_renderer(&pinned, Some(&named), Some(&typed)).unwrap().name, "named");
    assert_eq!(choose_renderer(&free, None, Some(&typed)).unwrap().name, "typed");
    match choose_renderer(&pinned, None, Some(&typed)) {
        Err(Error::RendererNotFound(n)) => assert_eq!(n, "named"),
        other => panic!("unexpected {other:?}"),
    }
    match choose_renderer(&free, None, None) {
        Err(Error::NoRendererForType(t)) => assert_eq!(t, "scene"),
        other => panic!("unexpected {other:?}"),
    }
}

fn scheme(fourcc: u32) -> NegotiatedScheme {
    NegotiatedScheme {
        fourcc,
        modifier: 3,
        plane_count: 1,
        sync_mode: 4,
        color: 5,
        mem_hint: 1,
        count: 3,
        path: PathCategory::CompatLinear,
        mem_source: MemSource::GpuLinear,
    }
}

fn running() -> RendererHandle {
    let req = SpawnRequest { extras: table(&[("path", "/x")]), ..request("scene", 10, 20) };
    let gpu = DrmNode { major: 226, minor: 128 };
    started("r1".into(), &req, &def_legacy("wescene"), Some(42), gpu)
}

#[test]
fn started_renderer_takes_over_the_request() {
    let h = running();
    assert_eq!((h.id.as_str(), h.name.as_str(), h.wp_type.as_str()), ("r1", "wescene", "scene"));
    assert_eq!((h.width, h.height, h.pid), (10, 20, Some(42)));
    assert_eq!(h.extras.get("path"), Some(&"/x".to_string()));
    assert!(h.bind_snapshot.is_none() && h.format_caps.is_none());
}

#[test]
fn a_scheme_is_sent_once() {
    let mut h = running();
    let first = negotiate_message(&h, scheme(7)).expect("a new scheme is sent");
    assert_eq!((first.fourcc, first.modifier, first.plane_count), (7, 3, 1));
    assert_eq!((first.sync_mode, first.color, first.mem_hint), (4, 5, 1));
    negotiate_sent(&mut h, scheme(7));
    assert!(negotiate_message(&h, scheme(7)).is_none());
    assert!(negotiate_message(&h, scheme(8)).is_some());
}

#[test]
fn broken_connections_mean_the_renderer_is_gone() {
    assert!(is_peer_gone(CodecFault::PeerClosed));
    assert!(is_peer_gone(CodecFault::BrokenPipe));
    assert!(is_peer_gone(CodecFault::ConnectionReset));
    assert!(is_peer_gone(CodecFault::NotConnected));
    assert!(!is_peer_gone(CodecFault::Other));
}
