//! Routing of renderers to displays.

use waywallen::drm::DrmNode;
use waywallen::layout::{project_link, Align, Extent, FillMode, Geometry, LinkGeometry, Rect, ResolvedLayout};
use waywallen::negotiate::{
    pick, unflatten_caps, PeerCaps, DEFAULT_COLOR, DRM_FORMAT_ABGR8888, DRM_FORMAT_MOD_LINEAR,
    MEM_HINT_HOST_VISIBLE, SYNC_SYNCOBJ_TIMELINE, USAGE_SAMPLED,
};
use waywallen::renderer::{
    BindBuffers, BindSnapshot, ClearColor, RendererEvent, RendererHandle, StateEntry,
};
use waywallen::router::events::GeometryChange;
use waywallen::router::ops::unbound_displays;
use waywallen::router::{
    ConfigRequest, DisplayRegistration, Effect, Router, IDLE_KILL_TIMEOUT_MS,
    ORPHAN_REAP_TIMEOUT_MS,
};
use waywallen::settings::{LayoutChange, LoadOutcome, SettingsStore};
use waywallen::snapshot::{LibrarySnapshot, RendererStatus, RouterEvent};
use waywallen::strmap::StrMap;

fn reg(name: &str, w: u32, h: u32) -> DisplayRegistration {
    DisplayRegistration {
        name: name.into(),
        instance_id: None,
        width: w,
        height: h,
        refresh_mhz: 60_000,
        gpu: DrmNode::unknown(),
        properties: vec![],
        consumer_caps: None,
    }
}

fn stub(id: &str, wp_type: &str) -> RendererHandle {
    RendererHandle {
        id: id.into(),
        wp_type: wp_type.into(),
        width: 1920,
        height: 1080,
        extent_mode: 0,
        extras: StrMap::new(),
        name: "test-stub".into(),
        pid: None,
        gpu: DrmNode::unknown(),
        bind_snapshot: None,
        pending_configure: None,
        sync_fds: vec![],
        release_syncobj: None,
        format_caps: None,
        last_dispatched_scheme: None,
        events_subscribed: vec![],
        clear_rgba: ClearColor::default(),
    }
}

/// A router together with what its effects bring about.
struct World {
    router: Router,
    live: Vec<String>,
    /// Renderers in their grace period, and when it ends.
    timers: Vec<(String, u64)>,
    events: Vec<RouterEvent>,
    configs: Vec<ConfigRequest>,
    now: u64,
}

impl World {
    fn new() -> World {
        World {
            router: Router::new(),
            live: vec![],
            timers: vec![],
            events: vec![],
            configs: vec![],
            now: 0,
        }
    }

    fn perform(&mut self, fx: Vec<Effect>) {
        for e in fx {
            match e {
                Effect::Kill(id) => self.live.retain(|x| *x != id),
                Effect::StartTimer(id) => self.timers.push((id, self.now + ORPHAN_REAP_TIMEOUT_MS)),
                Effect::CancelTimer(id) => self.timers.retain(|t| t.0 != id),
                Effect::Emit(e) => self.events.push(e),
                Effect::SetConfig(c) => self.configs.push(c),
                _ => {}
            }
        }
    }

    fn advance(&mut self, secs: u64) {
        self.now += secs * 1000;
        let due: Vec<String> =
            self.timers.iter().filter(|t| t.1 <= self.now).map(|t| t.0.clone()).collect();
        for id in due {
            self.timers.retain(|t| t.0 != id);
            let fx = self.router.fire_orphan_reap(&id, self.now);
            self.perform(fx);
        }
    }

    fn add_handle(&mut self, h: RendererHandle) {
        self.live.push(h.id.clone());
        let fx = self.router.register_renderer(h);
        self.perform(fx);
    }

    fn add(&mut self, id: &str) {
        self.add_handle(stub(id, "scene"));
    }

    fn plug(&mut self, r: DisplayRegistration) -> u64 {
        assert!(self.router.can_register());
        let (id, fx) = self.router.register_display(r, self.now);
        self.perform(fx);
        id
    }

    fn unplug(&mut self, id: u64) {
        let fx = self.router.unregister_display(id, self.now);
        self.perform(fx);
    }

    fn relink(&mut self, ids: &[u64], rid: &str) {
        let fx = self.router.relink_displays_to(&ids.to_vec(), rid, self.now);
        self.perform(fx);
    }

    fn relink_all(&mut self, rid: &str) {
        let fx = self.router.relink_all_displays_to(rid, self.now);
        self.perform(fx);
    }

    fn alive(&self) -> Vec<String> {
        let mut ids = self.live.clone();
        ids.sort();
        ids
    }
}

#[test]
fn snapshot_displays_empty() {
    assert!(Router::new().snapshot_displays().is_empty());
}

#[test]
fn snapshot_displays_sorted_by_id_with_metadata() {
    let mut w = World::new();
    w.plug(reg("HDMI-A-1", 1920, 1080));
    w.plug(reg("DP-1", 2560, 1440));
    w.plug(reg("eDP-1", 1366, 768));
    let snap = w.router.snapshot_displays();
    assert_eq!(snap.len(), 3);
    let ids: Vec<u64> = snap.iter().map(|d| d.id).collect();
    assert_eq!(ids, vec![1, 2, 3]);
    assert_eq!(snap[0].name, "HDMI-A-1");
    assert_eq!((snap[0].width, snap[0].height), (1920, 1080));
    assert_eq!(snap[1].name, "DP-1");
    assert_eq!((snap[1].width, snap[1].height), (2560, 1440));
    assert_eq!(snap[2].name, "eDP-1");
    assert_eq!((snap[2].width, snap[2].height), (1366, 768));
    for d in &snap {
        assert!(d.links.is_empty(), "display {} unexpectedly has links", d.id);
    }
}

#[test]
fn snapshot_reflects_display_unregister() {
    let mut w = World::new();
    let h1 = w.plug(reg("HDMI-A-1", 1920, 1080));
    let h2 = w.plug(reg("DP-1", 2560, 1440));
    assert_eq!(w.router.snapshot_displays().len(), 2);
    w.unplug(h1);
    let snap = w.router.snapshot_displays();
    assert_eq!(snap.len(), 1);
    assert_eq!(snap[0].id, h2);
    assert_eq!(snap[0].name, "DP-1");
}

#[test]
fn renderers_fully_replaced_by_target_subset() {
    let mut w = World::new();
    w.add("r1");
    w.add("r2");
    let a = w.plug(reg("A", 1920, 1080));
    let b = w.plug(reg("B", 1920, 1080));
    let c = w.plug(reg("C", 1920, 1080));
    w.relink(&[c], "r2");
    let mut killable = w.router.renderers_fully_replaced_by(Some(&vec![a, b]));
    killable.sort();
    assert_eq!(killable, vec!["r1".to_string()], "only r1's enabled links are within {{A,B}}");
    let mut all = w.router.renderers_fully_replaced_by(None);
    all.sort();
    assert_eq!(
        all,
        vec!["r1".to_string(), "r2".to_string()],
        "target=None means relink_all → every renderer gets fully replaced"
    );
}

#[test]
fn stop_renderers_unregisters_and_kills() {
    let mut w = World::new();
    w.add("r1");
    w.add("r2");
    let fx = w.router.stop_renderers(&vec!["r1".to_string()], w.now);
    w.perform(fx);
    assert_eq!(w.alive(), vec!["r2".to_string()]);
    assert!(w.router.handle("r1").is_none());
}

#[test]
fn reap_kills_orphan_after_relink_all() {
    let mut w = World::new();
    w.add("r1");
    w.add("r2");
    w.plug(reg("HDMI-A-1", 1920, 1080));
    w.relink_all("r2");
    assert_eq!(
        w.alive(),
        vec!["r2".to_string()],
        "r1 must be reaped immediately — display present, so no grace"
    );
}

#[test]
fn reap_keeps_renderer_still_referenced() {
    let mut w = World::new();
    w.add("r1");
    w.add("r2");
    let a = w.plug(reg("HDMI-A-1", 1920, 1080));
    w.plug(reg("DP-1", 1920, 1080));
    w.relink(&[a], "r2");
    assert_eq!(w.alive(), vec!["r1".to_string(), "r2".to_string()]);
    w.relink_all("r2");
    assert_eq!(w.alive(), vec!["r2".to_string()]);
}

#[test]
fn relink_all_with_zero_displays_replaces_old_renderer() {
    let mut w = World::new();
    w.add("r1");
    w.relink_all("r1");
    assert_eq!(w.alive(), vec!["r1".to_string()]);
    w.add("r2");
    w.relink_all("r2");
    assert_eq!(
        w.alive(),
        vec!["r2".to_string()],
        "r1 must be reaped immediately — 2 renderers means no grace"
    );
    w.advance(6);
    assert_eq!(
        w.alive(),
        vec!["r2".to_string()],
        "r1 must be reaped after the orphan grace window"
    );
    w.relink_all("r2");
    w.advance(6);
    assert_eq!(w.alive(), vec!["r2".to_string()]);
}

#[test]
fn unregister_last_display_reaps_after_grace() {
    let mut w = World::new();
    w.add("r1");
    let h = w.plug(reg("HDMI-A-1", 1920, 1080));
    assert_eq!(w.alive(), vec!["r1".to_string()]);
    w.unplug(h);
    w.advance(4);
    let h2 = w.plug(reg("DP-1", 1920, 1080));
    let snap = w.router.snapshot_displays();
    let entry = snap.iter().find(|d| d.id == h2).unwrap();
    assert_eq!(entry.links.len(), 1);
    assert_eq!(entry.links[0].renderer_id, "r1");
    w.advance(2);
    assert_eq!(w.alive(), vec!["r1".to_string()]);
    w.unplug(h2);
    w.advance(6);
    assert!(w.alive().is_empty(), "renderer must be reaped past the orphan grace window");
}

#[test]
fn mark_preserves_keep_id_with_no_displays() {
    let mut w = World::new();
    w.add("r1");
    let (scheduled, fx) = w.router.mark_orphans(Some("r1"), w.now);
    w.perform(fx);
    assert!(scheduled.is_empty(), "keep id must not be marked");
    w.advance(6);
    assert_eq!(w.alive(), vec!["r1".to_string()]);
    w.add("r2");
    let (scheduled, fx) = w.router.mark_orphans(Some("r2"), w.now);
    w.perform(fx);
    assert_eq!(scheduled, vec!["r1".to_string()]);
    w.advance(6);
    assert_eq!(w.alive(), vec!["r2".to_string()]);
}

#[test]
fn orphan_mark_then_cancel_keeps_renderer() {
    let mut w = World::new();
    w.add("r1");
    let fx = w.router.mark_orphan(&"r1".to_string(), w.now);
    w.perform(fx);
    w.advance(4);
    let fx = w.router.cancel_orphan_timer("r1");
    w.perform(fx);
    w.advance(2);
    assert_eq!(w.alive(), vec!["r1".to_string()]);
}

#[test]
fn orphan_mark_fires_after_grace() {
    let mut w = World::new();
    w.add("r1");
    let fx = w.router.mark_orphan(&"r1".to_string(), w.now);
    w.perform(fx);
    w.advance(6);
    assert!(w.alive().is_empty());
}

#[test]
fn renderer_upsert_on_register() {
    let mut w = World::new();
    w.add("R1");
    match w.events.remove(0) {
        RouterEvent::RendererUpsert(snap) => {
            assert_eq!(snap.id, "R1");
            assert_eq!(snap.wp_type, "scene");
            assert_eq!(snap.status, RendererStatus::Playing);
            assert_eq!(snap.name, "test-stub");
        }
        other => panic!("expected RendererUpsert, got {other:?}"),
    }
}

#[test]
fn renderer_removed_on_unregister() {
    let mut w = World::new();
    w.add("R1");
    w.events.clear();
    let fx = w.router.unregister_renderer("R1", w.now);
    w.perform(fx);
    match w.events.remove(0) {
        RouterEvent::RendererRemoved(id) => assert_eq!(id, "R1"),
        other => panic!("expected RendererRemoved, got {other:?}"),
    }
}

#[test]
fn renderer_upsert_on_pause_transition() {
    let mut w = World::new();
    w.add("R1");
    let d = w.plug(reg("D1", 1920, 1080));
    w.events.clear();
    w.unplug(d);
    let saw_paused = w.events.iter().any(|e| match e {
        RouterEvent::RendererUpsert(s) => s.id == "R1" && s.status == RendererStatus::Paused,
        _ => false,
    });
    assert!(saw_paused, "expected R1 Paused upsert after display unregister");
    assert!(w.router.is_paused("R1"));
}

fn build_caps(fourcc: u32, mods: &[(u64, u32)], uuid_byte: u8) -> PeerCaps {
    let modifiers: Vec<u64> = mods.iter().map(|(m, _)| *m).collect();
    let plane_counts: Vec<u32> = mods.iter().map(|(_, p)| *p).collect();
    let usages = vec![USAGE_SAMPLED; mods.len()];
    let words = [u32::from_le_bytes([uuid_byte; 4]); 4];
    unflatten_caps(
        &[fourcc],
        &[mods.len() as u32],
        &modifiers,
        &usages,
        &plane_counts,
        &words,
        &words,
        DrmNode { major: 226, minor: 128 },
        SYNC_SYNCOBJ_TIMELINE,
        DEFAULT_COLOR,
        MEM_HINT_HOST_VISIBLE,
        (1920, 1080),
    )
    .unwrap()
}

const NL: u64 = 0x0100_0000_0000_0001;

#[test]
fn consumer_bind_failed_inserts_blacklist() {
    let mut w = World::new();
    w.add("R1");
    let d = w.plug(reg("D1", 1920, 1080));
    let caps = build_caps(DRM_FORMAT_ABGR8888, &[(DRM_FORMAT_MOD_LINEAR, 1)], 0xAA);
    let fx = w.router.set_consumer_caps(d, caps);
    w.perform(fx);
    let fx = w.router.on_consumer_bind_failed(d, DRM_FORMAT_ABGR8888, NL);
    w.perform(fx);
    let state = w.router.display(d).unwrap();
    let bl = &state.consumer_caps.as_ref().unwrap().blacklist;
    assert!(bl.contains(&(DRM_FORMAT_ABGR8888, NL)));
}

#[test]
fn renderer_bind_failed_inserts_blacklist() {
    let mut w = World::new();
    let mut h = stub("R1", "scene");
    h.format_caps = Some(build_caps(
        DRM_FORMAT_ABGR8888,
        &[(DRM_FORMAT_MOD_LINEAR, 1), (NL, 1)],
        0xAA,
    ));
    w.add_handle(h);
    let rejected = |w: &World| {
        w.router.handle("R1").unwrap().format_caps.as_ref().unwrap().blacklist.len()
    };
    assert_eq!(rejected(&w), 0);
    let fx = w.router.on_renderer_bind_failed("R1", DRM_FORMAT_ABGR8888, NL);
    w.perform(fx);
    assert_eq!(rejected(&w), 1);
}

#[test]
fn picker_falls_back_after_consumer_blacklist() {
    let mut w = World::new();
    let both = [(DRM_FORMAT_MOD_LINEAR, 1), (NL, 1)];
    let mut h = stub("R1", "scene");
    h.format_caps = Some(build_caps(DRM_FORMAT_ABGR8888, &both, 0xAA));
    w.add_handle(h);
    let d = w.plug(reg("D1", 1920, 1080));
    let fx = w.router.set_consumer_caps(d, build_caps(DRM_FORMAT_ABGR8888, &both, 0xAA));
    w.perform(fx);
    let picked = |w: &World| {
        let prod = w.router.handle("R1").unwrap().format_caps.as_ref().expect("producer caps");
        let cons = w.router.display(d).unwrap().consumer_caps.as_ref().expect("consumer caps");
        pick(prod, cons).expect("pick ok")
    };
    assert_eq!(picked(&w).modifier, NL, "pre-blacklist must prefer non-LINEAR");
    let fx = w.router.on_consumer_bind_failed(d, DRM_FORMAT_ABGR8888, NL);
    let asked: Vec<u64> = fx
        .iter()
        .filter_map(|e| match e {
            Effect::Negotiate { scheme, .. } => Some(scheme.modifier),
            _ => None,
        })
        .collect();
    w.perform(fx);
    assert_eq!(
        picked(&w).modifier,
        DRM_FORMAT_MOD_LINEAR,
        "after consumer blacklist, picker must fall back to LINEAR"
    );
    assert_eq!(asked, vec![DRM_FORMAT_MOD_LINEAR]);
}

#[test]
fn project_link_explicit_link_geometry_skips_layout() {
    let bits = |v: f32| v.to_bits();
    let link = LinkGeometry {
        src_rect: Rect { x: bits(100.0), y: bits(200.0), w: bits(800.0), h: bits(600.0) },
        dst_rect: Rect { x: bits(50.0), y: bits(75.0), w: bits(400.0), h: bits(300.0) },
        transform: 0,
        clear_rgba: ClearColor { r: bits(1.0), g: 0, b: 0, a: bits(1.0) },
    };
    let layout = ResolvedLayout {
        fillmode: FillMode::PreserveAspectFit,
        align: Align::default(),
        clear_rgba: ClearColor::default(),
    };
    let cfg = project_link(&link, (1920, 1080), (1280, 720), 1, &layout);
    match cfg.geometry {
        Geometry::Explicit { source, dest } => {
            assert_eq!((source.x, source.y), (bits(100.0), bits(200.0)));
            assert_eq!(
                (source.w, source.h),
                (Extent::Given(bits(800.0)), Extent::Given(bits(600.0)))
            );
            assert_eq!((dest.x, dest.y), (bits(50.0), bits(75.0)));
            assert_eq!(
                (dest.w, dest.h),
                (Extent::Given(bits(400.0)), Extent::Given(bits(300.0)))
            );
        }
        other => panic!("expected explicit geometry, got {other:?}"),
    }
    assert_eq!(cfg.clear_rgba, ClearColor { r: bits(1.0), g: 0, b: 0, a: bits(1.0) });
}

fn fake_bind_snapshot(generation: u64, w: u32, h: u32) -> BindSnapshot {
    BindSnapshot {
        generation,
        flags: 0,
        count: 0,
        fourcc: 0x34325258,
        width: w,
        height: h,
        modifier: 0,
        planes_per_buffer: 1,
        stride: vec![],
        plane_offset: vec![],
        size: vec![],
        fds: vec![],
    }
}

fn world_with_pool() -> (World, u64) {
    let mut w = World::new();
    let mut r = stub("r1", "scene");
    r.bind_snapshot = Some(fake_bind_snapshot(1, 1920, 1080));
    w.add_handle(r);
    let d = w.plug(reg("HDMI-A-1", 1920, 1080));
    (w, d)
}

/// The size that a display is filled to, edge to edge from its origin.
fn fitted(c: &ConfigRequest) -> (u32, u32) {
    match c.project(None).geometry {
        Geometry::Fit { disp_w, disp_h, fillmode, .. } => {
            assert_eq!(fillmode, FillMode::Stretched);
            (disp_w, disp_h)
        }
        other => panic!("expected a fitted geometry, got {other:?}"),
    }
}

#[test]
fn update_display_size_resyncs_set_config() {
    let (mut w, d) = world_with_pool();
    let initial = w.configs.pop().expect("initial SetConfig");
    assert_eq!(fitted(&initial), (1920, 1080));
    w.configs.clear();
    let fx = w.router.update_display_size(d, 1280, 720);
    w.perform(fx);
    let resized = w.configs.pop().expect("SetConfig after resize");
    assert_eq!(fitted(&resized), (1280, 720));
    assert!(resized.generation > initial.generation);
}

#[test]
fn update_display_size_same_dims_no_resync() {
    let (mut w, d) = world_with_pool();
    w.configs.clear();
    let fx = w.router.update_display_size(d, 1920, 1080);
    w.perform(fx);
    assert!(w.configs.is_empty());
}

#[test]
fn update_display_size_zero_dim_ignored() {
    let (mut w, d) = world_with_pool();
    w.configs.clear();
    let fx = w.router.update_display_size(d, 0, 720);
    w.perform(fx);
    let fx = w.router.update_display_size(d, 1280, 0);
    w.perform(fx);
    assert!(w.configs.is_empty());
    let snap = w.router.snapshot_display(d).unwrap();
    assert_eq!((snap.width, snap.height), (1920, 1080));
}

#[test]
fn frames_go_to_bound_displays_only() {
    let (w, d) = world_with_pool();
    let fx = w.router.on_renderer_frame("r1", 0, 7, 8);
    assert_eq!(fx.len(), 1);
    match &fx[0] {
        Effect::Frame { display, generation, seq, release_point, expected_count, .. } => {
            assert_eq!((*display, *generation), (d, 1));
            assert_eq!((*seq, *release_point, *expected_count), (7, 8, 1));
        }
        other => panic!("expected a frame, got {other:?}"),
    }
}

#[test]
fn unseen_frame_goes_back_to_its_renderer() {
    let mut w = World::new();
    let mut r = stub("r1", "scene");
    r.bind_snapshot = Some(fake_bind_snapshot(1, 1920, 1080));
    w.add_handle(r);
    let fx = w.router.on_renderer_frame("r1", 0, 7, 8);
    assert_eq!(fx.len(), 1);
    assert!(matches!(&fx[0], Effect::Advance { renderer, release_point: 8 } if renderer == "r1"));
}

#[test]
fn pool_reaches_the_display_that_shows_the_renderer() {
    let mut w = World::new();
    w.add("r1");
    let d = w.plug(reg("D1", 1920, 1080));
    let pool = BindBuffers {
        generation: 4,
        flags: 0,
        count: 1,
        fourcc: DRM_FORMAT_ABGR8888,
        width: 640,
        height: 360,
        modifier: 0,
        planes_per_buffer: 1,
        stride: vec![2560],
        plane_offset: vec![0],
        size: vec![921_600],
    };
    let (fx, released) = w.router.renderer_event("r1", RendererEvent::BindBuffers(pool), vec![31]);
    assert!(released.is_empty());
    assert!(fx.iter().any(
        |e| matches!(e, Effect::Bind { display, renderer, generation: 4 } if *display == d && renderer == "r1")
    ));
    let h = w.router.handle("r1").unwrap();
    assert_eq!(h.texture_size(), (640, 360));
    assert_eq!(h.bind_generation(), Some(4));
}

#[test]
fn idle_renderer_is_ended_after_the_limit() {
    let mut w = World::new();
    w.add("r1");
    w.add("r2");
    w.plug(reg("D1", 1920, 1080));
    assert!(!w.router.is_paused("r1") && w.router.is_paused("r2"));
    let fx = w.router.reap_idle_renderers(w.now + IDLE_KILL_TIMEOUT_MS - 1);
    w.perform(fx);
    assert_eq!(w.alive(), vec!["r1".to_string(), "r2".to_string()]);
    let fx = w.router.reap_idle_renderers(w.now + IDLE_KILL_TIMEOUT_MS + 1);
    w.perform(fx);
    assert_eq!(w.alive(), vec!["r1".to_string()]);
}

#[test]
fn reported_colour_reaches_the_links() {
    let (mut w, d) = world_with_pool();
    let colour = ClearColor { r: 1, g: 2, b: 3, a: 4 };
    let report = RendererEvent::ReportState {
        state: vec![StateEntry { key: "clear_color".into(), color: Some(colour) }],
    };
    w.configs.clear();
    let (fx, _) = w.router.renderer_event("r1", report, vec![]);
    w.perform(fx);
    assert_eq!(w.router.handle("r1").unwrap().clear_rgba(), colour);
    let told = w.configs.pop().unwrap();
    assert_eq!((told.display, told.geometry.clear_rgba), (d, colour));
    w.configs.clear();
    let fx = w.router.on_renderer_state_changed("r1");
    w.perform(fx);
    assert!(w.configs.is_empty());
}

#[test]
fn announced_pool_is_bound_again_only_when_new() {
    let (mut w, _) = world_with_pool();
    let fx = w.router.on_renderer_bind("r1");
    assert!(!fx.iter().any(|e| matches!(e, Effect::Bind { .. })));
    let fx = w.router.on_renderer_bind("nobody");
    assert!(fx.is_empty());
    let h = w.router.handle("r1").unwrap();
    assert_eq!((h.current_flags(), h.current_scheme()), (0, None));
    assert!(w.router.snapshot_renderers().iter().any(|r| r.id == "r1"));
}

#[test]
fn library_changes_are_told() {
    let w = World::new();
    let lib = LibrarySnapshot { id: 3, path: "/l".into(), plugin_name: "p".into() };
    match w.router.upsert_library(lib) {
        Effect::Emit(RouterEvent::LibraryUpsert(l)) => assert_eq!((l.id, l.path.as_str()), (3, "/l")),
        other => panic!("unexpected {other:?}"),
    }
    assert!(matches!(w.router.remove_library(3), Effect::Emit(RouterEvent::LibraryRemoved(3))));
}

#[test]
fn link_geometry_changes_once() {
    let (mut w, d) = world_with_pool();
    assert_eq!(w.router.snapshot_display(d).unwrap().links.len(), 1);
    let change = GeometryChange {
        src: None,
        dst: None,
        transform: Some(2),
        clear_rgba: None,
        z_order: None,
    };
    w.configs.clear();
    let (changed, fx) = w.router.set_link_geometry(1, &change);
    w.perform(fx);
    assert!(changed);
    assert_eq!(w.configs.pop().unwrap().geometry.transform, 2);
    let (again, _) = w.router.set_link_geometry(1, &change);
    assert!(!again);
    let (unknown, _) = w.router.set_link_geometry(99, &change);
    assert!(!unknown);
}

#[test]
fn link_of_an_unknown_renderer_changes_too() {
    let mut w = World::new();
    let d = w.plug(reg("HDMI-A-1", 1920, 1080));
    let fx = w.router.relink_displays_to(&vec![d], "nobody", 0);
    w.perform(fx);
    let change = GeometryChange {
        src: None,
        dst: None,
        transform: None,
        clear_rgba: None,
        z_order: Some(3),
    };
    let (changed, fx) = w.router.set_link_geometry(1, &change);
    assert!(changed && fx.is_empty());
    assert_eq!(w.router.snapshot_display(d).unwrap().links[0].z_order, 3);
    assert!(!w.router.set_link_geometry(1, &change).0);
}

#[test]
fn rejection_by_a_renderer_without_capabilities_is_passed_over() {
    let (mut w, _) = world_with_pool();
    assert!(w.router.on_renderer_bind_failed("r1", 1, 2).is_empty());
    assert!(w.router.handle("r1").unwrap().format_caps.is_none());
}

#[test]
fn second_sync_sends_nothing() {
    let (mut w, d) = world_with_pool();
    let mut out = vec![];
    w.router.sync_display(d, &mut out);
    assert!(out.is_empty());
    let mut late = stub("r2", "scene");
    late.bind_snapshot = Some(fake_bind_snapshot(7, 1920, 1080));
    w.add_handle(late);
    w.router.sync_display(d, &mut out);
    assert!(out.is_empty());
}

#[test]
fn retired_renderers_are_not_killed() {
    let (mut w, d) = world_with_pool();
    let fx = w.router.retire_renderers(&vec!["r1".to_string()], 0);
    assert_eq!(unbound_displays(&fx), vec![d]);
    assert!(!fx.iter().any(|e| matches!(e, Effect::Kill(_))));
    assert!(w.router.snapshot_renderers().is_empty());
}

#[test]
fn layout_is_stored_under_the_stable_identifier() {
    let mut w = World::new();
    let mut r = reg("DP-1", 1920, 1080);
    r.instance_id = Some("panel-7".into());
    w.plug(r);
    let mut store = SettingsStore::from_load(LoadOutcome::Missing);
    let change = LayoutChange {
        fillmode: Some(FillMode::Centered),
        align: None,
        clear_rgba: None,
        clear_fillmode: false,
        clear_align: false,
        clear_clear_rgba: false,
    };
    let _fx = w.router.set_display_layout(&mut store, "DP-1", &change);
    assert_eq!(store.display_pref_names(), vec!["panel-7".to_string()]);
    assert_eq!(store.display_prefs("panel-7").unwrap().fillmode, Some(FillMode::Centered));
    let back = LayoutChange { fillmode: None, clear_fillmode: true, ..change };
    let _fx = w.router.set_display_layout(&mut store, "DP-1", &back);
    assert!(store.display_pref_names().is_empty());
}
