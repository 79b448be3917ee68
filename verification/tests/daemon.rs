//! Requests to the daemon, from the first turn to the reply.

use waywallen::catalog::{SourceManager, SourcePluginInfo, WallpaperEntry};
use waywallen::dispatch::change::settings_sent;
use waywallen::dispatch::control::control_sent;
use waywallen::dispatch::list::{list_page, Media};
use waywallen::dispatch::{
    clear_rgba_from_pb, layout_override_to_pb, Answer, Ask, ControlMsg, Daemon, GlobalChange,
    LayoutOverride, Order, PlaylistRow, Registry, Reply, Request, Turn, Wait,
};
use waywallen::drm::DrmNode;
use waywallen::error::Error;
use waywallen::layout::{Align, FillMode};
use waywallen::queue::{GlobalEvent, Mode, QueueState, QueueStatus};
use waywallen::registry::{RendererDef, SettingDef, SettingDefault, SettingType};
use waywallen::renderer::{ClearColor, RendererHandle};
use waywallen::router::{DisplayRegistration, Effect, Router};
use waywallen::settings::{
    DisplayPrefs, GlobalSettings, LoadOutcome, RenderSizePolicy, Settings, SettingsStore,
};
use waywallen::snapshot::{LibrarySnapshot, RouterEvent};
use waywallen::source::{entry_of, RawEntry};
use waywallen::spawn::{CodecFault, RendererManager};
use waywallen::strmap::StrMap;
use waywallen::wire::{
    entry_to_pb, first_pushes, global_event_to_pb, on_global, on_message, on_router, on_task,
    plugin_fps, status_sync_event, ItemMeta, MessageAction, MessageKind, Push, Received, TaskState,
    WireEvent,
};

fn table(pairs: &[(&str, &str)]) -> StrMap<String> {
    let mut m = StrMap::new();
    for (k, v) in pairs {
        m.insert(k.to_string(), v.to_string());
    }
    m
}

fn tables(plugin: &str, pairs: &[(&str, &str)]) -> StrMap<StrMap<String>> {
    let mut m = StrMap::new();
    m.insert(plugin.to_string(), table(pairs));
    m
}

fn entry(id: &str, wp_type: &str, relative: &str) -> WallpaperEntry {
    entry_of(
        RawEntry {
            id: Some(id.into()),
            name: Some(format!("name of {id}")),
            wp_type: Some(wp_type.into()),
            resource: Some(format!("/lib/{relative}")),
            preview: None,
            metadata: StrMap::new(),
            library_root: Some("/lib".into()),
            relative: Some(relative.into()),
            description: None,
            tags: None,
            external_id: None,
            size: None,
            width: None,
            height: None,
            format: None,
        },
        "image",
    )
}

fn renderer_def() -> RendererDef {
    let mut settings = StrMap::new();
    settings.insert(
        "volume".to_string(),
        SettingDef {
            ty: SettingType::Text,
            default: SettingDefault::Text("5".into()),
            identity: false,
            min: None,
            max: None,
            choices: None,
            order: 0,
        },
    );
    RendererDef {
        name: "viewer".into(),
        bin: "/bin/viewer".into(),
        types: vec!["image".into()],
        priority: 1,
        version: "1".into(),
        spawn_version: None,
        extras: vec![],
        settings,
        events: vec![],
    }
}

fn daemon() -> Daemon {
    let mut best = StrMap::new();
    best.insert("image".to_string(), "viewer".to_string());
    let mut catalog = SourceManager::new();
    catalog.add(entry("w1", "image", "a.png"));
    catalog.add(entry("w2", "image", "b.png"));
    catalog.add(entry("v1", "video", "c.mp4"));
    Daemon {
        router: Router::new(),
        store: SettingsStore::from_load(LoadOutcome::Parsed(Settings {
            global: GlobalSettings::default(),
            plugins: StrMap::new(),
            displays: StrMap::new(),
        })),
        manager: RendererManager::new(),
        registry: Registry { defs: vec![renderer_def()], best },
        catalog,
        queue: QueueState::new(Mode::Sequential),
    }
}

fn with_display(d: &mut Daemon) -> u64 {
    let (id, _) = d.router.register_display(
        DisplayRegistration {
            name: "DP-1".into(),
            instance_id: None,
            width: 1920,
            height: 1080,
            refresh_mhz: 60_000,
            gpu: DrmNode::unknown(),
            properties: vec![],
            consumer_caps: None,
        },
        0,
    );
    id
}

fn handle(id: &str) -> RendererHandle {
    RendererHandle {
        id: id.into(),
        wp_type: "image".into(),
        width: 0,
        height: 0,
        extent_mode: 0,
        extras: StrMap::new(),
        name: "viewer".into(),
        pid: Some(7),
        gpu: DrmNode::unknown(),
        bind_snapshot: None,
        pending_configure: None,
        sync_fds: vec![],
        release_syncobj: None,
        format_caps: None,
        last_dispatched_scheme: None,
        events_subscribed: vec![],
        clear_rgba: ClearColor::default(),
    }
}

fn done(t: Turn) -> Result<Reply, Error> {
    match t {
        Turn::Done(r) => r,
        Turn::Ask(a, _) => panic!("unexpected question {a:?}"),
    }
}

fn ask(t: Turn) -> (Ask, Wait) {
    match t {
        Turn::Ask(a, w) => (a, w),
        Turn::Done(r) => panic!("unexpected reply {r:?}"),
    }
}

fn begin(d: &mut Daemon, req: Request, out: &mut Vec<Order>) -> Turn {
    d.begin(Some(req), 0, out)
}

#[test]
fn health_is_told_and_empty_requests_are_not() {
    let mut d = daemon();
    let mut out = vec![];
    match done(begin(&mut d, Request::Health, &mut out)) {
        Ok(Reply::Health { service, state }) => assert_eq!((service, state), ("waywallen", "healthy")),
        other => panic!("unexpected {other:?}"),
    }
    match done(d.begin(None, 0, &mut out)) {
        Err(Error::UnexpectedPayload(m)) => assert_eq!(m, "empty request payload"),
        other => panic!("unexpected {other:?}"),
    }
    assert!(out.is_empty());
}

#[test]
fn spawned_renderers_are_listed_until_killed() {
    let mut d = daemon();
    let mut out = vec![];
    let req = Request::RendererSpawn {
        wp_type: "image".into(),
        metadata: table(&[("path", "/a.png")]),
        fps: 30,
        width: 0,
        height: 0,
    };
    let (a, w) = ask(begin(&mut d, req, &mut out));
    match a {
        Ask::Spawn(r) => assert_eq!(r.wp_type, "image"),
        other => panic!("unexpected {other:?}"),
    }
    let answer = Answer::Spawned(Ok(("r1".into(), Some(handle("r1")))));
    assert!(matches!(
        done(d.resume(w, answer, 0, &mut out)),
        Ok(Reply::RendererSpawn { renderer_id }) if renderer_id == "r1"
    ));
    match done(begin(&mut d, Request::RendererList, &mut out)) {
        Ok(Reply::RendererList { renderers, instances }) => {
            assert_eq!(renderers, vec!["r1"]);
            assert_eq!((instances.len(), instances[0].pid), (1, 7));
        }
        other => panic!("unexpected {other:?}"),
    }
    out.clear();
    let killed = done(begin(&mut d, Request::RendererKill("r1".into()), &mut out));
    assert!(matches!(killed, Ok(Reply::RendererKill)));
    assert!(out.iter().any(|o| matches!(o, Order::Terminate(id) if id == "r1")));
    assert!(matches!(
        done(begin(&mut d, Request::RendererKill("r1".into()), &mut out)),
        Err(Error::RendererNotFound(id)) if id == "r1"
    ));
}

#[test]
fn failed_spawn_changes_nothing() {
    let mut d = daemon();
    let mut out = vec![];
    let failed = Answer::Spawned(Err(Error::RendererSpawnFailed("x".into())));
    let r = done(d.resume(Wait::Spawned, failed, 0, &mut out));
    assert!(matches!(r, Err(Error::RendererSpawnFailed(m)) if m == "x"));
    assert!(out.is_empty() && d.manager.list().is_empty());
}

#[test]
fn control_messages_are_passed_on() {
    let mut d = daemon();
    let mut out = vec![];
    let req = Request::RendererFps { renderer_id: "r1".into(), fps: 60 };
    let (a, w) = ask(begin(&mut d, req, &mut out));
    assert!(matches!(
        a,
        Ask::SendControl { renderer_id, msg: ControlMsg::SetFps { fps: 60 } } if renderer_id == "r1"
    ));
    let r = done(d.resume(w, Answer::Ack(Ok(())), 0, &mut out));
    assert!(matches!(r, Ok(Reply::RendererFps)));
    assert!(matches!(d.send_target("r1"), Err(Error::RendererNotFound(_))));

    assert!(matches!(control_sent(None), (false, Ok(()))));
    match control_sent(Some((CodecFault::BrokenPipe, "gone".into()))) {
        (true, Err(Error::RendererControlFailed(m))) => assert_eq!(m, "send_control: gone"),
        other => panic!("unexpected {other:?}"),
    }
    assert!(!control_sent(Some((CodecFault::Other, "x".into()))).0);
}

#[test]
fn wallpaper_is_put_on_all_displays() {
    let mut d = daemon();
    let mut out = vec![];
    let display = with_display(&mut d);
    let req = |id: &str| Request::WallpaperApply {
        wallpaper_id: id.into(),
        renderer_name: String::new(),
        display_ids: vec![],
    };
    let (a, w) = ask(begin(&mut d, req("w1"), &mut out));
    assert!(matches!(
        a,
        Ask::Extras { plugin_name, wallpaper_id } if plugin_name == "image" && wallpaper_id == "w1"
    ));
    let extras = Answer::Extras(Ok(table(&[("path", "/lib/a.png")])));
    let (a, w) = ask(d.resume(w, extras, 0, &mut out));
    match a {
        Ask::Spawn(r) => {
            assert_eq!(r.extras.get("path"), Some(&"/lib/a.png".to_string()));
            assert_eq!(r.wp_type, "image");
        }
        other => panic!("unexpected {other:?}"),
    }
    let mut h = handle("r1");
    h.extras = table(&[("path", "/lib/a.png")]);
    d.queue.shuffle_round = vec![7, 12, 9];
    let spawned = Answer::Spawned(Ok(("r1".into(), Some(h))));
    let (a, w) = ask(d.resume(w, spawned, 0, &mut out));
    assert!(matches!(
        a,
        Ask::FindItem { library_root, relative } if library_root == "/lib" && relative == "a.png"
    ));
    match done(d.resume(w, Answer::Item(Some(12)), 0, &mut out)) {
        Ok(Reply::WallpaperApply { renderer_id, wallpaper_id, wp_type, name }) => {
            assert_eq!((renderer_id.as_str(), wallpaper_id.as_str()), ("r1", "w1"));
            assert_eq!((wp_type.as_str(), name.as_str()), ("image", "name of w1"));
        }
        other => panic!("unexpected {other:?}"),
    }
    assert!(matches!(out[out.len() - 2], Order::FlushSettings));
    assert!(matches!(out[out.len() - 1], Order::KickRotation));
    assert_eq!(d.queue.current.as_deref(), Some("w1"));
    assert_eq!((d.queue.last_db_id, d.queue.shuffle_pos), (Some(12), 1));
    assert_eq!(d.store.global().last_wallpaper.as_deref(), Some("w1"));
    let shown = d.router.snapshot_display(display).unwrap();
    assert_eq!(shown.links[0].renderer_id, "r1");
}

#[test]
fn wallpapers_need_a_display_and_a_renderer() {
    let mut d = daemon();
    let mut out = vec![];
    let req = |id: &str, renderer: &str| Request::WallpaperApply {
        wallpaper_id: id.into(),
        renderer_name: renderer.into(),
        display_ids: vec![],
    };
    let r = done(begin(&mut d, req("none", ""), &mut out));
    assert!(matches!(r, Err(Error::WallpaperNotFound(id)) if id == "none"));
    let r = done(begin(&mut d, req("w1", ""), &mut out));
    assert!(matches!(r, Err(Error::NoDisplayRegistered)));
    with_display(&mut d);
    let r = done(begin(&mut d, req("v1", ""), &mut out));
    assert!(matches!(r, Err(Error::NoRendererForType(t)) if t == "video"));
    let r = done(begin(&mut d, req("w1", "other"), &mut out));
    assert!(matches!(r, Err(Error::RendererNotFound(n)) if n == "other"));
    let r = done(begin(&mut d, req("v1", "viewer"), &mut out));
    assert!(matches!(
        r,
        Err(Error::RendererTypeMismatch { renderer, ty }) if renderer == "viewer" && ty == "video"
    ));
    assert!(out.is_empty());
}

#[test]
fn showing_a_wallpaper_looks_it_up() {
    let mut d = daemon();
    let mut out = vec![];
    with_display(&mut d);
    let (a, w) = ask(d.show_begin("w2".into(), 0, &mut out));
    assert!(matches!(a, Ask::Extras { .. }));
    let (_, w) = ask(d.resume(w, Answer::Extras(Ok(StrMap::new())), 0, &mut out));
    let spawned = Answer::Spawned(Ok(("r2".into(), Some(handle("r2")))));
    let (a, w) = ask(d.resume(w, spawned, 0, &mut out));
    assert!(matches!(
        a,
        Ask::FindItem { library_root, relative } if library_root == "/lib" && relative == "b.png"
    ));
    let r = done(d.resume(w, Answer::Item(Some(12)), 0, &mut out));
    assert!(matches!(r, Ok(Reply::WallpaperApply { .. })));
    assert_eq!(d.queue.last_db_id, Some(12));
    assert!(matches!(out[out.len() - 1], Order::NotifyWallpaper));
    let r = done(d.show_begin("none".into(), 0, &mut out));
    assert!(matches!(r, Err(Error::WallpaperNotFound(_))));
}

#[test]
fn renderers_are_stopped_once_displays_let_go() {
    let mut d = daemon();
    let mut out = vec![];
    with_display(&mut d);
    let answer = Answer::Spawned(Ok(("r1".into(), Some(handle("r1")))));
    d.resume(Wait::Spawned, answer, 0, &mut out);
    out.clear();
    let (a, w) = ask(d.show_begin("w2".into(), 0, &mut out));
    // The renderer has no pool yet, so no display has to let go of one.
    assert!(matches!(
        a,
        Ask::AwaitUnbind { displays, timeout_ms: 1000 } if displays.is_empty()
    ));
    assert!(d.router.snapshot_renderers().is_empty());
    let kills = |out: &[Order]| {
        out.iter().filter(|o| matches!(o, Order::Route(Effect::Kill(_)))).count()
    };
    assert_eq!(kills(&out), 0);
    let (a, _) = ask(d.resume(w, Answer::Ack(Ok(())), 0, &mut out));
    assert!(matches!(out.last(), Some(Order::Route(Effect::Kill(id))) if id == "r1"));
    assert_eq!(kills(&out), 1);
    assert!(matches!(a, Ask::Extras { wallpaper_id, .. } if wallpaper_id == "w2"));
}

fn media() -> Media {
    Media {
        libraries: vec![(1, "/lib".into())],
        items: vec![ItemMeta {
            library_id: 1,
            path: "a.png".into(),
            size: Some(99),
            width: Some(640),
            height: None,
            format: Some("png".into()),
            preview_path: None,
        }],
    }
}

#[test]
fn wallpapers_are_listed_in_pages() {
    let mut d = daemon();
    let mut out = vec![];
    let req = Request::WallpaperList {
        wp_type: "image".into(),
        filters: vec![],
        logics: vec![],
        page: 0,
        page_size: 0,
    };
    let (a, w) = ask(begin(&mut d, req, &mut out));
    assert!(matches!(a, Ask::LoadMedia));
    match done(d.resume(w, Answer::Media(Ok(media())), 0, &mut out)) {
        Ok(Reply::WallpaperList { wallpapers, count }) => {
            assert_eq!((wallpapers.len(), count), (2, 2));
            assert_eq!((wallpapers[0].size, wallpapers[0].width), (99, 640));
            assert_eq!(wallpapers[1].size, 0);
        }
        other => panic!("unexpected {other:?}"),
    }
    let ids = |page, size| -> Vec<String> {
        let (list, count) = list_page(&d.catalog, "", &None, page, size, &media());
        assert_eq!(count, 3);
        list.into_iter().map(|w| w.id).collect()
    };
    assert_eq!(ids(0, 2), vec!["w1", "w2"]);
    assert_eq!(ids(1, 2), vec!["v1"]);
    assert!(ids(2, 2).is_empty());
    assert!(ids(u32::MAX, u32::MAX).is_empty());
    let keys = Some(vec![("/lib".to_string(), "b.png".to_string())]);
    let (list, count) = list_page(&d.catalog, "", &keys, 0, 0, &media());
    assert_eq!((list[0].id.as_str(), count), ("w2", 1));
}

#[test]
fn one_wrong_setting_turns_the_change_down() {
    let mut d = daemon();
    let mut out = vec![];
    let req = Request::SettingsSet {
        plugins: tables("viewer", &[("volume", "loud")]),
        global: None,
    };
    let (a, w) = ask(begin(&mut d, req, &mut out));
    match a {
        Ask::CheckSettings(checks) => {
            assert_eq!(checks.len(), 1);
            assert_eq!((checks[0].plugin.as_str(), checks[0].key.as_str()), ("viewer", "volume"));
        }
        other => panic!("unexpected {other:?}"),
    }
    let bad = Answer::Checked(vec![Err("volume: not a number".into())]);
    match done(d.resume(w, bad, 0, &mut out)) {
        Err(Error::SettingsValidationFailed(m)) => assert_eq!(m, "viewer.volume: not a number"),
        other => panic!("unexpected {other:?}"),
    }
    assert!(out.is_empty());
    assert!(d.store.plugin("viewer").is_none());
}

fn global_change() -> GlobalChange {
    GlobalChange {
        target_extent: 1440,
        render_size_policy: RenderSizePolicy::OneAxisAuto,
        wallpaper_filters: vec![],
        wallpaper_filter_logics: vec![],
        fillmode: Some(FillMode::Stretched),
        align: None,
        clear_rgba: None,
    }
}

#[test]
fn settings_are_kept_and_told() {
    let mut d = daemon();
    let mut out = vec![];
    let req = Request::SettingsSet {
        plugins: tables("viewer", &[("volume", "07")]),
        global: Some(global_change()),
    };
    let (_, w) = ask(begin(&mut d, req, &mut out));
    let r = done(d.resume(w, Answer::Checked(vec![Ok("7".into())]), 0, &mut out));
    assert!(matches!(r, Ok(Reply::SettingsSet)));
    assert!(matches!(out.last(), Some(Order::Publish(GlobalEvent::SettingsChanged))));
    assert_eq!(d.store.plugin("viewer").unwrap().get("volume"), Some(&"7".to_string()));
    let g = d.store.global();
    assert_eq!((g.target_extent, g.render_size_policy), (1440, RenderSizePolicy::OneAxisAuto));
    assert_eq!(g.layout.fillmode, FillMode::Stretched);
    match done(begin(&mut d, Request::SettingsGet, &mut out)) {
        Ok(Reply::SettingsGet(i)) => assert_eq!(i.target_extent, 1440),
        other => panic!("unexpected {other:?}"),
    }
}

#[test]
fn changed_settings_go_to_running_renderers() {
    let mut d = daemon();
    let mut out = vec![];
    let answer = Answer::Spawned(Ok(("r1".into(), Some(handle("r1")))));
    d.resume(Wait::Spawned, answer, 0, &mut out);
    let req = Request::SettingsSet { plugins: tables("viewer", &[("volume", "7")]), global: None };
    let (_, w) = ask(begin(&mut d, req, &mut out));
    let (a, w) = ask(d.resume(w, Answer::Checked(vec![Ok("7".into())]), 0, &mut out));
    match a {
        Ask::SendSettings(s) => {
            assert_eq!((s.len(), s[0].renderer_id.as_str()), (1, "r1"));
            assert_eq!(s[0].kv, vec![("volume".to_string(), "7".to_string())]);
        }
        other => panic!("unexpected {other:?}"),
    }
    match done(d.resume(w, Answer::Sent(vec![Err("pipe".into())]), 0, &mut out)) {
        Err(Error::SettingsApplyFailed(m)) => assert_eq!(m, "1 renderer(s): r1 (viewer): pipe"),
        other => panic!("unexpected {other:?}"),
    }
    assert_eq!(d.store.plugin("viewer").unwrap().get("volume"), Some(&"7".to_string()));

    let names = vec![("a".to_string(), "p".to_string()), ("b".to_string(), "q".to_string())];
    let results = vec![Err("x".to_string()), Err("y".to_string())];
    match done(settings_sent(names, results, &mut out)) {
        Err(e) => assert_eq!(
            e.message(),
            "settings persisted but live hot-reload failed: 2 renderer(s): a (p): x; b (q): y"
        ),
        other => panic!("unexpected {other:?}"),
    }
}

#[test]
fn layouts_are_set_by_display_name() {
    let mut d = daemon();
    let mut out = vec![];
    with_display(&mut d);
    let set = |layout, clear_fillmode| Request::DisplayLayoutSet {
        name: "DP-1".into(),
        layout,
        clear_fillmode,
        clear_align: false,
        clear_clear_rgba: false,
    };
    let change = LayoutOverride {
        fillmode_set: true,
        fillmode: Some(FillMode::Centered),
        align_set: false,
        align: Some(Align::Top),
        clear_rgba_set: false,
        clear_rgba: None,
    };
    match done(begin(&mut d, set(Some(change), false), &mut out)) {
        Ok(Reply::DisplayLayoutSet { display: Some(i) }) => {
            assert_eq!(i.effective_layout.fillmode, FillMode::Centered);
            assert_eq!(i.layout_override.align, None);
        }
        other => panic!("unexpected {other:?}"),
    }
    done(begin(&mut d, set(None, true), &mut out)).unwrap();
    assert!(d.store.display_prefs("DP-1").is_none());
    match done(begin(&mut d, Request::DisplayList, &mut out)) {
        Ok(Reply::DisplayList(l)) => assert_eq!(l[0].name, "DP-1"),
        other => panic!("unexpected {other:?}"),
    }
}

#[test]
fn told_layouts_say_what_is_overridden() {
    let c = ClearColor { r: 1, g: 2, b: 3, a: 4 };
    let told = layout_override_to_pb(&DisplayPrefs {
        fillmode: None,
        align: Some(Align::Left),
        clear_rgba: Some(c),
    });
    assert!(!told.fillmode_set && told.align_set && told.clear_rgba_set);
    assert_eq!((told.align, told.clear_rgba), (Some(Align::Left), Some(c)));
    assert_eq!(clear_rgba_from_pb(&vec![1, 2, 3, 4]), Some(c));
    assert_eq!(clear_rgba_from_pb(&vec![1, 2, 3]), None);
}

#[test]
fn libraries_are_added_and_removed() {
    let mut d = daemon();
    let mut out = vec![];
    let req = Request::LibraryAdd { plugin_name: "image".into(), path: "/new".into() };
    let (a, w) = ask(begin(&mut d, req, &mut out));
    assert!(matches!(a, Ask::FindPlugin(n) if n == "image"));
    let (a, w) = ask(d.resume(w, Answer::Plugin(Ok(Some(3))), 0, &mut out));
    assert!(matches!(a, Ask::AddLibrary { plugin_id: 3, path } if path == "/new"));
    let r = done(d.resume(w, Answer::Library(Ok((8, "/new".into()))), 0, &mut out));
    assert!(matches!(r, Ok(Reply::LibraryAdd)));
    match out.as_slice() {
        [Order::Route(Effect::Emit(RouterEvent::LibraryUpsert(l))), Order::Publish(GlobalEvent::LibrariesAdded { paths }), Order::StartScan(name)] =>
        {
            assert_eq!((l.id, l.plugin_name.as_str()), (8, "image"));
            assert_eq!(*paths, vec!["/new"]);
            assert_eq!(*name, "scan/refresh-after-library-add");
        }
        other => panic!("unexpected {other:?}"),
    }
    let unknown = Wait::LibraryPlugin { plugin_name: "x".into(), path: "/p".into() };
    let r = done(d.resume(unknown, Answer::Plugin(Ok(None)), 0, &mut out));
    assert!(matches!(r, Err(Error::SourcePluginNotFound(n)) if n == "x"));

    out.clear();
    let (a, w) = ask(begin(&mut d, Request::LibraryRemove(8), &mut out));
    assert!(matches!(a, Ask::RemoveLibrary(8)));
    let missing = Answer::Ack(Err(Error::LibraryNotFound(8)));
    assert!(matches!(done(d.resume(w, missing, 0, &mut out)), Err(Error::LibraryNotFound(8))));
    assert!(out.is_empty());
    let r = done(d.resume(Wait::LibraryRemoved(8), Answer::Ack(Ok(())), 0, &mut out));
    assert!(matches!(r, Ok(Reply::LibraryRemove)));
    assert!(matches!(
        out[0],
        Order::Route(Effect::Emit(RouterEvent::LibraryRemoved(8)))
    ));
}

#[test]
fn playlists_are_filled_or_dropped() {
    let mut d = daemon();
    let mut out = vec![];
    let req = Request::PlaylistCreate {
        name: "p".into(),
        mode: Mode::Shuffle,
        interval_secs: 5,
        item_ids: vec![1, 2],
    };
    let (a, w) = ask(begin(&mut d, req, &mut out));
    assert!(matches!(
        a,
        Ask::CreatePlaylist { name, mode: Mode::Shuffle, interval_secs: 5 } if name == "p"
    ));
    let (a, w) = ask(d.resume(w, Answer::Created(Ok(4)), 0, &mut out));
    assert!(matches!(a, Ask::SetPlaylistItems { id: 4, item_ids } if item_ids == vec![1, 2]));
    let bad = Answer::Ack(Err(Error::PlaylistInvalid("no item".into())));
    let (a, w) = ask(d.resume(w, bad, 0, &mut out));
    assert!(matches!(a, Ask::DeletePlaylist(4)));
    let r = done(d.resume(w, Answer::Ack(Ok(())), 0, &mut out));
    assert!(matches!(r, Err(Error::PlaylistInvalid(m)) if m == "no item"));
}

#[test]
fn active_playlist_sets_mode_and_interval() {
    let mut d = daemon();
    let mut out = vec![];
    let (_, w) = ask(begin(&mut d, Request::PlaylistActivate(4), &mut out));
    let (a, w) = ask(d.resume(w, Answer::Activated(Ok("shuffle".into())), 0, &mut out));
    assert!(matches!(a, Ask::FindPlaylist(4)));
    assert_eq!((d.queue.active_id, d.queue.mode), (Some(4), Mode::Shuffle));
    assert_eq!(d.store.global().active_playlist_id, Some(4));
    assert_eq!(d.store.global().playlist_mode, "sequential");
    let r = done(d.resume(w, Answer::Interval(Ok(Some(30))), 0, &mut out));
    assert!(matches!(r, Ok(Reply::PlaylistActivate)));
    assert!(matches!(out.last(), Some(Order::SetInterval(30))));
    assert_eq!(d.store.global().rotation_secs, 30);

    let set = |id| Request::PlaylistSetMode { id, mode: Mode::Random };
    let (_, w) = ask(begin(&mut d, set(9), &mut out));
    done(d.resume(w, Answer::Ack(Ok(())), 0, &mut out)).unwrap();
    assert_eq!(d.queue.mode, Mode::Shuffle);
    let (_, w) = ask(begin(&mut d, set(4), &mut out));
    done(d.resume(w, Answer::Ack(Ok(())), 0, &mut out)).unwrap();
    assert_eq!(d.queue.mode, Mode::Random);
    assert_eq!(d.store.global().playlist_mode, "random");

    let (_, w) = ask(begin(&mut d, Request::PlaylistDelete(4), &mut out));
    let (a, w) = ask(d.resume(w, Answer::Ack(Ok(())), 0, &mut out));
    assert!(matches!(a, Ask::DeactivatePlaylist));
    done(d.resume(w, Answer::Ack(Ok(())), 0, &mut out)).unwrap();
    assert_eq!(d.queue.active_id, None);
    assert_eq!(d.store.global().active_playlist_id, None);
}

#[test]
fn playlist_is_loaded_without_its_pace() {
    let mut d = daemon();
    let mut out = vec![];
    let (a, w) = ask(d.activate_begin(8));
    assert!(matches!(a, Ask::ActivatePlaylist(8)));
    let r = done(d.resume(w, Answer::Activated(Ok("random".into())), 0, &mut out));
    assert!(matches!(r, Ok(Reply::PlaylistActivate)));
    assert_eq!((d.queue.active_id, d.queue.mode), (Some(8), Mode::Random));
    assert_eq!(d.store.global().active_playlist_id, Some(8));

    let items = Request::PlaylistSetItems { id: 8, item_ids: vec![1] };
    let (_, w) = ask(begin(&mut d, items, &mut out));
    let (a, w) = ask(d.resume(w, Answer::Ack(Ok(())), 0, &mut out));
    assert!(matches!(a, Ask::ActivatePlaylist(8)));
    let missing = Answer::Activated(Err(Error::PlaylistNotFound("8".into())));
    let r = done(d.resume(w, missing, 0, &mut out));
    assert!(matches!(r, Err(Error::PlaylistNotFound(id)) if id == "8"));
    assert!(out.is_empty());
}

#[test]
fn playlists_are_summed_up() {
    let mut d = daemon();
    let mut out = vec![];
    let rows = vec![PlaylistRow {
        id: 1,
        name: "n".into(),
        source_kind: "curated".into(),
        mode: "strange".into(),
        interval_secs: -1,
        item_count: 2,
    }];
    match done(d.resume(Wait::PlaylistList, Answer::Playlists(Ok(rows)), 0, &mut out)) {
        Ok(Reply::PlaylistList(l)) => {
            assert_eq!((l[0].mode, l[0].interval_secs, l[0].item_count), (None, 0, 2))
        }
        other => panic!("unexpected {other:?}"),
    }
    let status = QueueStatus {
        active_id: Some(3),
        mode: "shuffle".into(),
        interval_secs: 9,
        current: Some("w1".into()),
        position: Some(2),
        count: 5,
        is_smart: false,
    };
    match done(d.resume(Wait::PlaylistStatus, Answer::Status(status), 0, &mut out)) {
        Ok(Reply::PlaylistStatus(s)) => {
            assert_eq!((s.active_id, s.mode, s.position), (3, Some(Mode::Shuffle), 2));
            assert_eq!(s.current_id, "w1");
        }
        other => panic!("unexpected {other:?}"),
    }
}

#[test]
fn scans_replace_the_catalog_and_the_round() {
    let mut d = daemon();
    let mut out = vec![];
    d.queue.build_shuffle_round(vec![1, 2], &vec![0, 1], None, 1);
    assert_eq!(d.sources_scanned(vec![entry("n", "image", "n.png")], vec![]), 1);
    assert_eq!(d.catalog.len(), 1);
    assert!(d.queue.shuffle_round.is_empty());
    let r = done(begin(&mut d, Request::WallpaperScan, &mut out));
    assert!(matches!(r, Ok(Reply::WallpaperScan { count: 0 })));
    assert!(matches!(out[0], Order::StartScan("scan/refresh")));
    let plugin = SourcePluginInfo { name: "image".into(), types: vec![], version: "2".into() };
    d.sources_scanned(vec![entry("n", "image", "n.png"), entry("m", "image", "m.png")], vec![plugin]);
    let mut libs = StrMap::new();
    libs.insert("image".to_string(), vec!["/lib".to_string()]);
    let plans = d.sync_plans(&libs);
    assert_eq!((plans.len(), plans[0].name.as_str(), plans[0].version.as_str()), (1, "image", "2"));
    assert_eq!(plans[0].entries, vec![0, 1]);
    assert_eq!(plans[0].protected, vec!["/lib"]);
    d.evict("nobody".into(), 0, &mut out);
    assert_eq!(out.len(), 1);
    d.set_shuffle(true, &mut out);
    assert_eq!(d.queue.mode, Mode::Shuffle);
    assert!(matches!(out[1], Order::SetMode(Mode::Shuffle)));
}

#[test]
fn listed_wallpapers_prefer_what_the_database_knows() {
    let mut e = entry("w", "image", "a.png");
    e.preview = Some("/p.png".into());
    e.size = Some(1);
    e.width = Some(2);
    let bare = entry_to_pb(&e, None);
    assert_eq!((bare.preview.as_str(), bare.size, bare.width), ("/p.png", 1, 2));
    let known = entry_to_pb(&e, Some(&media().items[0]));
    assert_eq!((known.size, known.width, known.height), (99, 640, 0));
    assert_eq!(known.format, "png");
}

#[test]
fn clients_are_pushed_snapshots_first() {
    let d = daemon();
    assert!(matches!(
        first_pushes().as_slice(),
        [Push::Displays, Push::Renderers, Push::Libraries, Push::Status]
    ));
    assert!(matches!(on_router(Received::Closed, &d.store).as_slice(), [Push::StopEvents]));
    assert!(matches!(on_task(Received::Event(())).as_slice(), [Push::Status]));
    let lib = LibrarySnapshot { id: 1, path: "/l".into(), plugin_name: "p".into() };
    assert!(matches!(
        on_router(Received::Event(RouterEvent::LibraryUpsert(lib)), &d.store).as_slice(),
        [Push::Event(WireEvent::LibraryChanged(_))]
    ));
    let pushed = on_global(Received::Event(GlobalEvent::ScanStarted), &d.store);
    assert!(matches!(pushed[0], Push::Event(WireEvent::WallpaperScanStarted)));
    match global_event_to_pb(&GlobalEvent::ScanFailed("x".into()), &d.store) {
        Some(WireEvent::WallpaperScanCompleted { count, error }) => {
            assert_eq!((count, error.as_str()), (0, "x"))
        }
        other => panic!("unexpected {other:?}"),
    }
    assert!(global_event_to_pb(&GlobalEvent::SourcesReady, &d.store).is_none());
    let tasks = vec![TaskState::Running, TaskState::Completed, TaskState::Queued];
    assert!(matches!(
        status_sync_event(true, &tasks),
        WireEvent::StatusSync { scan_in_progress: true, .. }
    ));
    assert_eq!(on_message(MessageKind::Binary), MessageAction::Decode);
    assert_eq!(on_message(MessageKind::Ping), MessageAction::Ignore);
    assert_eq!(on_message(MessageKind::Close), MessageAction::Close);
    assert_eq!(plugin_fps(&d.store, "viewer"), 0);
}
