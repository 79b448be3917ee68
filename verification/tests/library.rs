//! Wallpapers on disk: sources, catalog, probing, the queue.

use waywallen::catalog::{
    extras_fields, may_read_file, probe_table, SourceManager, SourcePluginInfo, WallpaperEntry,
    READ_FILE_MAX,
};
use waywallen::error::Error;
use waywallen::paths::{default_config_path, default_db_path, join, relative_under_root};
use waywallen::probe::{
    file_stat, is_probable, join_path, media_due, sql_limit, stat_stale, FileStat, ItemRow,
    MediaMeta, ProbePass, COMMIT_BATCH, PROBE_COOLDOWN_MS, STAT_COOLDOWN_MS,
};
use waywallen::queue::{
    asked_mode, bridge_to_entry_id, display_wait, entries_of_plugin, libraries_by_plugin_name,
    list_library_snapshots, queue_status, refresh_events, restore_events, restore_plan,
    rotator_next, rotator_wait, shuffle_mode, step_row, AutoDetect, DetectAction, Detected,
    GlobalEvent, LibraryRow, Mode, QueueRow, QueueState, RotatorAction, RotatorEvent, StepPlan,
    WaitEvent,
};
use waywallen::settings::GlobalSettings;
use waywallen::source::{
    entry_of, extension, extras_result, file_size, filename, libraries_for, meta_begin, meta_found,
    plugin_info, ExtrasOutcome, MetaStep, RawEntry,
};
use waywallen::strmap::StrMap;

fn raw(id: &str, wp_type: &str) -> RawEntry {
    RawEntry {
        id: Some(id.into()),
        name: None,
        wp_type: Some(wp_type.into()),
        resource: None,
        preview: None,
        metadata: StrMap::new(),
        library_root: None,
        relative: None,
        description: None,
        tags: None,
        external_id: None,
        size: None,
        width: None,
        height: None,
        format: None,
    }
}

fn entry(id: &str, root: &str, relative: &str) -> WallpaperEntry {
    let r = RawEntry {
        library_root: Some(root.into()),
        relative: Some(relative.into()),
        ..raw(id, "image")
    };
    entry_of(r, "image")
}

/// The answers of a plugin are put into the catalog by hand.
#[test]
fn test_load_and_scan_plugin() {
    let info = plugin_info("test".into(), Some(vec!["image".into()]), Some("1.0".into()));
    let w1 = RawEntry {
        name: Some("Test Wallpaper".into()),
        resource: Some("/tmp/test.png".into()),
        ..raw("w1", "image")
    };
    let mut mgr = SourceManager::new();
    mgr.install(vec![entry_of(w1, "test")], vec![info]);

    assert_eq!(mgr.list().len(), 1);
    assert_eq!(mgr.list()[0].id, "w1");
    assert_eq!(mgr.list()[0].wp_type, "image");
    assert_eq!(mgr.list()[0].plugin_name, "test");
    assert_eq!(mgr.list_by_type("image").len(), 1);
    assert!(mgr.list_by_type("video").is_empty());
    assert!(mgr.get("w1").is_some());
    assert_eq!(mgr.plugins().len(), 1);
    assert_eq!(mgr.plugins()[0].name, "test");
}

#[test]
fn later_scan_replaces_the_catalog() {
    let mut c = SourceManager::new();
    c.add(entry("a", "/l", "a.png"));
    c.install(vec![entry("b", "/l", "b.png")], vec![]);
    assert!(c.get("a").is_none());
    assert_eq!(c.list_by_type("image"), vec![0]);
    c.add(entry_of(raw("v", "video"), "video"));
    assert_eq!(c.list_by_type("video"), vec![1]);
    assert_eq!(entries_of_plugin(&c, "video"), vec![1]);
}

#[test]
fn missing_answers_of_a_plugin_are_empty() {
    let e = entry_of(raw("x", ""), "p");
    assert_eq!((e.name.as_str(), e.resource.as_str(), e.library_root.as_str()), ("", "", ""));
    assert!(e.tags.is_empty());
    let info: SourcePluginInfo = plugin_info("p".into(), None, None);
    assert!(info.types.is_empty());
    assert_eq!(info.version, "0.0.0");
}

#[test]
fn start_arguments_fall_back_to_the_metadata() {
    let mut e = entry("a", "/l", "a.png");
    e.metadata.insert("k".into(), "v".into());
    let got = extras_result(ExtrasOutcome::NoFunction, "image", &e).unwrap();
    assert_eq!(got.sorted_pairs(), vec![("k".to_string(), "v".to_string())]);
    let mut values = StrMap::new();
    values.insert("path".to_string(), "/x".to_string());
    let got = extras_result(ExtrasOutcome::Values(values), "image", &e).unwrap();
    assert_eq!(got.get("path"), Some(&"/x".to_string()));
    match extras_result(ExtrasOutcome::NoPlugin, "image", &e) {
        Err(Error::SourcePluginNotFound(p)) => assert_eq!(p, "image"),
        other => panic!("unexpected {other:?}"),
    }
    match extras_result(ExtrasOutcome::Failed("boom".into()), "image", &e) {
        Err(Error::SourceExtrasFailed { plugin, message }) => {
            assert_eq!((plugin.as_str(), message.as_str()), ("image", "boom"))
        }
        other => panic!("unexpected {other:?}"),
    }
}

#[test]
fn plugins_are_handed_the_known_fields() {
    let mut e = entry("a", "/l", "a.png");
    e.external_id = Some("42".into());
    let fields = extras_fields(&e);
    let names: Vec<&str> = fields.iter().map(|f| f.0).collect();
    assert_eq!(names, vec!["id", "name", "wp_type", "resource", "library_root", "external_id"]);
    assert_eq!(fields[5].1, "42");
}

#[test]
fn a_chosen_wallpaper_moves_the_cursor() {
    let mut q = QueueState::new(Mode::Shuffle);
    q.shuffle_round = vec![5, 8, 3];
    q.located("w".into(), Some(3));
    assert_eq!((q.shuffle_pos, q.last_db_id), (2, Some(3)));
    q.located("x".into(), Some(99));
    assert_eq!((q.shuffle_pos, q.last_db_id), (2, Some(99)));
    q.located("y".into(), None);
    assert_eq!((q.shuffle_pos, q.last_db_id), (2, Some(99)));
    assert_eq!(q.current.as_deref(), Some("y"));
}

#[test]
fn file_names_and_extensions() {
    assert_eq!(filename("/a/b/clip.MP4"), Some("clip.MP4".to_string()));
    assert_eq!(filename("/a/.."), None);
    assert_eq!(extension("/a/b/clip.MP4"), Some("MP4".to_string()));
    assert_eq!(extension("/a/b/clip"), None);
    assert_eq!(extension("/a.d/.clip"), None);
    assert_eq!(extension("clip.tar.gz"), Some("gz".to_string()));
    assert_eq!(extension("clip."), Some(String::new()));
    assert_eq!(filename(".clip"), Some(".clip".to_string()));
    for same in ["/a/clip.png", "/a/clip.png/", "/a/clip.png//", "/a/clip.png/.", "/a/clip.png/./"] {
        assert_eq!(filename(same), Some("clip.png".to_string()));
        assert_eq!(extension(same), Some("png".to_string()));
    }
    assert_eq!(filename("/a/./clip./"), Some("clip.".to_string()));
    assert_eq!(filename("..."), Some("...".to_string()));
    assert_eq!(extension("..."), Some(String::new()));
    for nothing in ["", "/", "..", "/a.d/..", "//", ".", "./", "/.", "./.", "a/../", "/a/../."] {
        assert_eq!(filename(nothing), None);
        assert_eq!(extension(nothing), None);
    }
    assert_eq!(file_size(7), Some(7));
    assert_eq!(file_size(u64::MAX), None);
    assert!(may_read_file(READ_FILE_MAX));
    assert!(!may_read_file(READ_FILE_MAX + 1));
}

#[test]
fn plugins_see_their_own_libraries() {
    let mut libs = StrMap::new();
    libs.insert("image".to_string(), vec!["/a".to_string(), "/b".to_string()]);
    assert_eq!(libraries_for(&libs, "image"), vec!["/a", "/b"]);
    assert!(libraries_for(&libs, "video").is_empty());
}

#[test]
fn library_metadata_is_found_through_the_plugin() {
    assert_eq!(meta_begin(false, true), MetaStep::Nothing);
    assert_eq!(meta_begin(true, false), MetaStep::Nothing);
    let s = meta_begin(true, true);
    let s = meta_found(s, Ok(Some(3)));
    assert_eq!(s, MetaStep::FindLibrary { plugin_id: 3 });
    assert_eq!(meta_found(s, Ok(Some(9))), MetaStep::Access { library_id: 9 });
    assert_eq!(meta_found(s, Ok(None)), MetaStep::Nothing);
    assert_eq!(meta_found(s, Err(Error::Db("x".into()))), MetaStep::Nothing);
}

#[test]
fn probed_properties_are_told_to_plugins() {
    let known = || MediaMeta {
        width: Some(1920),
        height: Some(1080),
        format: Some("matroska,webm".into()),
    };
    let unknown = || MediaMeta { width: None, height: None, format: None };
    let t = probe_table(None, known()).unwrap();
    assert_eq!((t.size, t.width, t.height), (None, Some(1920), Some(1080)));
    assert_eq!(t.format.as_deref(), Some("matroska,webm"));
    let stat = FileStat { size: 5, modified_at: 1 };
    assert_eq!(probe_table(Some(stat), unknown()).unwrap().size, Some(5));
    assert!(probe_table(None, unknown()).is_none());
}

#[test]
fn media_files_are_told_by_their_extension() {
    assert!(is_probable("/a/clip.mp4"));
    assert!(is_probable("/a/clip.WEBM"));
    assert!(is_probable("/a/pic.PNG"));
    assert!(!is_probable("/a/scene.pkg"));
    assert!(!is_probable("/a/mp4"));
    assert_eq!(join_path("/lib/", "/a/b.png"), "/lib/a/b.png");
    assert_eq!(join_path("/lib//", ""), "/lib");
    assert_eq!(join_path("/lib", "b.png"), "/lib/b.png");
}

#[test]
fn file_looks_need_numbers_that_fit() {
    let s = file_stat(10, Some(1234)).unwrap();
    assert_eq!((s.size, s.modified_at), (10, 1234));
    assert!(file_stat(u64::MAX, Some(1)).is_none());
    assert!(file_stat(1, None).is_none());
}

fn item() -> ItemRow {
    ItemRow {
        id: 1,
        path: "/a.mp4".into(),
        stat_at: Some(1000),
        modified_at: Some(500),
        probed_at: Some(900),
        width: Some(1),
        height: Some(1),
        format: Some("mp4".into()),
    }
}

#[test]
fn items_are_probed_when_due() {
    assert!(!stat_stale(&item(), 1000));
    assert!(stat_stale(&item(), 1001));
    assert!(stat_stale(&ItemRow { stat_at: None, ..item() }, 0));

    assert!(!media_due(&item(), &None, 900));
    assert!(media_due(&item(), &None, 901));
    assert!(media_due(&item(), &Some(FileStat { size: 1, modified_at: 950 }), 900));
    assert!(media_due(&ItemRow { width: None, ..item() }, &None, 0));
    assert!(media_due(&ItemRow { probed_at: None, ..item() }, &None, 0));
    let scene = ItemRow { path: "/a.pkg".into(), probed_at: None, ..item() };
    assert!(!media_due(&scene, &None, 0));
}

#[test]
fn a_pass_writes_in_batches() {
    assert!(ProbePass::start(Some(0), 0).is_none());
    let now = 100_000_000;
    let mut p = ProbePass::start(Some(40), now).unwrap();
    assert_eq!(p.stat_cutoff, now - STAT_COOLDOWN_MS);
    assert_eq!(p.media_cutoff, now - PROBE_COOLDOWN_MS);
    let stat = FileStat { size: 1, modified_at: 2 };
    let mut flushes = 0;
    while p.wants_more() {
        let media = MediaMeta { width: Some(1), height: None, format: None };
        if p.take(1, "/a.mp4".into(), Some(stat), Some(media)) {
            assert_eq!(p.pending.len(), COMMIT_BATCH);
            assert!(!p.can_flush(COMMIT_BATCH + 1));
            assert!(p.can_flush(5));
            p.flushed(true, 5);
            flushes += 1;
        }
    }
    assert_eq!((p.handled, flushes, p.pending.len()), (40, 1, 8));
    assert!(p.can_flush(0));
    p.flushed(false, 0);
    assert_eq!(p.stats.stat_done, 32);
    assert_eq!(p.stats.stat_changed, 5);
    assert_eq!(p.stats.media_probed, 32);
    assert_eq!(p.stats.gained_dimensions, 40);
    assert_eq!(p.stats.gained_format, 0);
    assert_eq!(p.stats.write_errors, 8);
}

#[test]
fn nothing_learned_is_not_written() {
    let mut p = ProbePass::start(None, 0).unwrap();
    assert!(!p.take(1, "/a".into(), None, None));
    assert!(p.pending.is_empty());
    assert!(p.wants_more());
    assert_eq!(sql_limit(Some(3)), 12);
    assert_eq!(sql_limit(Some(usize::MAX)), u64::MAX);
    assert_eq!(sql_limit(None), u64::MAX);
}

#[test]
fn queue_modes_have_words() {
    for m in [Mode::Sequential, Mode::Shuffle, Mode::Random] {
        assert_eq!(Mode::from_str(m.as_str()), Some(m));
    }
    assert_eq!(Mode::from_str("Shuffle"), None);
    assert_eq!(asked_mode(None), Mode::Sequential);
    assert_eq!(shuffle_mode(true), Mode::Shuffle);
    assert_eq!(shuffle_mode(false), Mode::Sequential);
}

#[test]
fn steps_follow_the_mode() {
    let mut q = QueueState::new(Mode::Sequential);
    q.shown("w".into(), Some(7));
    assert!(q.is_well_formed());
    assert!(matches!(q.plan_step(1), StepPlan::Neighbor { after: Some(7), forward: true }));
    assert!(matches!(q.plan_step(-1), StepPlan::Neighbor { after: Some(7), forward: false }));
    q.set_mode(Mode::Random);
    assert!(matches!(q.plan_step(1), StepPlan::Any { exclude: Some(7) }));
    q.set_mode(Mode::Shuffle);
    assert!(matches!(q.plan_step(1), StepPlan::LoadRound));
    q.shown("v".into(), None);
    assert_eq!(q.last_db_id, Some(7));
    assert_eq!(q.current.as_deref(), Some("v"));
}

#[test]
fn a_shuffle_round_shows_each_once() {
    let mut q = QueueState::new(Mode::Shuffle);
    match q.round_loaded(vec![1, 2, 3]) {
        Ok(StepPlan::Reshuffle { candidates, avoid, target }) => {
            assert_eq!((candidates, avoid, target), (vec![1, 2, 3], None, 0))
        }
        other => panic!("unexpected {other:?}"),
    }
    assert_eq!(q.build_shuffle_round(vec![1, 2, 3], &vec![0, 0, 1], None, 0), 3);
    assert_eq!(q.shuffle_round, vec![3, 1, 2]);
    assert!(matches!(q.plan_step(1), StepPlan::Show(1)));
    assert!(matches!(q.plan_step(1), StepPlan::Show(2)));
    match q.plan_step(1) {
        StepPlan::Reshuffle { candidates, target, .. } => {
            assert_eq!((candidates, target), (vec![3, 1, 2], 0))
        }
        other => panic!("unexpected {other:?}"),
    }
    assert!(matches!(q.plan_step(-2), StepPlan::Show(3)));
    assert!(matches!(q.plan_step(-1), StepPlan::Reshuffle { target: 2, .. }));
    q.reset_shuffle_round();
    assert!(matches!(q.plan_step(1), StepPlan::LoadRound));
    match q.round_loaded(vec![]) {
        Err(Error::FailedPrecondition(m)) => assert_eq!(m, "queue is empty"),
        other => panic!("unexpected {other:?}"),
    }
    assert!(matches!(step_row(None), Err(Error::FailedPrecondition(_))));
}

#[test]
fn a_new_round_does_not_repeat_the_last_wallpaper() {
    let mut q = QueueState::new(Mode::Shuffle);
    let stay = vec![0, 1, 2];
    assert_eq!(q.build_shuffle_round(vec![1, 2, 3], &stay, Some(1), 0), 2);
    assert_eq!(q.shuffle_round, vec![2, 1, 3]);
    assert_eq!(q.build_shuffle_round(vec![1, 2, 3], &stay, Some(3), 2), 1);
    assert_eq!((q.shuffle_round.clone(), q.shuffle_pos), (vec![3, 2, 1], 2));
    assert_eq!(q.build_shuffle_round(vec![1, 2, 3], &stay, Some(9), 1), 2);
    assert_eq!(q.build_shuffle_round(vec![5], &stay, Some(5), 0), 5);
}

#[test]
fn rows_lead_to_catalog_entries() {
    let mut c = SourceManager::new();
    c.add(entry("w1", "/lib/", "a/b.png"));
    let row = |item_path: &str| QueueRow {
        item_id: 1,
        library_path: "/lib".into(),
        item_path: item_path.into(),
    };
    assert_eq!(bridge_to_entry_id(&c, &row("a/b.png")).unwrap(), "w1");
    match bridge_to_entry_id(&c, &row("c.png")) {
        Err(Error::WallpaperNotFound(m)) => assert_eq!(m, "/lib / c.png"),
        other => panic!("unexpected {other:?}"),
    }
}

#[test]
fn status_and_restoring_follow_the_settings() {
    let mut q = QueueState::new(Mode::Shuffle);
    let mut g = GlobalSettings::default();
    g.last_wallpaper = Some("w1".into());
    g.playlist_mode = "random".into();
    g.rotation_secs = 30;
    assert_eq!(queue_status(&q, &g, None, 0).active_id, None);
    q.active_id = Some(4);
    assert_eq!(queue_status(&q, &g, None, 0).active_id, Some(4));
    let s = queue_status(&q, &g, Some(12), 30);
    assert_eq!((s.mode.as_str(), s.count, s.interval_secs, s.is_smart), ("shuffle", 12, 30, false));
    let plan = restore_plan(&g, true);
    assert_eq!(plan.apply.as_deref(), Some("w1"));
    assert_eq!(plan.mode, Some(Mode::Random));
    assert_eq!(plan.interval, Some(30));
    assert_eq!(plan.playlist, None);
    let playing = GlobalSettings { active_playlist_id: Some(6), ..GlobalSettings::default() };
    assert_eq!(restore_plan(&playing, false).playlist, Some(6));
    assert!(restore_plan(&g, false).apply.is_none());

    match restore_events(&plan, Some(Err("no display".into()))).as_slice() {
        [GlobalEvent::RestoreFailed(m), GlobalEvent::RestoreApplied(None)] => {
            assert_eq!(m, "apply: no display")
        }
        other => panic!("unexpected {other:?}"),
    }
    match restore_events(&plan, Some(Ok(()))).as_slice() {
        [GlobalEvent::RestoreApplied(Some(id))] => assert_eq!(id, "w1"),
        other => panic!("unexpected {other:?}"),
    }
}

#[test]
fn waiting_ends_when_it_is_settled() {
    assert_eq!(display_wait(WaitEvent::Timeout), Some(false));
    assert_eq!(display_wait(WaitEvent::DisplayUpsert), Some(true));
    assert_eq!(display_wait(WaitEvent::DisplaysReplace { count: 0 }), None);
    assert_eq!(display_wait(WaitEvent::DisplaysReplace { count: 1 }), Some(true));
    assert_eq!(display_wait(WaitEvent::Other), None);
    assert_eq!(display_wait(WaitEvent::Lost { count: 0 }), Some(false));

    assert_eq!(rotator_wait(0), None);
    assert_eq!(rotator_wait(30), Some(30));
    let next = rotator_next;
    assert_eq!(next(RotatorEvent::Elapsed { interval_secs: 0 }), RotatorAction::Again);
    assert_eq!(next(RotatorEvent::Elapsed { interval_secs: 5 }), RotatorAction::Step);
    assert_eq!(next(RotatorEvent::ConfigChanged), RotatorAction::Again);
    assert_eq!(next(RotatorEvent::Shutdown { gone: false, stop: true }), RotatorAction::Exit);
    assert_eq!(next(RotatorEvent::Shutdown { gone: true, stop: false }), RotatorAction::Exit);
    assert_eq!(next(RotatorEvent::Shutdown { gone: false, stop: false }), RotatorAction::Again);
}

#[test]
fn libraries_are_listed_by_number_and_by_plugin() {
    let row = |id, plugin_id, path: &str| LibraryRow { id, plugin_id, path: path.into() };
    let libs = vec![row(5, 1, "/b"), row(2, 1, "/a"), row(3, 9, "/c")];
    let plugins = vec![(1, "image".to_string()), (2, "video".to_string())];
    let listed: Vec<(i64, String)> = list_library_snapshots(&libs, &plugins)
        .into_iter()
        .map(|l| (l.id, l.plugin_name))
        .collect();
    assert_eq!(
        listed,
        vec![(2, "image".to_string()), (3, String::new()), (5, "image".to_string())]
    );
    let by_name = libraries_by_plugin_name(&libs, &plugins);
    assert_eq!(by_name.keys(), vec!["image"]);
    assert_eq!(by_name.get("image"), Some(&vec!["/b".to_string(), "/a".to_string()]));
}

#[test]
fn libraries_are_detected_once() {
    let found = vec![
        Detected { plugin_name: "image".into(), paths: vec!["/a".into(), "/b".into()] },
        Detected { plugin_name: "ghost".into(), paths: vec!["/x".into()] },
    ];
    let mut a = AutoDetect::new(found);
    assert!(matches!(a.action(), DetectAction::FindPlugin(n) if n == "image"));
    a.on_plugin(Some(1));
    assert!(matches!(a.action(), DetectAction::FindLibrary { plugin_id: 1, path } if path == "/a"));
    a.on_library(Some(true));
    assert!(matches!(a.action(), DetectAction::FindLibrary { path, .. } if path == "/b"));
    a.on_library(Some(false));
    assert!(matches!(a.action(), DetectAction::AddLibrary { path, .. } if path == "/b"));
    let told = a.on_added(Some((8, "/b".into()))).unwrap();
    assert_eq!((told.id, told.plugin_name.as_str()), (8, "image"));
    assert!(matches!(a.action(), DetectAction::FindPlugin(n) if n == "ghost"));
    a.on_plugin(None);
    assert!(matches!(a.action(), DetectAction::Finish));
    match a.finish() {
        Some(GlobalEvent::LibrariesAdded { paths }) => assert_eq!(paths, vec!["/b"]),
        other => panic!("unexpected {other:?}"),
    }
    assert!(AutoDetect::new(vec![]).finish().is_none());
}

#[test]
fn refresh_tells_how_it_ended() {
    assert!(matches!(
        refresh_events(&Ok(4)).as_slice(),
        [GlobalEvent::ScanCompleted { count: 4 }, GlobalEvent::StatusChanged]
    ));
    match refresh_events(&Err(Error::LibraryNotFound(3))).as_slice() {
        [GlobalEvent::ScanFailed(m), GlobalEvent::StatusChanged] => {
            assert_eq!(*m, Error::LibraryNotFound(3).message())
        }
        other => panic!("unexpected {other:?}"),
    }
}

#[test]
fn user_files_follow_the_environment() {
    let (xdg, home) = (Some("/cfg".to_string()), Some("/home/u".to_string()));
    assert_eq!(default_config_path(&xdg, &home), "/cfg/waywallen/config.toml");
    assert_eq!(default_config_path(&None, &home), "/home/u/.config/waywallen/config.toml");
    assert_eq!(default_config_path(&None, &None), "waywallen.toml");
    assert_eq!(default_db_path(&xdg, &home), "/cfg/waywallen/waywallen.db");
    assert_eq!(default_db_path(&None, &home), "/home/u/.local/share/waywallen/waywallen.db");
    assert_eq!(default_db_path(&None, &None), "waywallen.db");
    assert_eq!(join("/a/", "b"), "/a/b");
    assert_eq!(join("/a", "/b"), "/b");
    assert_eq!(join("", "b"), "b");
}

#[test]
fn resources_are_found_again_below_their_root() {
    let rel = |root: &str, r: &str| relative_under_root(root, r);
    assert_eq!(rel("/w", "/w/a/b.png"), Some("a/b.png".to_string()));
    assert_eq!(rel("/w//", "/w/b.png"), Some("b.png".to_string()));
    assert_eq!(rel("/", "/b.png"), Some("b.png".to_string()));
    assert_eq!(rel("/w", "/wide/b.png"), None);
    assert_eq!(rel("/w", "/w"), None);
    assert_eq!(rel("/w", "/v/b.png"), None);
    assert_eq!(rel("/w/\u{e9}", "/w/\u{e9}/\u{fc}.png"), Some("\u{fc}.png".to_string()));
    let found = rel("/w/", "/w/a/b.png").unwrap();
    assert_eq!(join_path("/w/", &found), "/w/a/b.png");
}
