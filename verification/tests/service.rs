//! Errors, the bus, the connection self-test.

use waywallen::bus::{
    after_name_request, current_or_empty, playlist_tuples, status_tuple, Daemon1, NameReply,
    Startup, TaskRecord, TaskState,
};
use waywallen::dispatch::PlaylistRow;
use waywallen::error::{
    build_response, ok_response, with_context, BusError, Error, ErrorCode, Response, Status,
};
use waywallen::queue::QueueStatus;
use waywallen::selftest::{
    all_bound, child_status, make_bind_event, pick_modifier, tally, test_frame, test_pool,
    ChildStatus, ModifierEntry, PlaneLayout, FOURCC_AB24, FRAMES, HEIGHT, WIDTH,
};
use waywallen::snapshot::{DisplayLinkSnapshot, DisplaySnapshot};

fn text(s: &str) -> String {
    s.to_string()
}

#[test]
fn every_error_has_its_code() {
    let cases = vec![
        (Error::Internal(text("x")), ErrorCode::Internal, Status::Internal),
        (Error::Db(text("x")), ErrorCode::Db, Status::Internal),
        (Error::Io(text("x")), ErrorCode::Internal, Status::Internal),
        (Error::Decode(text("x")), ErrorCode::Decode, Status::InvalidArgument),
        (Error::Json(text("x")), ErrorCode::Internal, Status::Internal),
        (Error::Join(text("x")), ErrorCode::Internal, Status::Internal),
        (Error::Lua(text("x")), ErrorCode::Internal, Status::Internal),
        (
            Error::UnexpectedPayload(text("x")),
            ErrorCode::UnexpectedPayload,
            Status::InvalidArgument,
        ),
        (Error::InvalidArgument(text("x")), ErrorCode::InvalidArgument, Status::InvalidArgument),
        (
            Error::FailedPrecondition(text("x")),
            ErrorCode::FailedPrecondition,
            Status::FailedPrecondition,
        ),
        (Error::NoDisplayRegistered, ErrorCode::NoDisplayRegistered, Status::FailedPrecondition),
        (Error::WallpaperNotFound(text("x")), ErrorCode::WallpaperNotFound, Status::NotFound),
        (Error::RendererNotFound(text("x")), ErrorCode::RendererNotFound, Status::NotFound),
        (
            Error::NoRendererForType(text("x")),
            ErrorCode::NoRendererForType,
            Status::InvalidArgument,
        ),
        (
            Error::RendererTypeMismatch { renderer: text("r"), ty: text("t") },
            ErrorCode::RendererTypeMismatch,
            Status::InvalidArgument,
        ),
        (Error::RendererSpawnFailed(text("x")), ErrorCode::RendererSpawnFailed, Status::Internal),
        (
            Error::RendererControlFailed(text("x")),
            ErrorCode::RendererControlFailed,
            Status::Internal,
        ),
        (
            Error::SourcePluginNotFound(text("x")),
            ErrorCode::SourcePluginNotFound,
            Status::NotFound,
        ),
        (
            Error::SourceExtrasFailed { plugin: text("p"), message: text("m") },
            ErrorCode::SourceExtrasFailed,
            Status::Internal,
        ),
        (
            Error::SettingsValidationFailed(text("x")),
            ErrorCode::SettingsValidationFailed,
            Status::InvalidArgument,
        ),
        (Error::SettingsApplyFailed(text("x")), ErrorCode::SettingsApplyFailed, Status::Internal),
        (Error::LibraryNotFound(1), ErrorCode::LibraryNotFound, Status::NotFound),
        (Error::PlaylistNotFound(text("x")), ErrorCode::PlaylistNotFound, Status::NotFound),
        (Error::PlaylistInvalid(text("x")), ErrorCode::PlaylistInvalid, Status::InvalidArgument),
    ];
    for (e, code, status) in cases {
        assert_eq!((e.error_code(), e.status()), (code, status), "{e:?}");
    }
}

#[test]
fn errors_say_what_went_wrong() {
    let says = [
        (Error::Db(text("locked")), "db: locked"),
        (Error::Io(text("gone")), "io: gone"),
        (Error::Join(text("panic")), "task join: panic"),
        (Error::NoDisplayRegistered, "no display registered"),
        (Error::WallpaperNotFound(text("w")), "wallpaper 'w' not found"),
        (Error::RendererNotFound(text("r")), "unknown renderer 'r'"),
        (
            Error::RendererTypeMismatch { renderer: text("r"), ty: text("t") },
            "renderer 'r' does not support wallpaper type 't'",
        ),
        (
            Error::SourceExtrasFailed { plugin: text("p"), message: text("m") },
            "source_plugin 'p'.extras() failed: m",
        ),
        (Error::LibraryNotFound(-12), "library -12 not found"),
        (Error::PlaylistNotFound(text("3")), "playlist not found: 3"),
    ];
    for (e, s) in says {
        assert_eq!(e.message(), s);
    }
}

#[test]
fn context_goes_in_front_and_keeps_the_class() {
    let e = Error::LibraryNotFound(4).context(text("inner")).context(text("outer"));
    assert_eq!(e.message(), "outer: inner: library 4 not found");
    assert_eq!((e.error_code(), e.status()), (ErrorCode::LibraryNotFound, Status::NotFound));
    assert!(matches!(e.to_bus(), BusError::FileNotFound(m) if m == e.message()));
    let kept: Result<u32, Error> = with_context(Ok(3), text("unused"));
    assert_eq!(kept.ok(), Some(3));
    let r: Result<u32, Error> = with_context(Err(Error::NoDisplayRegistered), text("apply"));
    assert_eq!(r.unwrap_err().message(), "apply: no display registered");
}

#[test]
fn bus_errors_have_three_kinds() {
    assert!(matches!(Error::PlaylistNotFound(text("x")).to_bus(), BusError::FileNotFound(_)));
    assert!(matches!(Error::NoRendererForType(text("x")).to_bus(), BusError::InvalidArgs(_)));
    assert!(matches!(Error::Db(text("x")).to_bus(), BusError::Failed(_)));
}

#[test]
fn replies_carry_the_payload_or_the_error() {
    let ok: Response<u32> = ok_response(7, 9);
    assert_eq!((ok.request_id, ok.status, ok.error_code), (7, Status::Success, ErrorCode::Success));
    assert_eq!((ok.message.as_str(), ok.payload), ("", Some(9)));
    let bad: Response<u32> = build_response(8, Err(Error::WallpaperNotFound(text("w"))));
    assert_eq!((bad.request_id, bad.status), (8, Status::NotFound));
    assert_eq!(bad.message, "wallpaper 'w' not found");
    assert_eq!(bad.payload, None);
    let good: Response<u32> = build_response(8, Ok(1));
    assert_eq!(good.payload, Some(1));
}

fn task(id: u64, state: TaskState) -> TaskRecord {
    TaskRecord { id, kind: text("scan"), name: text("n"), started_at_ms: 5, state }
}

#[test]
fn only_running_tasks_are_cancelled() {
    let mut d = Daemon1 {
        display_socket_path: text("/run/x.sock"),
        tasks: vec![
            task(1, TaskState::Running),
            task(2, TaskState::Completed),
            task(3, TaskState::Failed(text("boom"))),
        ],
        cancelled: vec![],
        quitting: false,
    };
    assert!(d.cancel_task(1));
    assert!(!d.cancel_task(2));
    assert!(!d.cancel_task(9));
    assert_eq!(d.cancelled, vec![1]);
    let states: Vec<String> = d.list_tasks().into_iter().map(|t| t.4).collect();
    assert_eq!(states, vec!["running", "completed", "failed: boom"]);
    d.quit();
    assert!(d.quitting);
}

#[test]
fn tasks_end_as_they_went() {
    let mut d = Daemon1 {
        display_socket_path: text("/run/x.sock"),
        tasks: (1..=4).map(|id| task(id, TaskState::Running)).collect(),
        cancelled: vec![],
        quitting: false,
    };
    assert!(d.cancel_task(3));
    assert!(d.is_cancelled(3));
    assert!(!d.is_cancelled(1));
    d.task_ended(1, None);
    d.task_ended(2, Some(text("boom")));
    d.task_ended(3, Some(text("late")));
    let states = |d: &Daemon1| d.list_tasks().into_iter().map(|t| t.4).collect::<Vec<String>>();
    assert_eq!(states(&d), vec!["completed", "failed: boom", "cancelled", "running"]);
    d.task_ended(1, Some(text("again")));
    d.task_ended(9, None);
    assert_eq!(states(&d), vec!["completed", "failed: boom", "cancelled", "running"]);
    assert!(!d.cancel_task(3));
}

#[test]
fn playlists_and_status_as_callers_see_them() {
    let rows = vec![PlaylistRow {
        id: 1,
        name: text("n"),
        source_kind: text("curated"),
        mode: text("shuffle"),
        interval_secs: -4,
        item_count: 3,
    }];
    assert_eq!(
        playlist_tuples(&rows),
        vec![(1, text("n"), text("curated"), text("shuffle"), 0, 3)]
    );
    let s = QueueStatus {
        active_id: None,
        mode: text("random"),
        interval_secs: 30,
        current: None,
        position: None,
        count: 2,
        is_smart: true,
    };
    assert_eq!(status_tuple(s), (0, text("random"), 30, String::new(), 0, 2, true));
    assert_eq!(current_or_empty(Some(text("w"))), "w");
}

#[test]
fn only_one_daemon_serves() {
    assert!(matches!(after_name_request(NameReply::Owned, None), Startup::Serve));
    let ui = || Some(text("/usr/bin/ui"));
    assert!(matches!(after_name_request(NameReply::Taken, ui()), Startup::Exec(p) if p == "/usr/bin/ui"));
    match after_name_request(NameReply::Taken, None) {
        Startup::Exit { code, message } => {
            assert_eq!((code, message.as_str()), (0, "waywallen: already running, no UI to launch"))
        }
        other => panic!("unexpected {other:?}"),
    }
    match after_name_request(NameReply::NoBus(text("e")), ui()) {
        Startup::Exit { code, message } => assert_eq!(
            (code, message.as_str()),
            (1, "waywallen: dbus session bus unavailable: e")
        ),
        other => panic!("unexpected {other:?}"),
    }
    assert!(matches!(
        after_name_request(NameReply::Failed(text("e")), None),
        Startup::Exit { code: 1, .. }
    ));
}

fn plane(fd: u64) -> PlaneLayout {
    PlaneLayout { stride: 1024, offset: 1 << 40, size: 262_144, fd }
}

#[test]
fn self_test_offers_one_pool() {
    let entries = vec![
        ModifierEntry { modifier: 0, usable: true },
        ModifierEntry { modifier: 5, usable: false },
        ModifierEntry { modifier: 6, usable: true },
    ];
    assert_eq!(pick_modifier(&entries, false), 6);
    assert_eq!(pick_modifier(&entries, true), 0);
    assert_eq!(pick_modifier(&vec![], false), 0);
    let pool = test_pool(6, plane(3), PlaneLayout { stride: 1 << 40, ..plane(4) });
    assert_eq!((pool.width, pool.height, pool.fourcc), (WIDTH, HEIGHT, FOURCC_AB24));
    assert_eq!(pool.stride, vec![1024, u32::MAX]);
    assert_eq!(pool.plane_offset, vec![0, 0]);
    assert_eq!(pool.fds, vec![3, 4]);
    let m = make_bind_event(&pool);
    assert_eq!((m.generation, m.count, m.modifier), (1, 2, 6));
    assert_eq!(m.size, vec![262_144, 262_144]);
    assert_eq!(test_frame(5), (1, 5, 6));
}

#[test]
fn self_test_adds_up_the_reports() {
    let report = |frames, ok| ChildStatus {
        slot: 0,
        frames,
        ok,
        mismatch: frames - ok,
        clean_exit: true,
        fatal: None,
    };
    let all = tally(&vec![report(60, 60), report(60, 60)]);
    assert_eq!((all.frames, all.ok, all.refcount_leaks), (FRAMES, 60, 0));
    let some = tally(&vec![report(60, 50), child_status(None, 1)]);
    assert_eq!((some.ok, some.refcount_leaks), (25, 60));
    let silent = child_status(None, 1);
    assert_eq!(silent.fatal.as_deref(), Some("child emitted no status"));
    assert_eq!(child_status(Some(report(1, 1)), 0).frames, 1);
}

#[test]
fn self_test_waits_for_all_displays() {
    let display = |linked: bool| DisplaySnapshot {
        id: 1,
        name: text("d"),
        width: 1,
        height: 1,
        refresh_mhz: 1,
        links: if linked {
            vec![DisplayLinkSnapshot { renderer_id: text("r"), z_order: 0 }]
        } else {
            vec![]
        },
        drm_render_major: 0,
        drm_render_minor: 0,
    };
    assert!(all_bound(&vec![display(true), display(true)], 2));
    assert!(!all_bound(&vec![display(true)], 2));
    assert!(!all_bound(&vec![display(true), display(false)], 2));
}
