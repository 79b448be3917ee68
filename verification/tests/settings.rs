//! Settings: defaults, overrides, bringing stored values in line.

use waywallen::layout::{Align, FillMode};
use waywallen::queue::Mode;
use waywallen::registry::{
    check_setting_bounds, coerce_and_validate, FloatText, SettingDef, SettingDefault, SettingType,
};
use waywallen::renderer::ClearColor;
use waywallen::settings::{
    asked_policy, resolve_extent, DisplayPrefs, GlobalSettings, LoadOutcome, RenderSizePolicy,
    Settings, SettingsStore, AS_GIVEN, FIT_SHORTER,
};
use waywallen::strmap::StrMap;

#[test]
fn resolve_extent_modes() {
    assert_eq!(resolve_extent(RenderSizePolicy::Native, 1080), (0, 0, AS_GIVEN));
    assert_eq!(resolve_extent(RenderSizePolicy::OneAxisAuto, 1080), (1080, 1080, FIT_SHORTER));
    assert_eq!(resolve_extent(RenderSizePolicy::OneAxisWidth, 1920), (1920, 0, AS_GIVEN));
    assert_eq!(resolve_extent(RenderSizePolicy::OneAxisHeight, 1080), (0, 1080, AS_GIVEN));
}

fn store_with(plugins: StrMap<StrMap<String>>) -> SettingsStore {
    SettingsStore::from_load(LoadOutcome::Parsed(Settings {
        global: GlobalSettings::default(),
        plugins,
        displays: StrMap::new(),
    }))
}

fn table(pairs: &[(&str, &str)]) -> StrMap<String> {
    let mut m = StrMap::new();
    for (k, v) in pairs {
        m.insert(k.to_string(), v.to_string());
    }
    m
}

fn one_plugin(name: &str, pairs: &[(&str, &str)]) -> StrMap<StrMap<String>> {
    let mut m = StrMap::new();
    m.insert(name.to_string(), table(pairs));
    m
}

fn setting(ty: SettingType, default: SettingDefault) -> SettingDef {
    SettingDef { ty, default, identity: false, min: None, max: None, choices: None, order: 0 }
}

fn video_manifest() -> StrMap<StrMap<SettingDef>> {
    let mut s = StrMap::new();
    s.insert(
        "loop_file".to_string(),
        setting(SettingType::Text, SettingDefault::Text("inf".to_string())),
    );
    s.insert(
        "volume".to_string(),
        SettingDef {
            min: Some(0),
            max: Some(100),
            ..setting(
                SettingType::U32,
                SettingDefault::Integer { value: 100, as_float: "100".to_string() },
            )
        },
    );
    let mut m = StrMap::new();
    m.insert("waywallen-video".to_string(), s);
    m
}

fn value(s: &Settings, plugin: &str, key: &str) -> Option<String> {
    s.plugins.get(plugin).and_then(|t| t.get(key)).cloned()
}

#[test]
fn resolved_layout_falls_back_field_by_field() {
    let mut store = SettingsStore::from_load(LoadOutcome::Missing);
    let r = store.resolved_layout("eDP-1");
    assert_eq!(r.fillmode, FillMode::default());
    assert_eq!(r.align, Align::default());

    let rgba = ClearColor {
        r: 0.1f32.to_bits(),
        g: 0.2f32.to_bits(),
        b: 0.3f32.to_bits(),
        a: 1.0f32.to_bits(),
    };
    let mut s = store.snapshot();
    s.global.layout.align = Align::Bottom;
    s.global.layout.clear_rgba = rgba;
    s.displays.insert(
        "eDP-1".to_string(),
        DisplayPrefs {
            fillmode: Some(FillMode::PreserveAspectCrop),
            align: None,
            clear_rgba: None,
        },
    );
    assert!(store.update(s));

    let r = store.resolved_layout("eDP-1");
    assert_eq!(r.fillmode, FillMode::PreserveAspectCrop);
    assert_eq!(r.align, Align::Bottom);
    assert_eq!(r.clear_rgba, rgba);
}

#[test]
fn reconcile_fills_missing_defaults() {
    let mut store = store_with(StrMap::new());
    let changed = store.reconcile(&video_manifest(), &vec![]);
    assert!(changed, "expected reconcile to fill defaults");
    let snap = store.snapshot();
    assert!(snap.plugins.contains_key("waywallen-video"), "video table");
    assert_eq!(value(&snap, "waywallen-video", "loop_file").as_deref(), Some("inf"));
    assert_eq!(value(&snap, "waywallen-video", "volume").as_deref(), Some("100"));
}

#[test]
fn reconcile_drops_unknown_keys() {
    let mut store = store_with(one_plugin(
        "waywallen-video",
        &[("loop_file", "inf"), ("volume", "50"), ("ghost", "should-disappear")],
    ));
    let changed = store.reconcile(&video_manifest(), &vec![]);
    assert!(changed);
    let snap = store.snapshot();
    assert!(value(&snap, "waywallen-video", "ghost").is_none(), "unknown key must be dropped");
    assert_eq!(value(&snap, "waywallen-video", "volume").as_deref(), Some("50"));
}

#[test]
fn reconcile_resets_out_of_range_to_default() {
    let mut store =
        store_with(one_plugin("waywallen-video", &[("loop_file", "inf"), ("volume", "999")]));
    let changed = store.reconcile(&video_manifest(), &vec![]);
    assert!(changed);
    assert_eq!(value(&store.snapshot(), "waywallen-video", "volume").as_deref(), Some("100"));
}

#[test]
fn reconcile_no_change_returns_false() {
    let mut store =
        store_with(one_plugin("waywallen-video", &[("loop_file", "inf"), ("volume", "100")]));
    let changed = store.reconcile(&video_manifest(), &vec![]);
    assert!(!changed, "all keys present and valid → no change");
}

#[test]
fn reconcile_keeps_unknown_plugin_section() {
    let mut store = store_with(one_plugin("waywallen-wescene", &[("foo", "bar")]));
    store.reconcile(&video_manifest(), &vec![]);
    let snap = store.snapshot();
    assert!(snap.plugins.contains_key("waywallen-wescene"));
    assert_eq!(value(&snap, "waywallen-wescene", "foo").as_deref(), Some("bar"));
}

#[test]
fn reconciling_twice_changes_nothing_more() {
    let mut store = store_with(one_plugin("waywallen-video", &[("ghost", "x")]));
    assert!(store.reconcile(&video_manifest(), &vec![]));
    assert!(!store.reconcile(&video_manifest(), &vec![]));
}

#[test]
fn keys_of_a_plugin_that_declares_nothing_are_dropped() {
    let mut store = store_with(one_plugin("p", &[("k", "v")]));
    let mut manifests = StrMap::new();
    manifests.insert("p".to_string(), StrMap::new());
    assert!(store.reconcile(&manifests, &vec![]));
    assert!(store.dirty);
    assert!(value(&store.snapshot(), "p", "k").is_none());
    assert!(!store.reconcile(&manifests, &vec![]));
    // Nothing stored and nothing declared: nothing to change.
    let mut empty = store_with(StrMap::new());
    assert!(!empty.reconcile(&manifests, &vec![]));
    assert!(!empty.snapshot().plugins.contains_key("p"));
}

#[test]
fn a_reset_float_stays_whatever_is_said_of_it() {
    let mut schema = StrMap::new();
    let default = SettingDefault::Integer { value: 1, as_float: "1".to_string() };
    schema.insert("speed".to_string(), setting(SettingType::F32, default));
    let mut manifests = StrMap::new();
    manifests.insert("p".to_string(), schema);
    let mut store = store_with(one_plugin("p", &[("speed", "fast")]));
    assert!(store.reconcile(&manifests, &vec![]));
    let reset = value(&store.snapshot(), "p", "speed");
    assert!(!store.reconcile(&manifests, &vec![("p".to_string(), "speed".to_string())]));
    assert!(!store.reconcile(&manifests, &vec![]));
    assert_eq!(value(&store.snapshot(), "p", "speed"), reset);
}

#[test]
fn missing_and_broken_files_give_the_defaults() {
    for outcome in [LoadOutcome::Missing, LoadOutcome::Malformed, LoadOutcome::Unreadable] {
        let store = SettingsStore::from_load(outcome);
        let g = store.global();
        assert_eq!(g.target_extent, 1080);
        assert_eq!(g.render_size_policy, RenderSizePolicy::OneAxisAuto);
        assert_eq!(g.rotation_secs, 0);
        assert!(store.snapshot().plugins.is_empty());
    }
}

#[test]
fn only_changed_settings_are_written() {
    let mut store = store_with(StrMap::new());
    let same = store.snapshot();
    assert!(!store.update(same));
    assert!(store.flush_begin().is_none());
    let mut s = store.snapshot();
    s.global.target_extent = 1440;
    assert!(store.update(s));
    let written = store.flush_begin().expect("something to write");
    assert_eq!(written.global.target_extent, 1440);
    store.flush_end(true);
    assert!(store.flush_begin().is_none());
}

#[test]
fn missing_file_is_written_at_once() {
    let mut store = SettingsStore::from_load(LoadOutcome::Missing);
    assert!(store.flush_begin().is_some());
    store.flush_end(true);
    assert!(store.flush_begin().is_none());
    let mut broken = SettingsStore::from_load(LoadOutcome::Malformed);
    assert!(broken.flush_begin().is_none());
}

#[test]
fn failed_write_is_tried_again() {
    let mut store = SettingsStore::from_load(LoadOutcome::Missing);
    let mut s = store.snapshot();
    s.global.rotation_secs = 30;
    store.update(s);
    assert!(store.flush_begin().is_some());
    store.flush_end(false);
    assert!(store.flush_begin().is_some());
}

#[test]
fn preferences_move_to_the_stable_identifier_once() {
    let mut store = SettingsStore::from_load(LoadOutcome::Missing);
    let mut s = store.snapshot();
    let prefs = DisplayPrefs { fillmode: Some(FillMode::Tiled), align: None, clear_rgba: None };
    s.displays.insert("DP-1".to_string(), prefs);
    store.update(s);
    store.migrate_display("DP-1", &Some("panel-7".to_string()));
    assert_eq!(store.display_prefs("panel-7"), Some(prefs));
    assert_eq!(store.display_prefs("DP-1"), Some(prefs));
}

#[test]
fn bounds_and_choices_of_settings() {
    let mut d = setting(
        SettingType::U32,
        SettingDefault::Integer { value: 5, as_float: "5".to_string() },
    );
    d.min = Some(1);
    d.max = Some(9);
    assert!(check_setting_bounds("9", &d, true));
    assert!(!check_setting_bounds("10", &d, true));
    assert!(!check_setting_bounds("x", &d, true));
    assert_eq!(d.default_text(), "5");
    let b = setting(SettingType::Bool, SettingDefault::Boolean(true));
    assert!(check_setting_bounds("false", &b, true));
    assert!(!check_setting_bounds("no", &b, true));
    assert_eq!(b.default_text(), "true");
    let mut c = setting(SettingType::Text, SettingDefault::Text("a".to_string()));
    c.choices = Some(vec!["a".to_string(), "b".to_string()]);
    assert!(check_setting_bounds("b", &c, true));
    assert!(!check_setting_bounds("c", &c, true));
    let f = setting(
        SettingType::F32,
        SettingDefault::Float { plain: "0.5".to_string(), manifest: "0.5".to_string() },
    );
    assert!(!check_setting_bounds("0.5", &f, false));
}

#[test]
fn unknown_policy_and_mode_fall_back() {
    assert_eq!(asked_policy(None), RenderSizePolicy::OneAxisAuto);
    assert_eq!(asked_policy(Some(RenderSizePolicy::Native)), RenderSizePolicy::Native);
    assert_eq!(waywallen::queue::asked_mode(None), Mode::Sequential);
    assert_eq!(waywallen::queue::asked_mode(Some(Mode::Random)), Mode::Random);
}

#[test]
fn new_values_are_kept_in_one_form() {
    let none = || SettingDefault::Text(String::new());
    let volume =
        SettingDef { min: Some(1), max: Some(100), ..setting(SettingType::U32, none()) };
    let keep = |v: &str| coerce_and_validate("volume", v, &volume, &None);
    assert_eq!(keep("007"), Ok("7".to_string()));
    assert_eq!(keep("+100"), Ok("100".to_string()));
    assert_eq!(keep("0101"), Err("volume: value '101' out of range".to_string()));
    assert_eq!(keep("0"), Err("volume: value '0' out of range".to_string()));
    assert_eq!(keep("loud"), Err("volume: value 'loud' has the wrong type".to_string()));

    let muted = setting(SettingType::Bool, none());
    assert_eq!(coerce_and_validate("muted", "true", &muted, &None), Ok("true".to_string()));
    assert_eq!(
        coerce_and_validate("muted", "yes", &muted, &None),
        Err("muted: value 'yes' has the wrong type".to_string())
    );

    let speed = setting(SettingType::F32, none());
    let float = |in_bounds: bool| Some(FloatText { kept: "1.5".to_string(), in_bounds });
    assert_eq!(coerce_and_validate("speed", "1.50", &speed, &float(true)), Ok("1.5".to_string()));
    assert_eq!(
        coerce_and_validate("speed", "1.50", &speed, &float(false)),
        Err("speed: value '1.5' out of range".to_string())
    );
    assert_eq!(
        coerce_and_validate("speed", "fast", &speed, &None),
        Err("speed: value 'fast' has the wrong type".to_string())
    );

    let mode = SettingDef {
        choices: Some(vec!["a".to_string(), "b".to_string()]),
        ..setting(SettingType::Text, none())
    };
    assert_eq!(coerce_and_validate("mode", "b", &mode, &None), Ok("b".to_string()));
    assert_eq!(
        coerce_and_validate("mode", "c", &mode, &None),
        Err("mode: value 'c' out of range".to_string())
    );
}
