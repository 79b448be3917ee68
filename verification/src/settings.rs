//! Runtime settings: global defaults, per-plugin tables and per-display
//! layout overrides, with the bookkeeping for writing them to disk.

use crate::filter_state::{self, same_filter, FilterStateView, WallpaperFilterState};
use crate::layout::{self, same_color, Align, FillMode, ResolvedLayout};
use crate::registry::{check_setting_bounds, SettingDef};
use crate::renderer::{self, ClearColor};
use crate::strmap::{self, StrMap};
use crate::text::{self, copy_opt, str_eq};
use vstd::prelude::*;

verus! {

broadcast use {strmap::kv_text_of_insert, strmap::kv_text_of_remove};

/// Layout of displays without an override.
#[derive(Debug, Clone, Copy, PartialEq, Eq, Structural)]
pub struct LayoutDefaults {
    pub fillmode: FillMode,
    pub align: Align,
    pub clear_rgba: ClearColor,
}

impl Default for LayoutDefaults {
    fn default() -> (r: Self)
        ensures
            r == (LayoutDefaults {
                fillmode: FillMode::Stretched,
                align: Align::Center,
                clear_rgba: renderer::opaque_black(),
            }),
    {
        LayoutDefaults {
            fillmode: FillMode::default(),
            align: Align::default(),
            clear_rgba: ClearColor::default(),
        }
    }
}

/// Layout override of one display; an absent field inherits the default.
#[derive(Debug, Clone, Copy, PartialEq, Eq, Structural)]
pub struct DisplayPrefs {
    pub fillmode: Option<FillMode>,
    pub align: Option<Align>,
    pub clear_rgba: Option<ClearColor>,
}

impl DisplayPrefs {
    pub open spec fn says_nothing(self) -> bool {
        self.fillmode is None && self.align is None && self.clear_rgba is None
    }

    pub fn is_empty(&self) -> (r: bool)
        ensures
            r == self.says_nothing(),
    {
        self.fillmode.is_none() && self.align.is_none() && self.clear_rgba.is_none()
    }
}

impl Default for DisplayPrefs {
    fn default() -> (r: Self)
        ensures
            r == (DisplayPrefs { fillmode: None, align: None, clear_rgba: None }),
    {
        DisplayPrefs { fillmode: None, align: None, clear_rgba: None }
    }
}

/// How the extent handed to a renderer is shaped.
#[derive(Debug, Clone, Copy, PartialEq, Eq, Structural)]
pub enum RenderSizePolicy {
    /// The content's own size.
    Native,
    /// The shorter axis gets the target.
    OneAxisAuto,
    /// The width gets the target.
    OneAxisWidth,
    /// The height gets the target.
    OneAxisHeight,
}

impl Default for RenderSizePolicy {
    fn default() -> (r: Self)
        ensures
            r == RenderSizePolicy::OneAxisAuto,
    {
        RenderSizePolicy::OneAxisAuto
    }
}

/// The extent is taken as it is.
pub const AS_GIVEN: u32 = 0;

/// The extent bounds the shorter axis.
pub const FIT_SHORTER: u32 = 1;

/// The policy that a client asks for; one it does not name, or that is not
/// known, is the one that looks at the wallpaper.
pub fn asked_policy(p: Option<RenderSizePolicy>) -> (r: RenderSizePolicy)
    ensures
        r == match p {
            Some(x) => x,
            None => RenderSizePolicy::OneAxisAuto,
        },
{
    match p {
        Some(x) => x,
        None => RenderSizePolicy::OneAxisAuto,
    }
}

pub open spec fn extent_of(policy: RenderSizePolicy, target: u32) -> (u32, u32, u32) {
    match policy {
        RenderSizePolicy::Native => (0, 0, AS_GIVEN),
        RenderSizePolicy::OneAxisAuto => (target, target, FIT_SHORTER),
        RenderSizePolicy::OneAxisWidth => (target, 0, AS_GIVEN),
        RenderSizePolicy::OneAxisHeight => (0, target, AS_GIVEN),
    }
}

/// Width, height and extent mode of a render-size policy.
pub fn resolve_extent(policy: RenderSizePolicy, target: u32) -> (r: (u32, u32, u32))
    ensures
        r == extent_of(policy, target),
{
    match policy {
        RenderSizePolicy::Native => (0, 0, AS_GIVEN),
        RenderSizePolicy::OneAxisAuto => (target, target, FIT_SHORTER),
        RenderSizePolicy::OneAxisWidth => (target, 0, AS_GIVEN),
        RenderSizePolicy::OneAxisHeight => (0, target, AS_GIVEN),
    }
}

/// Daemon-wide settings.
#[derive(Debug)]
pub struct GlobalSettings {
    pub target_extent: u32,
    pub render_size_policy: RenderSizePolicy,
    pub last_wallpaper: Option<String>,
    pub active_playlist_id: Option<i64>,
    pub playlist_mode: String,
    /// Seconds between automatic changes, zero for none.
    pub rotation_secs: u32,
    pub wallpaper_filter: WallpaperFilterState,
    pub layout: LayoutDefaults,
}

pub struct GlobalView {
    pub target_extent: u32,
    pub render_size_policy: RenderSizePolicy,
    pub last_wallpaper: Option<Seq<char>>,
    pub active_playlist_id: Option<i64>,
    pub playlist_mode: Seq<char>,
    pub rotation_secs: u32,
    pub wallpaper_filter: FilterStateView,
    pub layout: LayoutDefaults,
}

impl View for GlobalSettings {
    type V = GlobalView;

    open spec fn view(&self) -> GlobalView {
        GlobalView {
            target_extent: self.target_extent,
            render_size_policy: self.render_size_policy,
            last_wallpaper: text::opt_text(self.last_wallpaper),
            active_playlist_id: self.active_playlist_id,
            playlist_mode: self.playlist_mode@,
            rotation_secs: self.rotation_secs,
            wallpaper_filter: self.wallpaper_filter@,
            layout: self.layout,
        }
    }
}

pub open spec fn default_global() -> GlobalView {
    GlobalView {
        target_extent: 1080,
        render_size_policy: RenderSizePolicy::OneAxisAuto,
        last_wallpaper: None,
        active_playlist_id: None,
        playlist_mode: "sequential"@,
        rotation_secs: 0,
        wallpaper_filter: filter_state::no_filter(),
        layout: LayoutDefaults {
            fillmode: FillMode::Stretched,
            align: Align::Center,
            clear_rgba: renderer::opaque_black(),
        },
    }
}

impl Default for GlobalSettings {
    fn default() -> (r: Self)
        ensures
            r@ == default_global(),
    {
        GlobalSettings {
            target_extent: 1080,
            render_size_policy: RenderSizePolicy::default(),
            last_wallpaper: None,
            active_playlist_id: None,
            playlist_mode: "sequential".to_owned(),
            rotation_secs: 0,
            wallpaper_filter: WallpaperFilterState::default(),
            layout: LayoutDefaults::default(),
        }
    }
}

impl Clone for GlobalSettings {
    fn clone(&self) -> (r: Self)
        ensures
            r@ == self@,
    {
        GlobalSettings {
            target_extent: self.target_extent,
            render_size_policy: self.render_size_policy,
            last_wallpaper: copy_opt(&self.last_wallpaper),
            active_playlist_id: self.active_playlist_id,
            playlist_mode: self.playlist_mode.clone(),
            rotation_secs: self.rotation_secs,
            wallpaper_filter: self.wallpaper_filter.clone(),
            layout: self.layout,
        }
    }
}

/// Tables by plugin name, as text.
pub type Tables = Map<Seq<char>, Map<Seq<char>, Seq<char>>>;

pub open spec fn tables_text(m: Map<Seq<char>, StrMap<String>>) -> Tables {
    Map::new(|k: Seq<char>| m.contains_key(k), |k: Seq<char>| strmap::kv_text(m[k]@))
}

/// All settings.
#[derive(Debug)]
pub struct Settings {
    pub global: GlobalSettings,
    pub plugins: StrMap<StrMap<String>>,
    pub displays: StrMap<DisplayPrefs>,
}

#[verifier::ext_equal]
pub struct SettingsView {
    pub global: GlobalView,
    pub plugins: Tables,
    pub displays: Map<Seq<char>, DisplayPrefs>,
}

impl View for Settings {
    type V = SettingsView;

    open spec fn view(&self) -> SettingsView {
        SettingsView {
            global: self.global@,
            plugins: tables_text(self.plugins@),
            displays: self.displays@,
        }
    }
}

pub open spec fn default_settings() -> SettingsView {
    SettingsView { global: default_global(), plugins: Map::empty(), displays: Map::empty() }
}

impl Default for Settings {
    fn default() -> (r: Self)
        ensures
            r@ == default_settings(),
    {
        let r = Settings {
            global: GlobalSettings::default(),
            plugins: StrMap::new(),
            displays: StrMap::new(),
        };
        assert(r@.plugins =~= Map::empty());
        r
    }
}

/// Copies a map of tables.
pub fn copy_tables(m: &StrMap<StrMap<String>>) -> (r: StrMap<StrMap<String>>)
    ensures
        tables_text(r@) == tables_text(m@),
{
    let keys = m.keys();
    let mut r: StrMap<StrMap<String>> = StrMap::new();
    let mut i: usize = 0;
    while i < keys.len()
        invariant
            i <= keys@.len(),
            forall|j: int| 0 <= j < keys@.len() ==> m@.contains_key(#[trigger] keys@[j]@),
            forall|k: Seq<char>| #[trigger]
                r@.contains_key(k) ==> m@.contains_key(k) && strmap::kv_text(r@[k]@)
                    == strmap::kv_text(m@[k]@),
            forall|j: int| 0 <= j < i ==> r@.contains_key(#[trigger] keys@[j]@),
        decreases keys.len() - i,
    {
        if let Some(t) = m.get(keys[i].as_str()) {
            r.insert(keys[i].clone(), t.copy());
        }
        i = i + 1;
    }
    assert(tables_text(r@) =~= tables_text(m@));
    r
}

fn copy_prefs(m: &StrMap<DisplayPrefs>) -> (r: StrMap<DisplayPrefs>)
    ensures
        r@ == m@,
{
    let keys = m.keys();
    let mut r: StrMap<DisplayPrefs> = StrMap::new();
    let mut i: usize = 0;
    while i < keys.len()
        invariant
            i <= keys@.len(),
            forall|j: int| 0 <= j < keys@.len() ==> m@.contains_key(#[trigger] keys@[j]@),
            forall|k: Seq<char>| #[trigger]
                r@.contains_key(k) ==> m@.contains_key(k) && r@[k] == m@[k],
            forall|j: int| 0 <= j < i ==> r@.contains_key(#[trigger] keys@[j]@),
        decreases keys.len() - i,
    {
        if let Some(p) = m.get(keys[i].as_str()) {
            r.insert(keys[i].clone(), *p);
        }
        i = i + 1;
    }
    assert(r@ =~= m@);
    r
}

impl Clone for Settings {
    fn clone(&self) -> (r: Self)
        ensures
            r@ == self@,
    {
        Settings {
            global: self.global.clone(),
            plugins: copy_tables(&self.plugins),
            displays: copy_prefs(&self.displays),
        }
    }
}

// ---------------------------------------------------------------------------
// Comparing
// ---------------------------------------------------------------------------

pub open spec fn layout_eq(a: LayoutDefaults, b: LayoutDefaults) -> bool {
    a.fillmode == b.fillmode && a.align == b.align && layout::color_eq(a.clear_rgba, b.clear_rgba)
}

pub open spec fn prefs_eq(a: DisplayPrefs, b: DisplayPrefs) -> bool {
    &&& a.fillmode == b.fillmode
    &&& a.align == b.align
    &&& match (a.clear_rgba, b.clear_rgba) {
        (Some(x), Some(y)) => layout::color_eq(x, y),
        (None, None) => true,
        _ => false,
    }
}

pub open spec fn global_eq(a: GlobalView, b: GlobalView) -> bool {
    (GlobalView { layout: b.layout, ..a }) == b && layout_eq(a.layout, b.layout)
}

/// Two settings are the same; colours compare as the numbers they are.
pub open spec fn settings_eq(a: SettingsView, b: SettingsView) -> bool {
    &&& global_eq(a.global, b.global)
    &&& a.plugins == b.plugins
    &&& a.displays.dom() == b.displays.dom()
    &&& forall|k: Seq<char>| #[trigger]
        a.displays.contains_key(k) ==> prefs_eq(a.displays[k], b.displays[k])
}

pub fn same_layout(a: &LayoutDefaults, b: &LayoutDefaults) -> (r: bool)
    ensures
        r == layout_eq(*a, *b),
{
    a.fillmode == b.fillmode && a.align == b.align && same_color(&a.clear_rgba, &b.clear_rgba)
}

fn same_prefs(a: &DisplayPrefs, b: &DisplayPrefs) -> (r: bool)
    ensures
        r == prefs_eq(*a, *b),
{
    let colors = match (&a.clear_rgba, &b.clear_rgba) {
        (Some(x), Some(y)) => same_color(x, y),
        (None, None) => true,
        _ => false,
    };
    a.fillmode == b.fillmode && a.align == b.align && colors
}

fn same_opt_text(a: &Option<String>, b: &Option<String>) -> (r: bool)
    ensures
        r == (text::opt_text(*a) == text::opt_text(*b)),
{
    match (a, b) {
        (Some(x), Some(y)) => *x == *y,
        (None, None) => true,
        _ => false,
    }
}

fn same_global(a: &GlobalSettings, b: &GlobalSettings) -> (r: bool)
    ensures
        r == global_eq(a@, b@),
{
    a.target_extent == b.target_extent && a.render_size_policy == b.render_size_policy
        && same_opt_text(&a.last_wallpaper, &b.last_wallpaper) && a.active_playlist_id
        == b.active_playlist_id && a.playlist_mode == b.playlist_mode && a.rotation_secs
        == b.rotation_secs && same_filter(&a.wallpaper_filter, &b.wallpaper_filter) && same_layout(
        &a.layout,
        &b.layout,
    )
}

/// Whether two maps of tables read the same.
pub fn same_tables(a: &StrMap<StrMap<String>>, b: &StrMap<StrMap<String>>) -> (r: bool)
    ensures
        r == (tables_text(a@) == tables_text(b@)),
{
    let ghost ta = tables_text(a@);
    let ghost tb = tables_text(b@);
    let na: usize = a.len();
    let nb: usize = b.len();
    assert(ta.dom() =~= a@.dom());
    assert(tb.dom() =~= b@.dom());
    if na != nb {
        return false;
    }
    let keys = a.keys();
    let mut i: usize = 0;
    while i < keys.len()
        invariant
            i <= keys@.len(),
            ta == tables_text(a@),
            tb == tables_text(b@),
            forall|j: int| 0 <= j < keys@.len() ==> a@.contains_key(#[trigger] keys@[j]@),
            forall|j: int|
                0 <= j < i ==> tb.contains_key(#[trigger] keys@[j]@) && ta[keys@[j]@]
                    == tb[keys@[j]@],
        decreases keys.len() - i,
    {
        assert(ta.contains_key(keys@[i as int]@));
        match (a.get(keys[i].as_str()), b.get(keys[i].as_str())) {
            (Some(x), Some(y)) => {
                assert(tb.contains_key(keys@[i as int]@));
                assert(ta[keys@[i as int]@] == strmap::kv_text(x@));
                assert(tb[keys@[i as int]@] == strmap::kv_text(y@));
                if !x.same_as(y) {
                    return false;
                }
            },
            _ => {
                return false;
            },
        }
        i = i + 1;
    }
    proof {
        assert forall|k: Seq<char>| #[trigger] ta.contains_key(k) implies tb.contains_key(k)
            && ta[k] == tb[k] by {
            assert(a@.contains_key(k));
            let j = choose|j: int| 0 <= j < keys@.len() && #[trigger] keys@[j]@ == k;
            assert(keys@[j]@ == k);
        }
        assert(ta.dom().subset_of(tb.dom()));
        vstd::set_lib::lemma_subset_equality(ta.dom(), tb.dom());
        assert(ta =~= tb);
    }
    true
}

fn same_prefs_map(a: &StrMap<DisplayPrefs>, b: &StrMap<DisplayPrefs>) -> (r: bool)
    ensures
        r == (a@.dom() == b@.dom() && forall|k: Seq<char>| #[trigger]
            a@.contains_key(k) ==> prefs_eq(a@[k], b@[k])),
{
    let na: usize = a.len();
    let nb: usize = b.len();
    if na != nb {
        return false;
    }
    let keys = a.keys();
    let mut i: usize = 0;
    while i < keys.len()
        invariant
            i <= keys@.len(),
            forall|j: int| 0 <= j < keys@.len() ==> a@.contains_key(#[trigger] keys@[j]@),
            forall|j: int|
                0 <= j < i ==> b@.contains_key(#[trigger] keys@[j]@) && prefs_eq(
                    a@[keys@[j]@],
                    b@[keys@[j]@],
                ),
        decreases keys.len() - i,
    {
        let ghost k = keys@[i as int]@;
        assert(a@.contains_key(k));
        match (a.get(keys[i].as_str()), b.get(keys[i].as_str())) {
            (Some(x), Some(y)) => {
                if !same_prefs(x, y) {
                    return false;
                }
            },
            _ => {
                assert(!b@.dom().contains(k));
                assert(a@.dom().contains(k));
                return false;
            },
        }
        i = i + 1;
    }
    proof {
        assert forall|k: Seq<char>| #[trigger] a@.contains_key(k) implies b@.contains_key(k)
            && prefs_eq(a@[k], b@[k]) by {
            let j = choose|j: int| 0 <= j < keys@.len() && #[trigger] keys@[j]@ == k;
            assert(keys@[j]@ == k);
        }
        assert(a@.dom().subset_of(b@.dom()));
        vstd::set_lib::lemma_subset_equality(a@.dom(), b@.dom());
    }
    true
}

impl Settings {
    pub fn same_as(&self, other: &Self) -> (r: bool)
        ensures
            r == settings_eq(self@, other@),
    {
        same_global(&self.global, &other.global) && same_tables(&self.plugins, &other.plugins)
            && same_prefs_map(&self.displays, &other.displays)
    }
}

// ---------------------------------------------------------------------------
// Layout of one display
// ---------------------------------------------------------------------------

pub open spec fn layout_under(
    defaults: LayoutDefaults,
    prefs: Option<DisplayPrefs>,
) -> ResolvedLayout {
    ResolvedLayout {
        fillmode: if prefs is Some && prefs->0.fillmode is Some {
            prefs->0.fillmode->0
        } else {
            defaults.fillmode
        },
        align: if prefs is Some && prefs->0.align is Some {
            prefs->0.align->0
        } else {
            defaults.align
        },
        clear_rgba: if prefs is Some && prefs->0.clear_rgba is Some {
            prefs->0.clear_rgba->0
        } else {
            defaults.clear_rgba
        },
    }
}

impl SettingsView {
    pub open spec fn prefs_for(self, name: Seq<char>) -> Option<DisplayPrefs> {
        if self.displays.contains_key(name) {
            Some(self.displays[name])
        } else {
            None
        }
    }

    pub open spec fn layout_for(self, name: Seq<char>) -> ResolvedLayout {
        layout_under(self.global.layout, self.prefs_for(name))
    }

    /// The override under the stable identifier counts where there is one,
    /// the one under the name otherwise.
    pub open spec fn layout_for_display(
        self,
        name: Seq<char>,
        instance_id: Option<Seq<char>>,
    ) -> ResolvedLayout {
        if instance_id is Some && self.displays.contains_key(instance_id->0) {
            self.layout_for(instance_id->0)
        } else {
            self.layout_for(name)
        }
    }
}

/// Key of the stored preferences of a display.
pub open spec fn prefs_key(name: Seq<char>, instance_id: Option<Seq<char>>) -> Seq<char> {
    match instance_id {
        Some(iid) => iid,
        None => name,
    }
}

/// Preferences after a change: first a field is cleared if asked, then set if
/// a value is given.
pub open spec fn prefs_after(before: DisplayPrefs, c: LayoutChange) -> DisplayPrefs {
    DisplayPrefs {
        fillmode: if c.fillmode is Some {
            c.fillmode
        } else if c.clear_fillmode {
            None
        } else {
            before.fillmode
        },
        align: if c.align is Some {
            c.align
        } else if c.clear_align {
            None
        } else {
            before.align
        },
        clear_rgba: if c.clear_rgba is Some {
            c.clear_rgba
        } else if c.clear_clear_rgba {
            None
        } else {
            before.clear_rgba
        },
    }
}

/// A request to change the override of one display.
#[derive(Debug, Clone, Copy, PartialEq, Eq, Structural)]
pub struct LayoutChange {
    pub fillmode: Option<FillMode>,
    pub align: Option<Align>,
    pub clear_rgba: Option<ClearColor>,
    pub clear_fillmode: bool,
    pub clear_align: bool,
    pub clear_clear_rgba: bool,
}

/// Overrides after a change under `key`; one that says nothing is dropped.
pub open spec fn displays_after(
    displays: Map<Seq<char>, DisplayPrefs>,
    key: Seq<char>,
    c: LayoutChange,
) -> Map<Seq<char>, DisplayPrefs> {
    let before = if displays.contains_key(key) {
        displays[key]
    } else {
        DisplayPrefs { fillmode: None, align: None, clear_rgba: None }
    };
    let after = prefs_after(before, c);
    if after.says_nothing() {
        displays.remove(key)
    } else {
        displays.insert(key, after)
    }
}

/// There is an override under the name and none under the stable identifier.
pub open spec fn migrates(
    displays: Map<Seq<char>, DisplayPrefs>,
    name: Seq<char>,
    instance_id: Option<Seq<char>>,
) -> bool {
    instance_id is Some && !displays.contains_key(instance_id->0) && displays.contains_key(name)
}

/// Overrides after a display with a stable identifier shows up: an override
/// under its name is copied to the identifier when that has none.
pub open spec fn displays_migrated(
    displays: Map<Seq<char>, DisplayPrefs>,
    name: Seq<char>,
    instance_id: Option<Seq<char>>,
) -> Map<Seq<char>, DisplayPrefs> {
    if migrates(displays, name, instance_id) {
        displays.insert(instance_id->0, displays[name])
    } else {
        displays
    }
}

impl SettingsView {
    /// The settings after a change of one display's layout.
    pub open spec fn with_layout(self, key: Seq<char>, c: LayoutChange) -> SettingsView {
        SettingsView { displays: displays_after(self.displays, key, c), ..self }
    }
}

impl Settings {
    pub fn resolved_layout(&self, display_name: &str) -> (r: ResolvedLayout)
        ensures
            r == self@.layout_for(display_name@),
    {
        let d = &self.global.layout;
        match self.displays.get(display_name) {
            None => ResolvedLayout {
                fillmode: d.fillmode,
                align: d.align,
                clear_rgba: d.clear_rgba,
            },
            Some(p) => ResolvedLayout {
                fillmode: match p.fillmode {
                    Some(v) => v,
                    None => d.fillmode,
                },
                align: match p.align {
                    Some(v) => v,
                    None => d.align,
                },
                clear_rgba: match p.clear_rgba {
                    Some(v) => v,
                    None => d.clear_rgba,
                },
            },
        }
    }

    /// Layout of a display known by name and, possibly, stable identifier.
    pub fn layout_of(&self, name: &str, instance_id: &Option<String>) -> (r: ResolvedLayout)
        ensures
            r == self@.layout_for_display(name@, text::opt_text(*instance_id)),
    {
        if let Some(iid) = instance_id {
            if self.displays.contains_key(iid.as_str()) {
                return self.resolved_layout(iid.as_str());
            }
        }
        self.resolved_layout(name)
    }

    pub fn set_display_layout(&mut self, key: String, c: &LayoutChange)
        ensures
            final(self)@ == (SettingsView {
                displays: displays_after(old(self)@.displays, key@, *c),
                ..old(self)@
            }),
    {
        let before: DisplayPrefs = match self.displays.get(key.as_str()) {
            Some(p) => *p,
            None => DisplayPrefs::default(),
        };
        let mut p = before;
        if c.clear_fillmode {
            p.fillmode = None;
        }
        if let Some(v) = c.fillmode {
            p.fillmode = Some(v);
        }
        if c.clear_align {
            p.align = None;
        }
        if let Some(v) = c.align {
            p.align = Some(v);
        }
        if c.clear_clear_rgba {
            p.clear_rgba = None;
        }
        if let Some(v) = c.clear_rgba {
            p.clear_rgba = Some(v);
        }
        assert(p == prefs_after(before, *c));
        if p.is_empty() {
            self.displays.remove(key.as_str());
        } else {
            self.displays.insert(key, p);
        }
    }

    pub fn migrate_display(&mut self, name: &str, instance_id: &Option<String>)
        ensures
            final(self)@ == (SettingsView {
                displays: displays_migrated(
                    old(self)@.displays,
                    name@,
                    text::opt_text(*instance_id),
                ),
                ..old(self)@
            }),
    {
        if let Some(iid) = instance_id {
            if !self.displays.contains_key(iid.as_str()) {
                let found: Option<DisplayPrefs> = match self.displays.get(name) {
                    Some(p) => Some(*p),
                    None => None,
                };
                if let Some(p) = found {
                    self.displays.insert(iid.clone(), p);
                }
            }
        }
    }
}

// ---------------------------------------------------------------------------
// Store
// ---------------------------------------------------------------------------

/// What reading the settings file gave.
pub enum LoadOutcome {
    Parsed(Settings),
    Malformed,
    Missing,
    Unreadable,
}

/// The settings in memory, and whether they differ from the file.
#[derive(Debug)]
pub struct SettingsStore {
    pub inner: Settings,
    pub dirty: bool,
}

/// The plugin has a table once the manifests are taken into account: one that
/// was stored, or one for what its manifest declares.
pub open spec fn has_table(
    tables: Tables,
    manifests: Map<Seq<char>, StrMap<SettingDef>>,
    p: Seq<char>,
) -> bool {
    tables.contains_key(p) || (manifests.contains_key(p) && manifests[p]@.dom() != Set::<
        Seq<char>,
    >::empty())
}

/// Tables after they were brought in line with the manifests. Only a plugin
/// without a manifest keeps its table as it is.
pub open spec fn reconciled(
    tables: Tables,
    manifests: Map<Seq<char>, StrMap<SettingDef>>,
    float_ok: Set<(Seq<char>, Seq<char>)>,
) -> Tables {
    Map::new(
        |p: Seq<char>| has_table(tables, manifests, p),
        |p: Seq<char>|
            if manifests.contains_key(p) {
                reconciled_table(table_of(tables, p), manifests[p]@, p, float_ok)
            } else {
                tables[p]
            },
    )
}

pub open spec fn table_of(tables: Tables, p: Seq<char>) -> Map<Seq<char>, Seq<char>> {
    if tables.contains_key(p) {
        tables[p]
    } else {
        Map::empty()
    }
}

/// Exactly the declared keys, each with its stored value if that is valid and
/// with its default otherwise.
pub open spec fn reconciled_table(
    table: Map<Seq<char>, Seq<char>>,
    schema: Map<Seq<char>, SettingDef>,
    plugin: Seq<char>,
    float_ok: Set<(Seq<char>, Seq<char>)>,
) -> Map<Seq<char>, Seq<char>> {
    Map::new(
        |k: Seq<char>| schema.contains_key(k),
        |k: Seq<char>|
            if table.contains_key(k) && schema[k].accepts(
                table[k],
                float_ok.contains((plugin, k)),
            ) {
                table[k]
            } else {
                schema[k].default_value()
            },
    )
}

/// The (plugin, key) pairs of a list.
pub open spec fn pair_set(list: Seq<(String, String)>) -> Set<(Seq<char>, Seq<char>)> {
    Set::new(
        |q: (Seq<char>, Seq<char>)|
            exists|i: int|
                0 <= i < list.len() && (#[trigger] list[i]).0@ == q.0 && list[i].1@ == q.1,
    )
}

fn has_pair(list: &Vec<(String, String)>, a: &str, b: &str) -> (r: bool)
    ensures
        r == pair_set(list@).contains((a@, b@)),
{
    let mut i: usize = 0;
    while i < list.len()
        invariant
            i <= list@.len(),
            forall|j: int|
                0 <= j < i ==> !((#[trigger] list@[j]).0@ == a@ && list@[j].1@ == b@),
        decreases list.len() - i,
    {
        if str_eq(list[i].0.as_str(), a) && str_eq(list[i].1.as_str(), b) {
            return true;
        }
        i = i + 1;
    }
    false
}

/// Brings one table in line with its schema and says whether it changed.
fn reconcile_table(
    table: &mut StrMap<String>,
    schema: &StrMap<SettingDef>,
    plugin: &str,
    float_ok: &Vec<(String, String)>,
) -> (changed: bool)
    ensures
        strmap::kv_text(final(table)@) == reconciled_table(
            strmap::kv_text(old(table)@),
            schema@,
            plugin@,
            pair_set(float_ok@),
        ),
        changed == (strmap::kv_text(final(table)@) != strmap::kv_text(old(table)@)),
{
    let ghost before = strmap::kv_text(table@);
    let ghost ok = pair_set(float_ok@);
    let ghost want = reconciled_table(before, schema@, plugin@, ok);
    let mut changed = false;
    let old_keys = table.keys();
    let mut i: usize = 0;
    while i < old_keys.len()
        invariant
            i <= old_keys@.len(),
            forall|j: int|
                0 <= j < old_keys@.len() ==> before.contains_key(#[trigger] old_keys@[j]@),
            forall|k: Seq<char>| #[trigger]
                strmap::kv_text(table@).contains_key(k) ==> before.contains_key(k)
                    && strmap::kv_text(table@)[k] == before[k],
            forall|k: Seq<char>| #[trigger]
                before.contains_key(k) && schema@.contains_key(k) ==> strmap::kv_text(
                    table@,
                ).contains_key(k),
            forall|j: int|
                0 <= j < i ==> (strmap::kv_text(table@).contains_key(#[trigger] old_keys@[j]@)
                    <==> schema@.contains_key(old_keys@[j]@)),
            forall|j: int, k: int|
                0 <= j < k < old_keys@.len() ==> text::text_less(
                    #[trigger] old_keys@[j]@,
                    #[trigger] old_keys@[k]@,
                ),
            forall|j: int|
                i <= j < old_keys@.len() ==> strmap::kv_text(table@).contains_key(
                    #[trigger] old_keys@[j]@,
                ),
            changed ==> exists|k: Seq<char>| #[trigger]
                before.contains_key(k) && !schema@.contains_key(k),
            !changed ==> strmap::kv_text(table@) == before,
        decreases old_keys.len() - i,
    {
        let key = old_keys[i].as_str();
        proof {
            assert forall|j: int| i < j < old_keys@.len() implies #[trigger] old_keys@[j]@
                != key@ by {
                text::text_less_is_total(key@, key@);
                assert(text::text_less(old_keys@[i as int]@, old_keys@[j]@));
            }
            assert forall|j: int| 0 <= j < i implies #[trigger] old_keys@[j]@ != key@ by {
                text::text_less_is_total(key@, key@);
                assert(text::text_less(old_keys@[j]@, old_keys@[i as int]@));
            }
            assert(before.contains_key(old_keys@[i as int]@));
        }
        if !schema.contains_key(key) {
            table.remove(key);
            changed = true;
            assert(before.contains_key(key@) && !schema@.contains_key(key@));
        }
        i = i + 1;
    }
    let ghost kept = strmap::kv_text(table@);
    let ghost dropped = changed;
    assert forall|k: Seq<char>| #[trigger] kept.contains_key(k) <==> before.contains_key(k)
        && schema@.contains_key(k) by {
        if kept.contains_key(k) {
            assert(before.contains_key(k));
            let j = choose|j: int| 0 <= j < old_keys@.len() && #[trigger] old_keys@[j]@ == k;
            assert(old_keys@[j]@ == k);
        }
    }
    let keys = schema.keys();
    let mut n: usize = 0;
    while n < keys.len()
        invariant
            n <= keys@.len(),
            ok == pair_set(float_ok@),
            want == reconciled_table(before, schema@, plugin@, ok),
            forall|j: int| 0 <= j < keys@.len() ==> schema@.contains_key(#[trigger] keys@[j]@),
            forall|k: Seq<char>| #[trigger]
                kept.contains_key(k) <==> before.contains_key(k) && schema@.contains_key(k),
            forall|k: Seq<char>| #[trigger] kept.contains_key(k) ==> kept[k] == before[k],
            forall|j: int, k: int|
                0 <= j < k < keys@.len() ==> text::text_less(
                    #[trigger] keys@[j]@,
                    #[trigger] keys@[k]@,
                ),
            forall|k: Seq<char>| #[trigger]
                strmap::kv_text(table@).contains_key(k) ==> schema@.contains_key(k),
            forall|j: int|
                0 <= j < n ==> strmap::kv_text(table@).contains_key(#[trigger] keys@[j]@)
                    && strmap::kv_text(table@)[keys@[j]@] == want[keys@[j]@],
            forall|j: int|
                n <= j < keys@.len() ==> (strmap::kv_text(table@).contains_key(
                    #[trigger] keys@[j]@,
                ) <==> kept.contains_key(keys@[j]@)) && (kept.contains_key(keys@[j]@)
                    ==> strmap::kv_text(table@)[keys@[j]@] == kept[keys@[j]@]),
            dropped ==> changed,
            dropped ==> exists|k: Seq<char>| #[trigger]
                before.contains_key(k) && !schema@.contains_key(k),
            !dropped ==> kept == before,
            !changed ==> strmap::kv_text(table@) == kept,
            changed ==> dropped || exists|k: Seq<char>| #[trigger]
                want.contains_key(k) && (!before.contains_key(k) || before[k] != want[k]),
        decreases keys.len() - n,
    {
        let key = keys[n].as_str();
        proof {
            assert(schema@.contains_key(keys@[n as int]@));
            assert forall|j: int| n < j < keys@.len() implies #[trigger] keys@[j]@ != key@ by {
                text::text_less_is_total(key@, key@);
                assert(text::text_less(keys@[n as int]@, keys@[j]@));
            }
            assert forall|j: int| 0 <= j < n implies #[trigger] keys@[j]@ != key@ by {
                text::text_less_is_total(key@, key@);
                assert(text::text_less(keys@[j]@, keys@[n as int]@));
            }
            assert(kept.contains_key(key@) <==> before.contains_key(key@));
            assert(strmap::kv_text(table@).contains_key(key@) <==> table@.contains_key(key@));
        }
        if let Some(def) = schema.get(key) {
            let good = match table.get(key) {
                None => false,
                Some(v) => check_setting_bounds(v.as_str(), def, has_pair(float_ok, plugin, key)),
            };
            assert(good ==> want[key@] == before[key@]);
            assert(!good ==> want[key@] == def.default_value());
            if !good {
                let default = def.default_text();
                let same = match table.get(key) {
                    Some(v) => *v == default,
                    None => false,
                };
                if !same {
                    assert(want.contains_key(key@));
                    table.insert(keys[n].clone(), default);
                    changed = true;
                }
            }
        }
        n = n + 1;
    }
    proof {
        let after = strmap::kv_text(table@);
        assert forall|k: Seq<char>| #[trigger] want.contains_key(k) implies after.contains_key(k)
            && after[k] == want[k] by {
            assert(schema@.contains_key(k));
            let j = choose|j: int| 0 <= j < keys@.len() && #[trigger] keys@[j]@ == k;
            assert(keys@[j]@ == k);
        }
        assert(after =~= want);
        if dropped {
            let k = choose|k: Seq<char>| #[trigger]
                before.contains_key(k) && !schema@.contains_key(k);
            assert(!want.contains_key(k));
        }
    }
    changed
}

/// The settings of the store are others now; it needs writing where they
/// differ, or did so already.
pub open spec fn saved(a: SettingsStore, b: SettingsStore, v: SettingsView) -> bool {
    b.inner@ == v && b.dirty == (a.dirty || !settings_eq(v, a.inner@))
}

impl SettingsStore {
    /// The store after reading the settings file. Defaults take the place of
    /// what could not be read; only a file that does not exist is to be
    /// written at once.
    pub fn from_load(outcome: LoadOutcome) -> (r: Self)
        ensures
            match outcome {
                LoadOutcome::Parsed(s) => r.inner == s && !r.dirty,
                LoadOutcome::Missing => r.inner@ == default_settings() && r.dirty,
                _ => r.inner@ == default_settings() && !r.dirty,
            },
    {
        match outcome {
            LoadOutcome::Parsed(s) => SettingsStore { inner: s, dirty: false },
            LoadOutcome::Missing => SettingsStore { inner: Settings::default(), dirty: true },
            LoadOutcome::Malformed => SettingsStore { inner: Settings::default(), dirty: false },
            LoadOutcome::Unreadable => SettingsStore { inner: Settings::default(), dirty: false },
        }
    }

    pub fn snapshot(&self) -> (r: Settings)
        ensures
            r@ == self.inner@,
    {
        self.inner.clone()
    }

    pub fn global(&self) -> (r: GlobalSettings)
        ensures
            r@ == self.inner@.global,
    {
        self.inner.global.clone()
    }

    /// Table of one plugin.
    pub fn plugin(&self, plugin_name: &str) -> (r: Option<StrMap<String>>)
        ensures
            match r {
                Some(t) => self.inner@.plugins.contains_key(plugin_name@) && strmap::kv_text(t@)
                    == self.inner@.plugins[plugin_name@],
                None => !self.inner@.plugins.contains_key(plugin_name@),
            },
    {
        match self.inner.plugins.get(plugin_name) {
            Some(t) => Some(t.copy()),
            None => None,
        }
    }

    pub fn resolved_layout(&self, display_name: &str) -> (r: ResolvedLayout)
        ensures
            r == self.inner@.layout_for(display_name@),
    {
        self.inner.resolved_layout(display_name)
    }

    pub fn display_prefs(&self, display_name: &str) -> (r: Option<DisplayPrefs>)
        ensures
            r == self.inner@.prefs_for(display_name@),
    {
        match self.inner.displays.get(display_name) {
            Some(p) => Some(*p),
            None => None,
        }
    }

    /// Names with an override, in ascending order.
    pub fn display_pref_names(&self) -> (out: Vec<String>)
        ensures
            forall|i: int, j: int|
                0 <= i < j < out@.len() ==> text::text_less(#[trigger] out@[i]@, #[trigger] out@[j]@),
            forall|i: int|
                0 <= i < out@.len() ==> self.inner@.displays.contains_key(#[trigger] out@[i]@),
            forall|k: Seq<char>| #[trigger]
                self.inner@.displays.contains_key(k) ==> exists|i: int|
                    0 <= i < out@.len() && #[trigger] out@[i]@ == k,
    {
        self.inner.displays.keys()
    }

    /// Puts new settings in place. The store needs writing, and the result is
    /// `true`, only when something differs.
    pub fn update(&mut self, after: Settings) -> (changed: bool)
        ensures
            final(self).inner == after,
            changed == !settings_eq(after@, old(self).inner@),
            final(self).dirty == (old(self).dirty || changed),
    {
        let changed = !after.same_as(&self.inner);
        self.inner = after;
        if changed {
            self.dirty = true;
        }
        changed
    }

    /// A display with a stable identifier showed up: what is stored under its
    /// name is copied to the identifier when that has nothing yet.
    pub fn migrate_display(&mut self, name: &str, instance_id: &Option<String>)
        ensures
            final(self).inner@ == (SettingsView {
                displays: displays_migrated(
                    old(self).inner@.displays,
                    name@,
                    text::opt_text(*instance_id),
                ),
                ..old(self).inner@
            }),
            final(self).dirty == (old(self).dirty || migrates(
                old(self).inner@.displays,
                name@,
                text::opt_text(*instance_id),
            )),
    {
        if let Some(iid) = instance_id {
            if !self.inner.displays.contains_key(iid.as_str()) && self.inner.displays.contains_key(
                name,
            ) {
                let mut after = self.inner.clone();
                after.migrate_display(name, instance_id);
                assert(after@.displays.contains_key(iid@));
                let _changed = self.update(after);
            }
        }
    }

    /// Starts writing: hands out what is to be written when there is anything,
    /// and takes the store for written.
    pub fn flush_begin(&mut self) -> (r: Option<Settings>)
        ensures
            final(self).inner == old(self).inner,
            !final(self).dirty,
            match r {
                Some(s) => old(self).dirty && s@ == old(self).inner@,
                None => !old(self).dirty,
            },
    {
        if !self.dirty {
            return None;
        }
        self.dirty = false;
        Some(self.inner.clone())
    }

    /// Ends writing: after a failure the store needs writing again.
    pub fn flush_end(&mut self, written: bool)
        ensures
            final(self).inner == old(self).inner,
            final(self).dirty == (old(self).dirty || !written),
    {
        if !written {
            self.dirty = true;
        }
    }

    /// Brings the plugin tables in line with the manifests: declared keys only,
    /// with a default for every missing or invalid value. Tables of plugins
    /// without a manifest stay as they are.
    /// `float_ok` lists the (plugin, key) pairs of float settings whose stored
    /// value lies within its bounds.
    pub fn reconcile(
        &mut self,
        manifests: &StrMap<StrMap<SettingDef>>,
        float_ok: &Vec<(String, String)>,
    ) -> (changed: bool)
        ensures
            final(self).inner@ == (SettingsView {
                plugins: reconciled(old(self).inner@.plugins, manifests@, pair_set(float_ok@)),
                ..old(self).inner@
            }),
            changed == (final(self).inner@.plugins != old(self).inner@.plugins),
            final(self).dirty == (old(self).dirty || changed),
    {
        let ghost before = self.inner@.plugins;
        let ghost ok = pair_set(float_ok@);
        let ghost want = reconciled(before, manifests@, ok);
        let ghost none = Set::<Seq<char>>::empty();
        let mut changed = false;
        let keys = manifests.keys();
        let mut i: usize = 0;
        let ghost global = self.inner.global;
        let ghost displays = self.inner.displays;
        let ghost dirty = self.dirty;
        while i < keys.len()
            invariant
                i <= keys@.len(),
                ok == pair_set(float_ok@),
                none == Set::<Seq<char>>::empty(),
                want == reconciled(before, manifests@, ok),
                self.inner.global == global,
                self.inner.displays == displays,
                self.dirty == dirty,
                forall|j: int| 0 <= j < keys@.len() ==> manifests@.contains_key(#[trigger] keys@[j]@),
                forall|j: int, k: int|
                    0 <= j < k < keys@.len() ==> text::text_less(
                        #[trigger] keys@[j]@,
                        #[trigger] keys@[k]@,
                    ),
                forall|j: int|
                    0 <= j < i ==> self.inner@.plugins.contains_key(#[trigger] keys@[j]@)
                        == want.contains_key(keys@[j]@) && (want.contains_key(keys@[j]@)
                        ==> self.inner@.plugins[keys@[j]@] == want[keys@[j]@]),
                forall|k: Seq<char>|
                    (forall|j: int| 0 <= j < i ==> #[trigger] keys@[j]@ != k) ==> (
                    #[trigger] self.inner@.plugins.contains_key(k) <==> before.contains_key(k)),
                forall|k: Seq<char>|
                    (forall|j: int| 0 <= j < i ==> #[trigger] keys@[j]@ != k)
                        && #[trigger] before.contains_key(k) ==> self.inner@.plugins[k] == before[k],
                !changed ==> self.inner@.plugins == before,
                changed ==> exists|k: Seq<char>| #[trigger]
                    want.contains_key(k) && (!before.contains_key(k) || before[k] != want[k]),
            decreases keys.len() - i,
        {
            let plugin = keys[i].as_str();
            let ghost now = self.inner@.plugins;
            proof {
                assert(manifests@.contains_key(keys@[i as int]@));
                assert forall|j: int| 0 <= j < i implies #[trigger] keys@[j]@ != plugin@ by {
                    text::text_less_is_total(plugin@, plugin@);
                    assert(text::text_less(keys@[j]@, keys@[i as int]@));
                }
                assert(now.contains_key(plugin@) <==> before.contains_key(plugin@));
            }
            if let Some(schema) = manifests.get(plugin) {
                let n: usize = schema.len();
                assert(n == 0 ==> schema@.dom() =~= none);
                assert(n != 0 ==> schema@.dom() != none);
                if n != 0 || self.inner.plugins.contains_key(plugin) {
                    let taken = self.inner.plugins.remove(plugin);
                    let mut table: StrMap<String> = match taken {
                        Some(t) => t,
                        None => StrMap::new(),
                    };
                    let ghost start = strmap::kv_text(table@);
                    assert(start =~= table_of(before, plugin@));
                    let differs = reconcile_table(&mut table, schema, plugin, float_ok);
                    let ghost done = strmap::kv_text(table@);
                    self.inner.plugins.insert(keys[i].clone(), table);
                    proof {
                        assert(want.contains_key(plugin@));
                        assert(done == want[plugin@]);
                        assert(self.inner@.plugins =~= now.insert(plugin@, done));
                        if !differs {
                            assert(done == start);
                            if !before.contains_key(plugin@) {
                                let k = schema@.dom().choose();
                                assert(schema@.dom().contains(k)) by {
                                    if !schema@.dom().contains(k) {
                                        assert(schema@.dom() =~= none);
                                    }
                                }
                                assert(done.contains_key(k));
                                assert(!start.contains_key(k));
                            }
                            assert(self.inner@.plugins =~= now);
                        }
                    }
                    if differs {
                        changed = true;
                    }
                }
            }
            i = i + 1;
            proof {
                assert forall|k: Seq<char>|
                    (forall|j: int| 0 <= j < i ==> #[trigger] keys@[j]@ != k) implies (
                #[trigger] self.inner@.plugins.contains_key(k) <==> before.contains_key(k)) by {
                    assert(keys@[i - 1]@ != k);
                }
            }
        }
        proof {
            let after = self.inner@.plugins;
            assert forall|k: Seq<char>| #[trigger] want.contains_key(k) implies after.contains_key(
                k,
            ) && after[k] == want[k] by {
                if manifests@.contains_key(k) {
                    let j = choose|j: int| 0 <= j < keys@.len() && #[trigger] keys@[j]@ == k;
                    assert(keys@[j]@ == k);
                } else {
                    assert forall|j: int| 0 <= j < i implies #[trigger] keys@[j]@ != k by {}
                }
            }
            assert forall|k: Seq<char>| #[trigger] after.contains_key(k) implies want.contains_key(
                k,
            ) by {
                if manifests@.contains_key(k) {
                    let j = choose|j: int| 0 <= j < keys@.len() && #[trigger] keys@[j]@ == k;
                    assert(keys@[j]@ == k);
                } else {
                    assert forall|j: int| 0 <= j < i implies #[trigger] keys@[j]@ != k by {}
                }
            }
            assert(after =~= want);
        }
        if changed {
            self.dirty = true;
        }
        changed
    }
}

// ---------------------------------------------------------------------------
// Laws
// ---------------------------------------------------------------------------

/// Of the stored float settings that were found valid, those that are declared
/// are still found valid.
pub open spec fn still_accepted(
    tables: Tables,
    manifests: Map<Seq<char>, StrMap<SettingDef>>,
    float_ok: Set<(Seq<char>, Seq<char>)>,
    again: Set<(Seq<char>, Seq<char>)>,
) -> bool {
    forall|p: Seq<char>, k: Seq<char>|
        manifests.contains_key(p) && manifests[p]@.contains_key(k) && tables.contains_key(p)
            && tables[p].contains_key(k) && #[trigger] float_ok.contains((p, k))
            ==> again.contains((p, k))
}

/// Reconciling a second time changes nothing, whatever the second list of
/// valid floats says of the values that were reset in between.
pub proof fn reconcile_is_idempotent(
    tables: Tables,
    manifests: Map<Seq<char>, StrMap<SettingDef>>,
    float_ok: Set<(Seq<char>, Seq<char>)>,
    again: Set<(Seq<char>, Seq<char>)>,
)
    requires
        still_accepted(tables, manifests, float_ok, again),
    ensures
        reconciled(reconciled(tables, manifests, float_ok), manifests, again) == reconciled(
            tables,
            manifests,
            float_ok,
        ),
{
    let once = reconciled(tables, manifests, float_ok);
    let twice = reconciled(once, manifests, again);
    assert forall|p: Seq<char>| #[trigger] twice.contains_key(p) implies twice[p] == once[p] by {
        if manifests.contains_key(p) {
            assert(has_table(once, manifests, p));
            assert(once.contains_key(p));
            assert forall|k: Seq<char>| #[trigger] twice[p].contains_key(k) implies twice[p][k]
                == once[p][k] by {
                let _ = float_ok.contains((p, k));
            }
            assert(twice[p] =~= once[p]);
        }
    }
    assert(twice =~= once);
}

/// After reconciling, a table with declared settings has exactly those keys,
/// and each value is valid or the default.
pub proof fn reconciled_values_are_valid(
    tables: Tables,
    manifests: Map<Seq<char>, StrMap<SettingDef>>,
    float_ok: Set<(Seq<char>, Seq<char>)>,
    p: Seq<char>,
    k: Seq<char>,
)
    requires
        manifests.contains_key(p),
        manifests[p]@.contains_key(k),
    ensures
        ({
            let r = reconciled(tables, manifests, float_ok);
            &&& r.contains_key(p)
            &&& r[p].dom() == manifests[p]@.dom()
            &&& r[p][k] == manifests[p]@[k].default_value() || manifests[p]@[k].accepts(
                r[p][k],
                float_ok.contains((p, k)),
            )
        }),
{
    let r = reconciled(tables, manifests, float_ok);
    assert(manifests[p]@.dom().contains(k));
    assert(r[p].dom() =~= manifests[p]@.dom());
}

/// Whatever a manifest does not declare is dropped, also where it declares
/// nothing at all.
pub proof fn undeclared_keys_are_dropped(
    tables: Tables,
    manifests: Map<Seq<char>, StrMap<SettingDef>>,
    float_ok: Set<(Seq<char>, Seq<char>)>,
    p: Seq<char>,
    k: Seq<char>,
)
    requires
        tables.contains_key(p),
        manifests.contains_key(p),
        !manifests[p]@.contains_key(k),
    ensures
        ({
            let r = reconciled(tables, manifests, float_ok);
            &&& r.contains_key(p)
            &&& !r[p].contains_key(k)
            &&& tables[p].contains_key(k) ==> r != tables
        }),
{
    let r = reconciled(tables, manifests, float_ok);
    assert(has_table(tables, manifests, p));
    assert(!r[p].contains_key(k));
}

/// Tables of plugins that no manifest describes are kept.
pub proof fn unknown_plugins_are_kept(
    tables: Tables,
    manifests: Map<Seq<char>, StrMap<SettingDef>>,
    float_ok: Set<(Seq<char>, Seq<char>)>,
    p: Seq<char>,
)
    requires
        tables.contains_key(p),
        !manifests.contains_key(p),
    ensures
        reconciled(tables, manifests, float_ok).contains_key(p),
        reconciled(tables, manifests, float_ok)[p] == tables[p],
{
}

/// Every field of the layout comes from the override where it has one, and
/// from the defaults otherwise, whatever the other fields do.
pub proof fn layout_fields_fall_back_one_by_one(defaults: LayoutDefaults, prefs: DisplayPrefs)
    ensures
        ({
            let l = layout_under(defaults, Some(prefs));
            &&& l.fillmode == if prefs.fillmode is Some {
                prefs.fillmode->0
            } else {
                defaults.fillmode
            }
            &&& l.align == if prefs.align is Some {
                prefs.align->0
            } else {
                defaults.align
            }
            &&& l.clear_rgba == if prefs.clear_rgba is Some {
                prefs.clear_rgba->0
            } else {
                defaults.clear_rgba
            }
            &&& prefs.says_nothing() ==> l == layout_under(defaults, None)
        }),
{
}

/// No stored override is ever empty, if none was before.
pub proof fn stored_overrides_are_not_empty(
    displays: Map<Seq<char>, DisplayPrefs>,
    key: Seq<char>,
    c: LayoutChange,
)
    requires
        forall|k: Seq<char>| #[trigger] displays.contains_key(k) ==> !displays[k].says_nothing(),
    ensures
        forall|k: Seq<char>| #[trigger]
            displays_after(displays, key, c).contains_key(k) ==> !displays_after(
                displays,
                key,
                c,
            )[k].says_nothing(),
{
}

/// Moving an override to a stable identifier does not change the layout of
/// the display, and keeps the override under the name.
pub proof fn migration_keeps_the_layout(s: SettingsView, name: Seq<char>, iid: Option<Seq<char>>)
    ensures
        ({
            let t = SettingsView { displays: displays_migrated(s.displays, name, iid), ..s };
            &&& t.layout_for_display(name, iid) == s.layout_for_display(name, iid)
            &&& t.layout_for(name) == s.layout_for(name)
        }),
{
}

/// Reconciling keeps every stored value that fits its declaration and resets
/// every other to the default; it adds a value for every declared key that has
/// none. Nothing else of the settings changes, and the file is to be written
/// exactly where something did or was to be before.
pub proof fn valid_values_are_kept_and_others_reset(
    store: &mut SettingsStore,
    manifests: &StrMap<StrMap<SettingDef>>,
    float_ok: &Vec<(String, String)>,
    changed: bool,
    p: Seq<char>,
    k: Seq<char>,
)
    requires
        call_ensures(SettingsStore::reconcile, (store, manifests, float_ok), changed),
        manifests@.contains_key(p),
        manifests@[p]@.contains_key(k),
    ensures
        ({
            let a = old(store).inner@;
            let b = final(store).inner@;
            let def = manifests@[p]@[k];
            let stored = a.plugins.contains_key(p) && a.plugins[p].contains_key(k);
            let v = a.plugins[p][k];
            let listed = exists|i: int|
                0 <= i < float_ok@.len() && (#[trigger] float_ok@[i]).0@ == p && float_ok@[i].1@
                    == k;
            &&& b.plugins.contains_key(p) && b.plugins[p].contains_key(k)
            &&& stored && def.accepts(v, listed) ==> b.plugins[p][k] == v
            &&& !(stored && def.accepts(v, listed)) ==> b.plugins[p][k] == def.default_value()
            &&& b.global == a.global
            &&& b.displays == a.displays
            &&& changed <==> b.plugins != a.plugins
            &&& final(store).dirty <==> old(store).dirty || changed
        }),
{
    let a = old(store).inner@;
    assert(manifests@[p]@.dom().contains(k));
    assert(has_table(a.plugins, manifests@, p));
    let ok = pair_set(float_ok@);
    let listed = exists|i: int|
        0 <= i < float_ok@.len() && (#[trigger] float_ok@[i]).0@ == p && float_ok@[i].1@ == k;
    assert(ok.contains((p, k)) == listed);
}

/// The layout of a display takes each field from the display's own preferences
/// where they set it and from the defaults otherwise. The preferences under a
/// stable identifier count before those under the name.
pub proof fn layout_goes_by_identifier_then_name(
    s: Settings,
    name: &str,
    instance_id: &Option<String>,
    r: ResolvedLayout,
)
    requires
        call_ensures(Settings::layout_of, (&s, name, instance_id), r),
    ensures
        ({
            let all = s@.displays;
            let d = s@.global.layout;
            let own = if *instance_id is Some && all.contains_key(instance_id->0@) {
                Some(all[instance_id->0@])
            } else if all.contains_key(name@) {
                Some(all[name@])
            } else {
                None
            };
            &&& own is None ==> r.fillmode == d.fillmode && r.align == d.align && r.clear_rgba
                == d.clear_rgba
            &&& own matches Some(p) ==> {
                &&& p.fillmode matches Some(x) ==> r.fillmode == x
                &&& p.fillmode is None ==> r.fillmode == d.fillmode
                &&& p.align matches Some(x) ==> r.align == x
                &&& p.align is None ==> r.align == d.align
                &&& p.clear_rgba matches Some(x) ==> r.clear_rgba == x
                &&& p.clear_rgba is None ==> r.clear_rgba == d.clear_rgba
            }
        }),
{
}

/// A change of a display's layout sets the fields that it gives a value, clears
/// those that it clears and gives none, and leaves the others. It touches the
/// preferences of no other display and nothing else of the settings, and
/// preferences that set nothing are not kept.
pub proof fn layout_change_sets_and_clears(
    s: &mut Settings,
    key: String,
    c: &LayoutChange,
    other: Seq<char>,
)
    requires
        call_ensures(Settings::set_display_layout, (s, key, c), ()),
    ensures
        ({
            let a = old(s)@;
            let b = final(s)@;
            let before = a.displays[key@];
            let had = a.displays.contains_key(key@);
            let has = b.displays.contains_key(key@);
            let after = b.displays[key@];
            let fill = if c.fillmode is Some {
                c.fillmode
            } else if had && !c.clear_fillmode {
                before.fillmode
            } else {
                None
            };
            let align = if c.align is Some {
                c.align
            } else if had && !c.clear_align {
                before.align
            } else {
                None
            };
            let color = if c.clear_rgba is Some {
                c.clear_rgba
            } else if had && !c.clear_clear_rgba {
                before.clear_rgba
            } else {
                None
            };
            &&& has <==> fill is Some || align is Some || color is Some
            &&& has ==> after.fillmode == fill && after.align == align && after.clear_rgba == color
            &&& other != key@ ==> b.displays.contains_key(other) == a.displays.contains_key(other)
            &&& other != key@ && a.displays.contains_key(other) ==> b.displays[other]
                == a.displays[other]
            &&& b.global == a.global
            &&& b.plugins == a.plugins
        }),
{
}

/// A display that shows up with a stable identifier takes the preferences kept
/// under its name along, where the identifier has none yet; the settings are
/// written exactly then.
pub proof fn preferences_follow_the_identifier(
    store: &mut SettingsStore,
    name: &str,
    instance_id: &Option<String>,
    other: Seq<char>,
)
    requires
        call_ensures(SettingsStore::migrate_display, (store, name, instance_id), ()),
    ensures
        ({
            let a = old(store).inner@;
            let b = final(store).inner@;
            let moves = *instance_id is Some && !a.displays.contains_key(instance_id->0@)
                && a.displays.contains_key(name@);
            &&& moves ==> b.displays.contains_key(instance_id->0@) && b.displays[instance_id->0@]
                == a.displays[name@]
            &&& a.displays.contains_key(other) ==> b.displays.contains_key(other)
                && b.displays[other] == a.displays[other]
            &&& b.displays.contains_key(other) && !a.displays.contains_key(other) ==> moves && other
                == instance_id->0@
            &&& final(store).dirty <==> old(store).dirty || moves
            &&& b.global == a.global && b.plugins == a.plugins
        }),
{
}

/// Settings that changed are written, once: what is handed out to be written is
/// what is kept, and afterwards nothing waits. A failed writing leaves them
/// waiting, and so does a change that came meanwhile.
pub proof fn changed_settings_are_written(
    store: &mut SettingsStore,
    later: &mut SettingsStore,
    r: Option<Settings>,
    written: bool,
)
    requires
        call_ensures(SettingsStore::flush_begin, (store,), r),
        call_ensures(SettingsStore::flush_end, (later, written), ()),
    ensures
        r is Some <==> old(store).dirty,
        r matches Some(s) ==> s@ == old(store).inner@,
        !final(store).dirty,
        final(store).inner == old(store).inner,
        final(later).inner == old(later).inner,
        !written ==> final(later).dirty,
        written ==> final(later).dirty == old(later).dirty,
{
}

/// Replacing the settings says whether anything in them differs, and only then
/// are they to be written.
pub proof fn update_notices_every_difference(
    store: &mut SettingsStore,
    after: Settings,
    changed: bool,
)
    requires
        call_ensures(SettingsStore::update, (store, after), changed),
    ensures
        final(store).inner == after,
        final(store).dirty <==> old(store).dirty || changed,
        ({
            let a = old(store).inner@;
            let b = after@;
            &&& !changed ==> {
                &&& a.global.target_extent == b.global.target_extent
                &&& a.global.render_size_policy == b.global.render_size_policy
                &&& a.global.last_wallpaper == b.global.last_wallpaper
                &&& a.global.active_playlist_id == b.global.active_playlist_id
                &&& a.global.playlist_mode == b.global.playlist_mode
                &&& a.global.rotation_secs == b.global.rotation_secs
                &&& a.global.wallpaper_filter == b.global.wallpaper_filter
                &&& a.global.layout.fillmode == b.global.layout.fillmode
                &&& a.global.layout.align == b.global.layout.align
                &&& layout::color_eq(b.global.layout.clear_rgba, a.global.layout.clear_rgba)
                &&& a.plugins == b.plugins
                &&& forall|k: Seq<char>| #[trigger]
                    a.displays.contains_key(k) <==> b.displays.contains_key(k)
                &&& forall|k: Seq<char>| #[trigger]
                    a.displays.contains_key(k) ==> a.displays[k].fillmode == b.displays[k].fillmode
                        && a.displays[k].align == b.displays[k].align
            }
            &&& changed ==> a.global != b.global || a.plugins != b.plugins || a.displays
                != b.displays || !numbers_only(b)
        }),
{
    let a = old(store).inner@;
    let b = after@;
    if !changed {
        assert forall|k: Seq<char>| #[trigger]
            a.displays.contains_key(k) <==> b.displays.contains_key(k) by {
            assert(a.displays.dom().contains(k) <==> b.displays.dom().contains(k));
        }
        assert forall|k: Seq<char>| #[trigger] a.displays.contains_key(k) implies a.displays[k].fillmode
            == b.displays[k].fillmode && a.displays[k].align == b.displays[k].align by {
            assert(b.displays.contains_key(k));
        }
    }
}

/// The colour is made of numbers.
pub open spec fn number_color(c: ClearColor) -> bool {
    layout::color_eq(c, c)
}

/// Every colour in the settings is made of numbers.
pub open spec fn numbers_only(s: SettingsView) -> bool {
    &&& number_color(s.global.layout.clear_rgba)
    &&& forall|k: Seq<char>| #[trigger]
        s.displays.contains_key(k) && s.displays[k].clear_rgba is Some ==> number_color(
            s.displays[k].clear_rgba->0,
        )
}

/// A file that could be read is taken as it is and needs no writing; one that
/// is missing is replaced by the defaults, which are to be written; one that
/// could not be read is left alone.
pub proof fn loading_keeps_what_could_be_read(outcome: LoadOutcome, r: SettingsStore)
    requires
        call_ensures(SettingsStore::from_load, (outcome,), r),
    ensures
        outcome matches LoadOutcome::Parsed(s) ==> r.inner == s && !r.dirty,
        outcome is Missing ==> r.dirty,
        !(outcome is Missing) ==> !r.dirty,
        !(outcome is Parsed) ==> {
            let g = r.inner@.global;
            &&& r.inner@.plugins == Map::<Seq<char>, Map<Seq<char>, Seq<char>>>::empty()
            &&& r.inner@.displays == Map::<Seq<char>, DisplayPrefs>::empty()
            &&& g.target_extent == 1080
            &&& g.render_size_policy == RenderSizePolicy::OneAxisAuto
            &&& g.last_wallpaper is None
            &&& g.active_playlist_id is None
            &&& g.playlist_mode == "sequential"@
            &&& g.rotation_secs == 0
            &&& g.layout.fillmode == FillMode::Stretched
            &&& g.layout.align == Align::Center
        },
{
}

/// A renderer is asked for no size of its own under the native policy, for the
/// target on the axis that the policy names, and for the shorter side where it
/// names none.
pub proof fn size_policy_names_the_axis(
    policy: RenderSizePolicy,
    target: u32,
    r: (u32, u32, u32),
    asked: Option<RenderSizePolicy>,
    p: RenderSizePolicy,
)
    requires
        call_ensures(resolve_extent, (policy, target), r),
        call_ensures(asked_policy, (asked,), p),
    ensures
        policy == RenderSizePolicy::Native ==> r.0 == 0 && r.1 == 0,
        policy == RenderSizePolicy::OneAxisWidth ==> r.0 == target && r.1 == 0,
        policy == RenderSizePolicy::OneAxisHeight ==> r.0 == 0 && r.1 == target,
        policy == RenderSizePolicy::OneAxisAuto ==> r.0 == target && r.1 == target,
        r.2 == FIT_SHORTER <==> policy == RenderSizePolicy::OneAxisAuto,
        r.2 == AS_GIVEN <==> policy != RenderSizePolicy::OneAxisAuto,
        asked matches Some(x) ==> p == x,
        asked is None ==> p == RenderSizePolicy::OneAxisAuto,
{
}

} // verus!
