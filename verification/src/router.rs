//! Routing of renderers to displays.
//!
//! Every operation changes the routing state and appends the effects it calls
//! for, in order: messages to displays, control messages to renderers, timers
//! and events for subscribers. Whoever drives the router carries them out.

use crate::drm::DrmNode;
use crate::layout::{
    self, project_link, Align, FillMode, LinkGeometry, ProjectedConfig, ResolvedLayout,
};
use crate::negotiate::{self, pick, NegotiatedScheme, PeerCaps, PeerCapsView};
use crate::renderer::{self, ClearColor, RendererHandle, RendererView};
use crate::seqs;
use crate::settings::{self, Settings, SettingsView};
use crate::snapshot::{
    DisplayLinkSnapshot, DisplaySnapView, DisplaySnapshot, EventView, LinkSnapView,
    RendererSnapView, RendererSnapshot, RendererStatus, RouterEvent,
};
use crate::strmap;
use crate::text::{self, copy_opt, str_eq};
use vstd::prelude::*;

pub mod events;
pub mod laws;
pub mod ops;
pub mod outcomes;

verus! {

broadcast use seqs::group_views;

/// Milliseconds a renderer may stay paused before it is stopped.
pub const IDLE_KILL_TIMEOUT_MS: u64 = 3_600_000;

/// Milliseconds between two searches for renderers paused too long.
pub const IDLE_SCAN_INTERVAL_MS: u64 = 60_000;

/// Milliseconds a lone renderer keeps running without any display.
pub const ORPHAN_REAP_TIMEOUT_MS: u64 = 5_000;

/// A connection from a renderer to a display.
#[derive(Debug)]
pub struct Link {
    pub id: u64,
    pub renderer_id: String,
    pub display_id: u64,
    pub enabled: bool,
    pub geometry: LinkGeometry,
    pub z_order: i32,
}

pub struct LinkView {
    pub id: u64,
    pub renderer: Seq<char>,
    pub display: u64,
    pub enabled: bool,
    pub geometry: LinkGeometry,
    pub z_order: i32,
}

impl View for Link {
    type V = LinkView;

    open spec fn view(&self) -> LinkView {
        LinkView {
            id: self.id,
            renderer: self.renderer_id@,
            display: self.display_id,
            enabled: self.enabled,
            geometry: self.geometry,
            z_order: self.z_order,
        }
    }
}

/// What a display says of itself when it connects.
#[derive(Debug)]
pub struct DisplayRegistration {
    pub name: String,
    /// Identifier that stays the same across connections, where it has one.
    pub instance_id: Option<String>,
    pub width: u32,
    pub height: u32,
    pub refresh_mhz: u32,
    /// GPU the display samples buffers on.
    pub gpu: DrmNode,
    pub properties: Vec<(String, String)>,
    pub consumer_caps: Option<PeerCaps>,
}

/// A connected display.
#[derive(Debug)]
pub struct DisplayState {
    pub id: u64,
    pub name: String,
    pub instance_id: Option<String>,
    pub width: u32,
    pub height: u32,
    pub refresh_mhz: u32,
    pub properties: Vec<(String, String)>,
    pub gpu: DrmNode,
    /// Renderer the display was last bound to.
    pub last_renderer: Option<String>,
    /// Pool generation the display was last bound to.
    pub last_buffer_generation: Option<u64>,
    pub consumer_caps: Option<PeerCaps>,
}

#[verifier::ext_equal]
pub struct DisplayView {
    pub id: u64,
    pub name: Seq<char>,
    pub instance_id: Option<Seq<char>>,
    pub width: u32,
    pub height: u32,
    pub refresh_mhz: u32,
    pub properties: Seq<(Seq<char>, Seq<char>)>,
    pub gpu: DrmNode,
    pub last_renderer: Option<Seq<char>>,
    pub last_generation: Option<u64>,
    pub caps: Option<PeerCapsView>,
}

pub open spec fn caps_view(c: Option<PeerCaps>) -> Option<PeerCapsView> {
    match c {
        Some(c) => Some(c@),
        None => None,
    }
}

impl View for DisplayState {
    type V = DisplayView;

    open spec fn view(&self) -> DisplayView {
        DisplayView {
            id: self.id,
            name: self.name@,
            instance_id: text::opt_text(self.instance_id),
            width: self.width,
            height: self.height,
            refresh_mhz: self.refresh_mhz,
            properties: strmap::pairs_text(self.properties@),
            gpu: self.gpu,
            last_renderer: text::opt_text(self.last_renderer),
            last_generation: self.last_buffer_generation,
            caps: caps_view(self.consumer_caps),
        }
    }
}

/// A registered renderer, and since when it is paused.
#[derive(Debug)]
pub struct RendererEntry {
    pub handle: RendererHandle,
    pub paused_since: Option<u64>,
}

#[verifier::ext_equal]
pub struct EntryView {
    pub h: RendererView,
    pub paused: Option<u64>,
}

impl View for RendererEntry {
    type V = EntryView;

    open spec fn view(&self) -> EntryView {
        EntryView { h: self.handle@, paused: self.paused_since }
    }
}

/// A composition to be sent to a display once its layout is looked up.
#[derive(Debug)]
pub struct ConfigRequest {
    pub display: u64,
    pub name: String,
    pub instance_id: Option<String>,
    pub width: u32,
    pub height: u32,
    pub tex_w: u32,
    pub tex_h: u32,
    pub geometry: LinkGeometry,
    pub generation: u64,
}

pub struct ConfigView {
    pub display: u64,
    pub name: Seq<char>,
    pub instance_id: Option<Seq<char>>,
    pub width: u32,
    pub height: u32,
    pub tex: (u32, u32),
    pub geometry: LinkGeometry,
    pub generation: u64,
}

impl View for ConfigRequest {
    type V = ConfigView;

    open spec fn view(&self) -> ConfigView {
        ConfigView {
            display: self.display,
            name: self.name@,
            instance_id: text::opt_text(self.instance_id),
            width: self.width,
            height: self.height,
            tex: (self.tex_w, self.tex_h),
            geometry: self.geometry,
            generation: self.generation,
        }
    }
}

pub open spec fn effective_layout(
    settings: Option<SettingsView>,
    name: Seq<char>,
    instance_id: Option<Seq<char>>,
) -> ResolvedLayout {
    match settings {
        Some(s) => s.layout_for_display(name, instance_id),
        None => ResolvedLayout {
            fillmode: FillMode::Stretched,
            align: Align::Center,
            clear_rgba: renderer::opaque_black(),
        },
    }
}

/// Layout of a display; the built-in one while there are no settings.
pub fn resolved_layout(settings: Option<&Settings>, name: &str, instance_id: &Option<String>) -> (r:
    ResolvedLayout)
    ensures
        r == effective_layout(
            match settings {
                Some(s) => Some(s@),
                None => None,
            },
            name@,
            text::opt_text(*instance_id),
        ),
{
    match settings {
        Some(s) => s.layout_of(name, instance_id),
        None => ResolvedLayout {
            fillmode: FillMode::default(),
            align: Align::default(),
            clear_rgba: ClearColor::default(),
        },
    }
}

impl ConfigRequest {
    /// The composition under the given settings.
    pub fn project(&self, settings: Option<&Settings>) -> (r: ProjectedConfig)
        ensures
            r == layout::projection(
                self@.geometry,
                self@.tex,
                (self@.width, self@.height),
                self@.generation,
                effective_layout(
                    match settings {
                        Some(s) => Some(s@),
                        None => None,
                    },
                    self@.name,
                    self@.instance_id,
                ),
            ),
    {
        let l = resolved_layout(settings, self.name.as_str(), &self.instance_id);
        project_link(
            &self.geometry,
            (self.tex_w, self.tex_h),
            (self.width, self.height),
            self.generation,
            &l,
        )
    }
}

/// Something to be done outside.
#[derive(Debug)]
pub enum Effect {
    /// Hand the renderer's current pool to the display.
    Bind { display: u64, renderer: String, generation: u64 },
    /// Take a pool back from the display.
    Unbind { display: u64, generation: u64 },
    SetConfig(ConfigRequest),
    Frame {
        display: u64,
        renderer: String,
        generation: u64,
        buffer_index: u32,
        seq: u64,
        release_point: u64,
        /// Number of displays the frame goes to.
        expected_count: u32,
    },
    /// Nobody shows the frame: release it to the renderer.
    Advance { renderer: String, release_point: u64 },
    Play(String),
    Pause(String),
    Negotiate { renderer: String, scheme: NegotiatedScheme },
    Kill(String),
    StartTimer(String),
    CancelTimer(String),
    Emit(RouterEvent),
}

#[verifier::ext_equal]
pub enum EffectView {
    Bind { display: u64, renderer: Seq<char>, generation: u64 },
    Unbind { display: u64, generation: u64 },
    SetConfig(ConfigView),
    Frame {
        display: u64,
        renderer: Seq<char>,
        generation: u64,
        buffer_index: u32,
        seq: u64,
        release_point: u64,
        expected_count: u32,
    },
    Advance { renderer: Seq<char>, release_point: u64 },
    Play(Seq<char>),
    Pause(Seq<char>),
    Negotiate { renderer: Seq<char>, scheme: NegotiatedScheme },
    Kill(Seq<char>),
    StartTimer(Seq<char>),
    CancelTimer(Seq<char>),
    Emit(EventView),
}

impl View for Effect {
    type V = EffectView;

    open spec fn view(&self) -> EffectView {
        match self {
            Effect::Bind { display, renderer, generation } => EffectView::Bind {
                display: *display,
                renderer: renderer@,
                generation: *generation,
            },
            Effect::Unbind { display, generation } => EffectView::Unbind {
                display: *display,
                generation: *generation,
            },
            Effect::SetConfig(c) => EffectView::SetConfig(c@),
            Effect::Frame {
                display,
                renderer,
                generation,
                buffer_index,
                seq,
                release_point,
                expected_count,
            } => EffectView::Frame {
                display: *display,
                renderer: renderer@,
                generation: *generation,
                buffer_index: *buffer_index,
                seq: *seq,
                release_point: *release_point,
                expected_count: *expected_count,
            },
            Effect::Advance { renderer, release_point } => EffectView::Advance {
                renderer: renderer@,
                release_point: *release_point,
            },
            Effect::Play(r) => EffectView::Play(r@),
            Effect::Pause(r) => EffectView::Pause(r@),
            Effect::Negotiate { renderer, scheme } => EffectView::Negotiate {
                renderer: renderer@,
                scheme: *scheme,
            },
            Effect::Kill(r) => EffectView::Kill(r@),
            Effect::StartTimer(r) => EffectView::StartTimer(r@),
            Effect::CancelTimer(r) => EffectView::CancelTimer(r@),
            Effect::Emit(e) => EffectView::Emit(e@),
        }
    }
}

/// The routing state.
#[derive(Debug)]
pub struct Router {
    renderers: Vec<RendererEntry>,
    links: Vec<Link>,
    displays: Vec<DisplayState>,
    timers: Vec<String>,
    next_display_id: u64,
    next_link_id: u64,
    next_config_generation: u64,
}

#[verifier::ext_equal]
pub struct RouterView {
    /// Renderers in the order in which they were registered.
    pub renderers: Seq<EntryView>,
    pub links: Seq<LinkView>,
    /// Displays in the order in which they connected.
    pub displays: Seq<DisplayView>,
    /// Renderers whose grace period is running.
    pub timers: Set<Seq<char>>,
    pub next_display_id: u64,
    pub next_link_id: u64,
    pub next_config_generation: u64,
}

pub open spec fn text_set(v: Seq<String>) -> Set<Seq<char>> {
    Set::new(|k: Seq<char>| exists|i: int| 0 <= i < v.len() && (#[trigger] v[i])@ == k)
}

impl View for Router {
    type V = RouterView;

    closed spec fn view(&self) -> RouterView {
        RouterView {
            renderers: seqs::views(self.renderers@),
            links: seqs::views(self.links@),
            displays: seqs::views(self.displays@),
            timers: text_set(self.timers@),
            next_display_id: self.next_display_id,
            next_link_id: self.next_link_id,
            next_config_generation: self.next_config_generation,
        }
    }
}

/// Routing state together with the effects called for so far.
#[verifier::ext_equal]
pub struct Step {
    pub v: RouterView,
    pub fx: Seq<EffectView>,
}

pub open spec fn at(r: Router, out: Seq<Effect>) -> Step {
    Step { v: r@, fx: seqs::views(out) }
}

/// The number after `n`, starting over after the largest one.
pub open spec fn succ(n: u64) -> u64 {
    if n == u64::MAX {
        0
    } else {
        (n + 1) as u64
    }
}

fn next_number(n: u64) -> (r: u64)
    ensures
        r == succ(n),
{
    if n == u64::MAX {
        0
    } else {
        n + 1
    }
}

// ---------------------------------------------------------------------------
// Looking things up
// ---------------------------------------------------------------------------

pub open spec fn find_display(s: Seq<DisplayView>, id: u64) -> Option<DisplayView>
    decreases s.len(),
{
    if s.len() == 0 {
        None
    } else {
        match find_display(s.drop_last(), id) {
            Some(d) => Some(d),
            None => if s.last().id == id {
                Some(s.last())
            } else {
                None
            },
        }
    }
}

pub open spec fn find_entry(s: Seq<EntryView>, id: Seq<char>) -> Option<EntryView>
    decreases s.len(),
{
    if s.len() == 0 {
        None
    } else {
        match find_entry(s.drop_last(), id) {
            Some(e) => Some(e),
            None => if s.last().h.id == id {
                Some(s.last())
            } else {
                None
            },
        }
    }
}

/// First enabled link of a display.
pub open spec fn first_link(s: Seq<LinkView>, display: u64) -> Option<LinkView>
    decreases s.len(),
{
    if s.len() == 0 {
        None
    } else {
        match first_link(s.drop_last(), display) {
            Some(l) => Some(l),
            None => if s.last().display == display && s.last().enabled {
                Some(s.last())
            } else {
                None
            },
        }
    }
}

/// First link with an id.
pub open spec fn find_link(s: Seq<LinkView>, id: u64) -> Option<LinkView>
    decreases s.len(),
{
    if s.len() == 0 {
        None
    } else {
        match find_link(s.drop_last(), id) {
            Some(l) => Some(l),
            None => if s.last().id == id {
                Some(s.last())
            } else {
                None
            },
        }
    }
}

proof fn lemma_find_display(s: Seq<DisplayView>, id: u64, i: int)
    requires
        0 <= i <= s.len(),
        forall|j: int| 0 <= j < i ==> (#[trigger] s[j]).id != id,
        i < s.len() ==> s[i].id == id,
    ensures
        i < s.len() ==> find_display(s, id) == Some(s[i]),
        i == s.len() ==> find_display(s, id) is None,
    decreases s.len(),
{
    if s.len() > 0 {
        let t = s.drop_last();
        assert forall|j: int| 0 <= j < i && j < t.len() implies (#[trigger] t[j]).id != id by {
            assert(t[j] == s[j]);
        }
        if i < s.len() {
            lemma_find_display(t, id, i);
        } else {
            lemma_find_display(t, id, i - 1);
            assert(s.last() == s[i - 1]);
        }
    }
}

proof fn lemma_find_entry(s: Seq<EntryView>, id: Seq<char>, i: int)
    requires
        0 <= i <= s.len(),
        forall|j: int| 0 <= j < i ==> (#[trigger] s[j]).h.id != id,
        i < s.len() ==> s[i].h.id == id,
    ensures
        i < s.len() ==> find_entry(s, id) == Some(s[i]),
        i == s.len() ==> find_entry(s, id) is None,
    decreases s.len(),
{
    if s.len() > 0 {
        let t = s.drop_last();
        assert forall|j: int| 0 <= j < i && j < t.len() implies (#[trigger] t[j]).h.id != id by {
            assert(t[j] == s[j]);
        }
        if i < s.len() {
            lemma_find_entry(t, id, i);
        } else {
            lemma_find_entry(t, id, i - 1);
            assert(s.last() == s[i - 1]);
        }
    }
}

proof fn lemma_first_link(s: Seq<LinkView>, display: u64, i: int)
    requires
        0 <= i <= s.len(),
        forall|j: int|
            0 <= j < i ==> !((#[trigger] s[j]).display == display && s[j].enabled),
        i < s.len() ==> s[i].display == display && s[i].enabled,
    ensures
        i < s.len() ==> first_link(s, display) == Some(s[i]),
        i == s.len() ==> first_link(s, display) is None,
    decreases s.len(),
{
    if s.len() > 0 {
        let t = s.drop_last();
        assert forall|j: int| 0 <= j < i && j < t.len() implies !((#[trigger] t[j]).display
            == display && t[j].enabled) by {
            assert(t[j] == s[j]);
        }
        if i < s.len() {
            lemma_first_link(t, display, i);
        } else {
            lemma_first_link(t, display, i - 1);
            assert(s.last() == s[i - 1]);
        }
    }
}

proof fn lemma_find_link(s: Seq<LinkView>, id: u64, i: int)
    requires
        0 <= i <= s.len(),
        forall|j: int| 0 <= j < i ==> (#[trigger] s[j]).id != id,
        i < s.len() ==> s[i].id == id,
    ensures
        i < s.len() ==> find_link(s, id) == Some(s[i]),
        i == s.len() ==> find_link(s, id) is None,
    decreases s.len(),
{
    if s.len() > 0 {
        let t = s.drop_last();
        assert forall|j: int| 0 <= j < i && j < t.len() implies (#[trigger] t[j]).id != id by {
            assert(t[j] == s[j]);
        }
        if i < s.len() {
            lemma_find_link(t, id, i);
        } else {
            lemma_find_link(t, id, i - 1);
            assert(s.last() == s[i - 1]);
        }
    }
}

impl Router {
    fn display_index(&self, id: u64) -> (r: Option<usize>)
        ensures
            match r {
                Some(i) => {
                    &&& i < self.displays@.len()
                    &&& find_display(self@.displays, id) == Some(self.displays@[i as int]@)
                    &&& self.displays@[i as int].id == id
                    &&& forall|j: int| 0 <= j < i ==> (#[trigger] self@.displays[j]).id != id
                },
                None => find_display(self@.displays, id) is None,
            },
    {
        let mut i: usize = 0;
        while i < self.displays.len()
            invariant
                i <= self.displays@.len(),
                forall|j: int| 0 <= j < i ==> (#[trigger] self@.displays[j]).id != id,
            decreases self.displays.len() - i,
        {
            if self.displays[i].id == id {
                proof {
                    lemma_find_display(self@.displays, id, i as int);
                }
                return Some(i);
            }
            i = i + 1;
        }
        proof {
            lemma_find_display(self@.displays, id, i as int);
        }
        None
    }

    fn renderer_index(&self, id: &str) -> (r: Option<usize>)
        ensures
            match r {
                Some(i) => {
                    &&& i < self.renderers@.len()
                    &&& find_entry(self@.renderers, id@) == Some(self.renderers@[i as int]@)
                    &&& self.renderers@[i as int].handle.id@ == id@
                    &&& forall|j: int| 0 <= j < i ==> (#[trigger] self@.renderers[j]).h.id != id@
                },
                None => find_entry(self@.renderers, id@) is None,
            },
    {
        let mut i: usize = 0;
        while i < self.renderers.len()
            invariant
                i <= self.renderers@.len(),
                forall|j: int| 0 <= j < i ==> (#[trigger] self@.renderers[j]).h.id != id@,
            decreases self.renderers.len() - i,
        {
            if str_eq(self.renderers[i].handle.id.as_str(), id) {
                proof {
                    lemma_find_entry(self@.renderers, id@, i as int);
                }
                return Some(i);
            }
            i = i + 1;
        }
        proof {
            lemma_find_entry(self@.renderers, id@, i as int);
        }
        None
    }

    fn first_link_index(&self, display: u64) -> (r: Option<usize>)
        ensures
            match r {
                Some(i) => i < self.links@.len() && first_link(self@.links, display) == Some(
                    self.links@[i as int]@,
                ),
                None => first_link(self@.links, display) is None,
            },
    {
        let mut i: usize = 0;
        while i < self.links.len()
            invariant
                i <= self.links@.len(),
                forall|j: int|
                    0 <= j < i ==> !((#[trigger] self@.links[j]).display == display
                        && self@.links[j].enabled),
            decreases self.links.len() - i,
        {
            if self.links[i].display_id == display && self.links[i].enabled {
                proof {
                    lemma_first_link(self@.links, display, i as int);
                }
                return Some(i);
            }
            i = i + 1;
        }
        proof {
            lemma_first_link(self@.links, display, i as int);
        }
        None
    }

    fn link_index(&self, id: u64) -> (r: Option<usize>)
        ensures
            match r {
                Some(i) => {
                    &&& i < self.links@.len()
                    &&& find_link(self@.links, id) == Some(self.links@[i as int]@)
                    &&& self.links@[i as int].id == id
                    &&& forall|j: int| 0 <= j < i ==> (#[trigger] self@.links[j]).id != id
                },
                None => find_link(self@.links, id) is None,
            },
    {
        let mut i: usize = 0;
        while i < self.links.len()
            invariant
                i <= self.links@.len(),
                forall|j: int| 0 <= j < i ==> (#[trigger] self@.links[j]).id != id,
            decreases self.links.len() - i,
        {
            if self.links[i].id == id {
                proof {
                    lemma_find_link(self@.links, id, i as int);
                }
                return Some(i);
            }
            i = i + 1;
        }
        proof {
            lemma_find_link(self@.links, id, i as int);
        }
        None
    }
}

/// The entries with the first renderer of that id replaced.
pub open spec fn with_handle(s: Seq<EntryView>, id: Seq<char>, h: RendererView) -> Seq<EntryView>
    decreases s.len(),
{
    if s.len() == 0 {
        s
    } else if find_entry(s.drop_last(), id) is Some {
        with_handle(s.drop_last(), id, h).push(s.last())
    } else if s.last().h.id == id {
        s.drop_last().push(EntryView { h, ..s.last() })
    } else {
        s
    }
}

/// The displays with the first one of that id replaced.
pub open spec fn with_display(s: Seq<DisplayView>, id: u64, d: DisplayView) -> Seq<DisplayView>
    decreases s.len(),
{
    if s.len() == 0 {
        s
    } else if find_display(s.drop_last(), id) is Some {
        with_display(s.drop_last(), id, d).push(s.last())
    } else if s.last().id == id {
        s.drop_last().push(d)
    } else {
        s
    }
}

/// The links with the first one of that id replaced.
pub open spec fn with_link(s: Seq<LinkView>, id: u64, l: LinkView) -> Seq<LinkView>
    decreases s.len(),
{
    if s.len() == 0 {
        s
    } else if find_link(s.drop_last(), id) is Some {
        with_link(s.drop_last(), id, l).push(s.last())
    } else if s.last().id == id {
        s.drop_last().push(l)
    } else {
        s
    }
}

proof fn lemma_with_handle(s: Seq<EntryView>, id: Seq<char>, h: RendererView, i: int)
    requires
        0 <= i < s.len(),
        forall|j: int| 0 <= j < i ==> (#[trigger] s[j]).h.id != id,
        s[i].h.id == id,
    ensures
        with_handle(s, id, h) == s.update(i, EntryView { h, ..s[i] }),
    decreases s.len(),
{
    let t = s.drop_last();
    assert forall|j: int| 0 <= j < i implies (#[trigger] t[j]).h.id != id by {
        assert(t[j] == s[j]);
    }
    lemma_find_entry(t, id, i);
    if i < t.len() {
        lemma_with_handle(t, id, h, i);
        assert(t.update(i, EntryView { h, ..s[i] }).push(s.last()) =~= s.update(
            i,
            EntryView { h, ..s[i] },
        ));
    } else {
        assert(t.push(EntryView { h, ..s.last() }) =~= s.update(i, EntryView { h, ..s[i] }));
    }
}

proof fn lemma_with_display(s: Seq<DisplayView>, id: u64, d: DisplayView, i: int)
    requires
        0 <= i < s.len(),
        forall|j: int| 0 <= j < i ==> (#[trigger] s[j]).id != id,
        s[i].id == id,
    ensures
        with_display(s, id, d) == s.update(i, d),
    decreases s.len(),
{
    let t = s.drop_last();
    assert forall|j: int| 0 <= j < i implies (#[trigger] t[j]).id != id by {
        assert(t[j] == s[j]);
    }
    lemma_find_display(t, id, i);
    if i < t.len() {
        lemma_with_display(t, id, d, i);
        assert(t.update(i, d).push(s.last()) =~= s.update(i, d));
    } else {
        assert(t.push(d) =~= s.update(i, d));
    }
}

proof fn lemma_with_link(s: Seq<LinkView>, id: u64, l: LinkView, i: int)
    requires
        0 <= i < s.len(),
        forall|j: int| 0 <= j < i ==> (#[trigger] s[j]).id != id,
        s[i].id == id,
    ensures
        with_link(s, id, l) == s.update(i, l),
    decreases s.len(),
{
    let t = s.drop_last();
    assert forall|j: int| 0 <= j < i implies (#[trigger] t[j]).id != id by {
        assert(t[j] == s[j]);
    }
    lemma_find_link(t, id, i);
    if i < t.len() {
        lemma_with_link(t, id, l, i);
        assert(t.update(i, l).push(s.last()) =~= s.update(i, l));
    } else {
        assert(t.push(l) =~= s.update(i, l));
    }
}

/// Some enabled link leads from the renderer to a display.
pub open spec fn active(links: Seq<LinkView>, rid: Seq<char>) -> bool {
    exists|i: int| 0 <= i < links.len() && (#[trigger] links[i]).renderer == rid && links[i].enabled
}

impl Router {
    fn is_active(&self, rid: &str) -> (r: bool)
        ensures
            r == active(self@.links, rid@),
    {
        let mut i: usize = 0;
        while i < self.links.len()
            invariant
                i <= self.links@.len(),
                forall|j: int|
                    0 <= j < i ==> !((#[trigger] self@.links[j]).renderer == rid@
                        && self@.links[j].enabled),
            decreases self.links.len() - i,
        {
            if self.links[i].enabled && str_eq(self.links[i].renderer_id.as_str(), rid) {
                assert(self@.links[i as int].renderer == rid@);
                return true;
            }
            i = i + 1;
        }
        false
    }
}

// ---------------------------------------------------------------------------
// Bringing a display in line
// ---------------------------------------------------------------------------

/// The link, renderer and pool generation a display should show.
pub open spec fn target(v: RouterView, display: u64) -> Option<(LinkView, RendererView, u64)> {
    match first_link(v.links, display) {
        None => None,
        Some(l) => match find_entry(v.renderers, l.renderer) {
            None => None,
            Some(e) => match e.h.bind {
                None => None,
                Some(b) => Some((l, e.h, b.generation)),
            },
        },
    }
}

/// A new binding waits while both sides negotiate and the renderer has not
/// delivered the negotiated pool yet.
pub open spec fn gated(t: Option<(LinkView, RendererView, u64)>, d: DisplayView) -> bool {
    match t {
        Some((_, r, _)) => r.caps is Some && d.caps is Some && !r.satisfied(),
        None => false,
    }
}

/// What the display was told last differs from what it should show.
pub open spec fn outdated(t: Option<(LinkView, RendererView, u64)>, d: DisplayView) -> bool {
    match (d.last_renderer, d.last_generation, t) {
        (Some(r), Some(g), Some((l, _, n))) => r != l.renderer || g != n,
        (None, None, None) => false,
        _ => true,
    }
}

pub open spec fn with_last(
    s: Seq<DisplayView>,
    id: u64,
    renderer: Option<Seq<char>>,
    generation: Option<u64>,
) -> Seq<DisplayView> {
    Seq::new(
        s.len(),
        |i: int|
            if s[i].id == id {
                DisplayView { last_renderer: renderer, last_generation: generation, ..s[i] }
            } else {
                s[i]
            },
    )
}

pub open spec fn config_for(
    d: DisplayView,
    l: LinkView,
    r: RendererView,
    generation: u64,
) -> ConfigView {
    ConfigView {
        display: d.id,
        name: d.name,
        instance_id: d.instance_id,
        width: d.width,
        height: d.height,
        tex: r.texture(),
        geometry: l.geometry,
        generation,
    }
}

/// Tells a display what it should show, if that differs from what it was told
/// last: the old pool is retired, then the new one bound and configured.
pub open spec fn sync(s: Step, id: u64) -> Step {
    match find_display(s.v.displays, id) {
        None => s,
        Some(d) => {
            let t = target(s.v, id);
            if gated(t, d) || !outdated(t, d) {
                s
            } else {
                let retired = match d.last_generation {
                    Some(g) => s.fx.push(EffectView::Unbind { display: id, generation: g }),
                    None => s.fx,
                };
                match t {
                    Some((l, r, g)) => {
                        let n = succ(s.v.next_config_generation);
                        Step {
                            v: RouterView {
                                displays: with_last(
                                    s.v.displays,
                                    id,
                                    Some(l.renderer),
                                    Some(g),
                                ),
                                next_config_generation: n,
                                ..s.v
                            },
                            fx: retired.push(
                                EffectView::Bind { display: id, renderer: l.renderer, generation: g },
                            ).push(EffectView::SetConfig(config_for(d, l, r, n))),
                        }
                    },
                    None => Step {
                        v: RouterView { displays: with_last(s.v.displays, id, None, None), ..s.v },
                        fx: retired,
                    },
                }
            }
        },
    }
}

/// The display was told what it should show, or waits for it.
pub open spec fn up_to_date(v: RouterView, id: u64) -> bool {
    match find_display(v.displays, id) {
        Some(d) => gated(target(v, id), d) || !outdated(target(v, id), d),
        None => true,
    }
}

/// [`sync`] for the first `n` of the displays.
pub open spec fn sync_all(s: Step, ids: Seq<u64>, n: int) -> Step
    decreases n,
{
    if n <= 0 {
        s
    } else {
        sync(sync_all(s, ids, n - 1), ids[n - 1])
    }
}

impl Router {
    fn set_last(&mut self, id: u64, renderer: Option<String>, generation: Option<u64>)
        ensures
            final(self)@ == (RouterView {
                displays: with_last(
                    old(self)@.displays,
                    id,
                    text::opt_text(renderer),
                    generation,
                ),
                ..old(self)@
            }),
    {
        let ghost before = self@;
        let ghost want = with_last(before.displays, id, text::opt_text(renderer), generation);
        let mut i: usize = 0;
        while i < self.displays.len()
            invariant
                i <= self.displays@.len(),
                self@ == (RouterView { displays: self@.displays, ..before }),
                self@.displays.len() == before.displays.len(),
                self.displays@.len() == before.displays.len(),
                want == with_last(before.displays, id, text::opt_text(renderer), generation),
                forall|j: int| 0 <= j < i ==> #[trigger] self@.displays[j] == want[j],
                forall|j: int|
                    i <= j < before.displays.len() ==> #[trigger] self@.displays[j]
                        == before.displays[j],
            decreases self.displays.len() - i,
        {
            assert(self@.displays[i as int] == before.displays[i as int]);
            let ghost mid = self@.displays;
            if self.displays[i].id == id {
                self.displays[i].last_renderer = copy_opt(&renderer);
                self.displays[i].last_buffer_generation = generation;
                assert(self.displays@[i as int]@ == want[i as int]);
            }
            assert(forall|j: int|
                0 <= j < mid.len() && j != i ==> #[trigger] self@.displays[j] == mid[j]);
            i = i + 1;
        }
        assert(self@.displays =~= want);
    }

    fn config_request(&self, di: usize, li: usize, ri: usize, generation: u64) -> (c: ConfigRequest)
        requires
            di < self.displays@.len(),
            li < self.links@.len(),
            ri < self.renderers@.len(),
        ensures
            c@ == config_for(
                self.displays@[di as int]@,
                self.links@[li as int]@,
                self.renderers@[ri as int]@.h,
                generation,
            ),
    {
        let d = &self.displays[di];
        let tex: (u32, u32) = self.renderers[ri].handle.texture_size();
        ConfigRequest {
            display: d.id,
            name: d.name.clone(),
            instance_id: copy_opt(&d.instance_id),
            width: d.width,
            height: d.height,
            tex_w: tex.0,
            tex_h: tex.1,
            geometry: self.links[li].geometry,
            generation,
        }
    }

    /// Positions of the link and renderer a display should show, and the pool
    /// generation.
    fn find_target(&self, id: u64) -> (r: Option<(usize, usize, u64)>)
        ensures
            match r {
                Some((l, n, g)) => l < self.links@.len() && n < self.renderers@.len() && target(
                    self@,
                    id,
                ) == Some((self.links@[l as int]@, self.renderers@[n as int]@.h, g)),
                None => target(self@, id) is None,
            },
    {
        match self.first_link_index(id) {
            None => None,
            Some(l) => match self.renderer_index(self.links[l].renderer_id.as_str()) {
                None => None,
                Some(n) => match self.renderers[n].handle.bind_generation() {
                    None => None,
                    Some(g) => Some((l, n, g)),
                },
            },
        }
    }

    /// Brings what a display was told in line with what it should show. A
    /// display that is up to date is told nothing.
    pub fn sync_display(&mut self, id: u64, out: &mut Vec<Effect>)
        ensures
            at(*final(self), final(out)@) == sync(at(*old(self), old(out)@), id),
            up_to_date(final(self)@, id),
    {
        proof {
            laws::synced_display_is_up_to_date(at(*self, out@), id);
        }
        let di: usize = match self.display_index(id) {
            None => {
                return;
            },
            Some(i) => i,
        };
        let t = self.find_target(id);
        if let Some((_, n, _)) = t {
            if self.renderers[n].handle.format_caps.is_some()
                && self.displays[di].consumer_caps.is_some()
                && !self.renderers[n].handle.scheme_satisfied() {
                return;
            }
        }
        let last_generation: Option<u64> = self.displays[di].last_buffer_generation;
        let stale = match (&self.displays[di].last_renderer, last_generation, t) {
            (Some(r), Some(g), Some((l, _, n))) => !str_eq(
                r.as_str(),
                self.links[l].renderer_id.as_str(),
            ) || g != n,
            (None, None, None) => false,
            _ => true,
        };
        if !stale {
            return;
        }
        if let Some(g) = last_generation {
            out.push(Effect::Unbind { display: id, generation: g });
        }
        match t {
            Some((l, n, g)) => {
                let cfg: u64 = next_number(self.next_config_generation);
                let config = self.config_request(di, l, n, cfg);
                let rid = self.links[l].renderer_id.clone();
                out.push(Effect::Bind { display: id, renderer: rid.clone(), generation: g });
                out.push(Effect::SetConfig(config));
                self.next_config_generation = cfg;
                self.set_last(id, Some(rid), Some(g));
            },
            None => {
                self.set_last(id, None, None);
            },
        }
    }

    fn sync_displays(&mut self, ids: &Vec<u64>, out: &mut Vec<Effect>)
        ensures
            at(*final(self), final(out)@) == sync_all(
                at(*old(self), old(out)@),
                ids@,
                ids@.len() as int,
            ),
    {
        let ghost start = at(*self, out@);
        let mut i: usize = 0;
        while i < ids.len()
            invariant
                i <= ids@.len(),
                at(*self, out@) == sync_all(start, ids@, i as int),
            decreases ids.len() - i,
        {
            self.sync_display(ids[i], out);
            i = i + 1;
        }
    }
}

// ---------------------------------------------------------------------------
// Snapshots
// ---------------------------------------------------------------------------

/// Enabled links of a display, in link order.
pub open spec fn shown_links(links: Seq<LinkView>, display: u64) -> Seq<LinkSnapView>
    decreases links.len(),
{
    if links.len() == 0 {
        Seq::empty()
    } else {
        let l = links.last();
        let rest = shown_links(links.drop_last(), display);
        if l.display == display && l.enabled {
            rest.push(LinkSnapView { renderer: l.renderer, z_order: l.z_order })
        } else {
            rest
        }
    }
}

pub open spec fn display_snap(links: Seq<LinkView>, d: DisplayView) -> DisplaySnapView {
    DisplaySnapView {
        id: d.id,
        name: d.name,
        width: d.width,
        height: d.height,
        refresh_mhz: d.refresh_mhz,
        links: shown_links(links, d.id),
        drm_render_major: d.gpu.major,
        drm_render_minor: d.gpu.minor,
    }
}

pub open spec fn display_snaps(v: RouterView) -> Seq<DisplaySnapView> {
    Seq::new(v.displays.len(), |i: int| display_snap(v.links, v.displays[i]))
}

pub open spec fn renderer_snap(e: EntryView) -> RendererSnapView {
    RendererSnapView {
        id: e.h.id,
        wp_type: e.h.wp_type,
        name: e.h.name,
        status: if e.paused is Some {
            RendererStatus::Paused
        } else {
            RendererStatus::Playing
        },
        pid: match e.h.pid {
            Some(p) => p,
            None => 0,
        },
        drm_render_major: e.h.gpu.major,
        drm_render_minor: e.h.gpu.minor,
        texture_width: e.h.texture().0,
        texture_height: e.h.texture().1,
    }
}

pub open spec fn renderer_snaps(v: RouterView) -> Seq<RendererSnapView> {
    Seq::new(v.renderers.len(), |i: int| renderer_snap(v.renderers[i]))
}

/// In ascending order of ids.
pub open spec fn sorted_by_id(s: Seq<RendererSnapView>) -> bool {
    forall|i: int, j: int|
        0 <= i < j < s.len() ==> !text::text_less((#[trigger] s[j]).id, (#[trigger] s[i]).id)
}

fn entry_snapshot(e: &RendererEntry) -> (r: RendererSnapshot)
    ensures
        r@ == renderer_snap(e@),
{
    let tex: (u32, u32) = e.handle.texture_size();
    RendererSnapshot {
        id: e.handle.id.clone(),
        wp_type: e.handle.wp_type.clone(),
        name: e.handle.name.clone(),
        status: if e.paused_since.is_some() {
            RendererStatus::Paused
        } else {
            RendererStatus::Playing
        },
        pid: match e.handle.pid {
            Some(p) => p,
            None => 0,
        },
        drm_render_major: e.handle.gpu.major,
        drm_render_minor: e.handle.gpu.minor,
        texture_width: tex.0,
        texture_height: tex.1,
    }
}

impl Router {
    fn links_shown(&self, display: u64) -> (out: Vec<DisplayLinkSnapshot>)
        ensures
            seqs::views(out@) == shown_links(self@.links, display),
    {
        let mut out: Vec<DisplayLinkSnapshot> = Vec::new();
        let mut i: usize = 0;
        let ghost links = self@.links;
        while i < self.links.len()
            invariant
                i <= self.links@.len(),
                links == self@.links,
                seqs::views(out@) == shown_links(links.take(i as int), display),
            decreases self.links.len() - i,
        {
            proof {
                assert(links.take(i + 1).drop_last() =~= links.take(i as int));
                assert(links.take(i + 1).last() == self.links@[i as int]@);
            }
            if self.links[i].display_id == display && self.links[i].enabled {
                out.push(
                    DisplayLinkSnapshot {
                        renderer_id: self.links[i].renderer_id.clone(),
                        z_order: self.links[i].z_order,
                    },
                );
            }
            i = i + 1;
        }
        assert(links.take(i as int) =~= links);
        out
    }

    fn display_picture(&self, i: usize) -> (r: DisplaySnapshot)
        requires
            i < self.displays@.len(),
        ensures
            r@ == display_snap(self@.links, self.displays@[i as int]@),
    {
        let d = &self.displays[i];
        DisplaySnapshot {
            id: d.id,
            name: d.name.clone(),
            width: d.width,
            height: d.height,
            refresh_mhz: d.refresh_mhz,
            links: self.links_shown(d.id),
            drm_render_major: d.gpu.major,
            drm_render_minor: d.gpu.minor,
        }
    }

    /// Picture of one display.
    pub fn snapshot_display(&self, id: u64) -> (r: Option<DisplaySnapshot>)
        ensures
            match find_display(self@.displays, id) {
                Some(d) => r is Some && r->0@ == display_snap(self@.links, d),
                None => r is None,
            },
    {
        match self.display_index(id) {
            Some(i) => Some(self.display_picture(i)),
            None => None,
        }
    }

    /// Pictures of all displays in the order in which they connected.
    pub fn snapshot_displays(&self) -> (out: Vec<DisplaySnapshot>)
        ensures
            seqs::views(out@) == display_snaps(self@),
    {
        let mut out: Vec<DisplaySnapshot> = Vec::new();
        let mut i: usize = 0;
        while i < self.displays.len()
            invariant
                i <= self.displays@.len(),
                seqs::views(out@) == display_snaps(self@).take(i as int),
            decreases self.displays.len() - i,
        {
            let p = self.display_picture(i);
            out.push(p);
            i = i + 1;
            assert(seqs::views(out@) =~= display_snaps(self@).take(i as int));
        }
        assert(display_snaps(self@).take(i as int) =~= display_snaps(self@));
        out
    }

    /// Picture of one renderer.
    pub fn snapshot_renderer(&self, id: &str) -> (r: Option<RendererSnapshot>)
        ensures
            match find_entry(self@.renderers, id@) {
                Some(e) => r is Some && r->0@ == renderer_snap(e),
                None => r is None,
            },
    {
        match self.renderer_index(id) {
            Some(i) => Some(entry_snapshot(&self.renderers[i])),
            None => None,
        }
    }

    /// Pictures of all renderers in ascending order of ids.
    pub fn snapshot_renderers(&self) -> (out: Vec<RendererSnapshot>)
        ensures
            sorted_by_id(seqs::views(out@)),
            seqs::views(out@).to_multiset() == renderer_snaps(self@).to_multiset(),
    {
        let mut out: Vec<RendererSnapshot> = Vec::new();
        let ghost all = renderer_snaps(self@);
        let mut i: usize = 0;
        assert(seqs::views(out@) =~= all.take(0));
        while i < self.renderers.len()
            invariant
                i <= self.renderers@.len(),
                all == renderer_snaps(self@),
                sorted_by_id(seqs::views(out@)),
                seqs::views(out@).to_multiset() == all.take(i as int).to_multiset(),
            decreases self.renderers.len() - i,
        {
            let p = entry_snapshot(&self.renderers[i]);
            insert_by_id(&mut out, p);
            proof {
                assert(all.take(i + 1) =~= all.take(i as int).push(all[i as int]));
                broadcast use vstd::seq_lib::group_to_multiset_ensures;

            }
            i = i + 1;
        }
        assert(all.take(i as int) =~= all);
        out
    }

    /// Number of connected displays.
    pub fn display_count(&self) -> (n: usize)
        ensures
            n == self@.displays.len(),
    {
        self.displays.len()
    }

    /// What is kept of a connected display.
    pub fn display(&self, id: u64) -> (r: Option<&DisplayState>)
        ensures
            match r {
                Some(d) => find_display(self@.displays, id) == Some(d@),
                None => find_display(self@.displays, id) is None,
            },
    {
        match self.display_index(id) {
            Some(i) => Some(&self.displays[i]),
            None => None,
        }
    }

    /// What is kept of a renderer.
    pub fn handle(&self, id: &str) -> (r: Option<&RendererHandle>)
        ensures
            match r {
                Some(h) => find_entry(self@.renderers, id@) is Some && find_entry(
                    self@.renderers,
                    id@,
                )->0.h == h@,
                None => find_entry(self@.renderers, id@) is None,
            },
    {
        match self.renderer_index(id) {
            Some(i) => Some(&self.renderers[i].handle),
            None => None,
        }
    }

    /// Whether a renderer is held because nothing shows it.
    pub fn is_paused(&self, id: &str) -> (r: bool)
        ensures
            r == match find_entry(self@.renderers, id@) {
                Some(e) => e.paused is Some,
                None => false,
            },
    {
        match self.renderer_index(id) {
            Some(i) => self.renderers[i].paused_since.is_some(),
            None => false,
        }
    }
}

fn insert_by_id(out: &mut Vec<RendererSnapshot>, p: RendererSnapshot)
    requires
        sorted_by_id(seqs::views(old(out)@)),
    ensures
        sorted_by_id(seqs::views(final(out)@)),
        seqs::views(final(out)@).to_multiset() == seqs::views(old(out)@).push(p@).to_multiset(),
{
    let ghost before = seqs::views(out@);
    let ghost x = p@;
    let mut i: usize = 0;
    while i < out.len() && !text::str_less(p.id.as_str(), out[i].id.as_str())
        invariant
            i <= out@.len(),
            before == seqs::views(out@),
            x == p@,
            forall|j: int| 0 <= j < i ==> !text::text_less(x.id, (#[trigger] before[j]).id),
        decreases out.len() - i,
    {
        i = i + 1;
    }
    out.insert(i, p);
    proof {
        let after = seqs::views(out@);
        assert(after =~= before.insert(i as int, x));
        broadcast use vstd::seq_lib::group_to_multiset_ensures;

        assert(after.remove(i as int) =~= before);
        assert(after.contains(after[i as int]));
        assert(after.to_multiset() =~= before.to_multiset().insert(x));

        assert forall|a: int, b: int| 0 <= a < b < after.len() implies !text::text_less(
            (#[trigger] after[b]).id,
            (#[trigger] after[a]).id,
        ) by {
            let y = if b < i {
                b
            } else {
                b - 1
            };
            let z = if a < i {
                a
            } else {
                a - 1
            };
            if b == i {
                assert(after[a] == before[a]);
            } else if a == i {
                assert(after[b] == before[b - 1]);
                text::text_less_is_total(x.id, before[i as int].id);
                if text::text_less(before[b - 1].id, x.id) {
                    text::text_less_is_transitive(before[b - 1].id, x.id, before[i as int].id);
                    if b - 1 > i {
                        assert(!text::text_less(before[b - 1].id, before[i as int].id));
                    } else {
                        text::text_less_is_total(x.id, before[i as int].id);
                    }
                }
            } else {
                assert(after[a] == before[z] && after[b] == before[y]);
            }
        }
    }
}

// ---------------------------------------------------------------------------
// Pausing and resuming
// ---------------------------------------------------------------------------

/// Since when an entry is paused once the links are taken into account.
pub open spec fn paused_after(links: Seq<LinkView>, e: EntryView, now: u64) -> Option<u64> {
    if active(links, e.h.id) {
        None
    } else if e.paused is Some {
        e.paused
    } else {
        Some(now)
    }
}

pub open spec fn settled(v: RouterView, now: u64) -> Seq<EntryView> {
    Seq::new(
        v.renderers.len(),
        |i: int|
            EntryView {
                paused: paused_after(v.links, v.renderers[i], now),
                ..v.renderers[i]
            },
    )
}

/// The entry is paused although it is shown, or runs although it is not.
pub open spec fn unsettled(links: Seq<LinkView>, e: EntryView) -> bool {
    active(links, e.h.id) == (e.paused is Some)
}

/// Control messages for the first `n` renderers.
pub open spec fn controls(v: RouterView, n: int) -> Seq<EffectView>
    decreases n,
{
    if n <= 0 {
        Seq::empty()
    } else {
        let e = v.renderers[n - 1];
        let rest = controls(v, n - 1);
        if !unsettled(v.links, e) {
            rest
        } else if e.paused is Some {
            rest.push(EffectView::Play(e.h.id))
        } else {
            rest.push(EffectView::Pause(e.h.id))
        }
    }
}

/// Events for those of the first `n` renderers whose status changes.
pub open spec fn status_events(v: RouterView, now: u64, n: int) -> Seq<EffectView>
    decreases n,
{
    if n <= 0 {
        Seq::empty()
    } else {
        let rest = status_events(v, now, n - 1);
        if unsettled(v.links, v.renderers[n - 1]) {
            rest.push(
                EffectView::Emit(EventView::RendererUpsert(renderer_snap(settled(v, now)[n - 1]))),
            )
        } else {
            rest
        }
    }
}

/// Pauses every renderer that nothing shows and resumes the others.
pub open spec fn lifecycle(s: Step, now: u64) -> Step {
    let n = s.v.renderers.len() as int;
    Step {
        v: RouterView { renderers: settled(s.v, now), ..s.v },
        fx: s.fx + controls(s.v, n) + status_events(s.v, now, n),
    }
}

impl Router {
    fn reconcile_lifecycle(&mut self, now: u64, out: &mut Vec<Effect>)
        ensures
            at(*final(self), final(out)@) == lifecycle(at(*old(self), old(out)@), now),
    {
        let ghost before = self@;
        let ghost want = settled(before, now);
        let ghost fx = seqs::views(out@);
        let mut flags: Vec<bool> = Vec::new();
        let mut i: usize = 0;
        assert(fx + controls(before, 0) =~= fx);
        while i < self.renderers.len()
            invariant
                i <= self.renderers@.len(),
                self@ == (RouterView { renderers: self@.renderers, ..before }),
                self@.renderers.len() == before.renderers.len(),
                self.renderers@.len() == before.renderers.len(),
                want == settled(before, now),
                flags@.len() == i,
                forall|j: int|
                    0 <= j < i ==> #[trigger] flags@[j] == unsettled(
                        before.links,
                        before.renderers[j],
                    ),
                forall|j: int| 0 <= j < i ==> #[trigger] self@.renderers[j] == want[j],
                forall|j: int|
                    i <= j < before.renderers.len() ==> #[trigger] self@.renderers[j]
                        == before.renderers[j],
                seqs::views(out@) == fx + controls(before, i as int),
            decreases self.renderers.len() - i,
        {
            let ghost mid = self@.renderers;
            assert(mid[i as int] == before.renderers[i as int]);
            let act = self.is_active(self.renderers[i].handle.id.as_str());
            let was = self.renderers[i].paused_since.is_some();
            if act && was {
                out.push(Effect::Play(self.renderers[i].handle.id.clone()));
                self.renderers[i].paused_since = None;
                assert(self.renderers@[i as int]@ == want[i as int]);
            } else if !act && !was {
                out.push(Effect::Pause(self.renderers[i].handle.id.clone()));
                self.renderers[i].paused_since = Some(now);
                assert(self.renderers@[i as int]@ == want[i as int]);
            }
            flags.push(act == was);
            assert(forall|j: int|
                0 <= j < mid.len() && j != i ==> #[trigger] self@.renderers[j] == mid[j]);
            assert(self@.renderers[i as int] == want[i as int]);
            i = i + 1;
            assert(seqs::views(out@) =~= fx + controls(before, i as int));
        }
        assert(self@.renderers =~= want);
        let ghost head = seqs::views(out@);
        let mut k: usize = 0;
        assert(head + status_events(before, now, 0) =~= head);
        while k < self.renderers.len()
            invariant
                k <= self.renderers@.len(),
                self@.renderers == want,
                want == settled(before, now),
                flags@.len() == before.renderers.len(),
                self.renderers@.len() == before.renderers.len(),
                forall|j: int|
                    0 <= j < flags@.len() ==> #[trigger] flags@[j] == unsettled(
                        before.links,
                        before.renderers[j],
                    ),
                seqs::views(out@) == head + status_events(before, now, k as int),
            decreases self.renderers.len() - k,
        {
            if flags[k] {
                assert(self.renderers@[k as int]@ == want[k as int]);
                out.push(
                    Effect::Emit(RouterEvent::RendererUpsert(entry_snapshot(&self.renderers[k]))),
                );
            }
            k = k + 1;
            assert(seqs::views(out@) =~= head + status_events(before, now, k as int));
        }
        assert(at(*self, out@) =~= lifecycle(Step { v: before, fx }, now));
    }
}

// ---------------------------------------------------------------------------
// Negotiating buffers
// ---------------------------------------------------------------------------

/// The scheme for a renderer from the first `n` links: the one picked for the
/// last display that a scheme could be picked for.
pub open spec fn chosen_scheme(v: RouterView, r: RendererView, n: int) -> Option<NegotiatedScheme>
    decreases n,
{
    if n <= 0 {
        None
    } else {
        let l = v.links[n - 1];
        let before = chosen_scheme(v, r, n - 1);
        if l.renderer == r.id && l.enabled {
            match find_display(v.displays, l.display) {
                Some(d) => match (r.caps, d.caps) {
                    (Some(p), Some(c)) => match negotiate::pick_result(p, c) {
                        Ok(scheme) => Some(scheme),
                        Err(_) => before,
                    },
                    _ => before,
                },
                None => before,
            }
        } else {
            before
        }
    }
}

/// Negotiation messages for the first `n` renderers: one for each whose scheme
/// is not the one it was told last.
pub open spec fn negotiations(v: RouterView, n: int) -> Seq<EffectView>
    decreases n,
{
    if n <= 0 {
        Seq::empty()
    } else {
        let r = v.renderers[n - 1].h;
        let rest = negotiations(v, n - 1);
        match chosen_scheme(v, r, v.links.len() as int) {
            Some(scheme) => if r.scheme == Some(scheme) {
                rest
            } else {
                rest.push(EffectView::Negotiate { renderer: r.id, scheme })
            },
            None => rest,
        }
    }
}

pub open spec fn negotiate_all(s: Step) -> Step {
    Step { v: s.v, fx: s.fx + negotiations(s.v, s.v.renderers.len() as int) }
}

impl Router {
    fn scheme_for(&self, ri: usize) -> (r: Option<NegotiatedScheme>)
        requires
            ri < self.renderers@.len(),
        ensures
            r == chosen_scheme(self@, self.renderers@[ri as int]@.h, self@.links.len() as int),
    {
        let ghost h = self.renderers@[ri as int]@.h;
        let mut best: Option<NegotiatedScheme> = None;
        let mut i: usize = 0;
        while i < self.links.len()
            invariant
                i <= self.links@.len(),
                ri < self.renderers@.len(),
                h == self.renderers@[ri as int]@.h,
                best == chosen_scheme(self@, h, i as int),
            decreases self.links.len() - i,
        {
            assert(self@.links[i as int] == self.links@[i as int]@);
            if self.links[i].enabled && str_eq(
                self.links[i].renderer_id.as_str(),
                self.renderers[ri].handle.id.as_str(),
            ) {
                if let Some(d) = self.display_index(self.links[i].display_id) {
                    if let (Some(p), Some(c)) = (
                        &self.renderers[ri].handle.format_caps,
                        &self.displays[d].consumer_caps,
                    ) {
                        if let Ok(scheme) = pick(p, c) {
                            best = Some(scheme);
                        }
                    }
                }
            }
            i = i + 1;
        }
        best
    }

    fn reconcile_buffer_flags(&self, out: &mut Vec<Effect>)
        ensures
            at(*self, final(out)@) == negotiate_all(at(*self, old(out)@)),
    {
        let ghost fx = seqs::views(out@);
        let mut i: usize = 0;
        assert(fx + negotiations(self@, 0) =~= fx);
        while i < self.renderers.len()
            invariant
                i <= self.renderers@.len(),
                seqs::views(out@) == fx + negotiations(self@, i as int),
            decreases self.renderers.len() - i,
        {
            assert(self@.renderers[i as int] == self.renderers@[i as int]@);
            if let Some(scheme) = self.scheme_for(i) {
                let told = match self.renderers[i].handle.last_dispatched_scheme {
                    Some(last) => last == scheme,
                    None => false,
                };
                if !told {
                    out.push(
                        Effect::Negotiate {
                            renderer: self.renderers[i].handle.id.clone(),
                            scheme,
                        },
                    );
                }
            }
            i = i + 1;
            assert(seqs::views(out@) =~= fx + negotiations(self@, i as int));
        }
    }
}

// ---------------------------------------------------------------------------
// Removing renderers
// ---------------------------------------------------------------------------

pub open spec fn links_without_renderer(links: Seq<LinkView>, rid: Seq<char>) -> Seq<LinkView>
    decreases links.len(),
{
    if links.len() == 0 {
        Seq::empty()
    } else {
        let rest = links_without_renderer(links.drop_last(), rid);
        if links.last().renderer == rid {
            rest
        } else {
            rest.push(links.last())
        }
    }
}

pub open spec fn links_without_display(links: Seq<LinkView>, display: u64) -> Seq<LinkView>
    decreases links.len(),
{
    if links.len() == 0 {
        Seq::empty()
    } else {
        let rest = links_without_display(links.drop_last(), display);
        if links.last().display == display {
            rest
        } else {
            rest.push(links.last())
        }
    }
}

/// Displays that a renderer is linked to, in link order.
pub open spec fn linked_displays(links: Seq<LinkView>, rid: Seq<char>) -> Seq<u64>
    decreases links.len(),
{
    if links.len() == 0 {
        Seq::empty()
    } else {
        let rest = linked_displays(links.drop_last(), rid);
        if links.last().renderer == rid {
            rest.push(links.last().display)
        } else {
            rest
        }
    }
}

pub open spec fn entries_without(s: Seq<EntryView>, rid: Seq<char>) -> Seq<EntryView>
    decreases s.len(),
{
    if s.len() == 0 {
        Seq::empty()
    } else {
        let rest = entries_without(s.drop_last(), rid);
        if s.last().h.id == rid {
            rest
        } else {
            rest.push(s.last())
        }
    }
}

pub open spec fn displays_without(s: Seq<DisplayView>, id: u64) -> Seq<DisplayView>
    decreases s.len(),
{
    if s.len() == 0 {
        Seq::empty()
    } else {
        let rest = displays_without(s.drop_last(), id);
        if s.last().id == id {
            rest
        } else {
            rest.push(s.last())
        }
    }
}

/// Stops the grace period of a renderer, if one is running.
pub open spec fn cancel_timer(s: Step, rid: Seq<char>) -> Step {
    if s.v.timers.contains(rid) {
        Step {
            v: RouterView { timers: s.v.timers.remove(rid), ..s.v },
            fx: s.fx.push(EffectView::CancelTimer(rid)),
        }
    } else {
        s
    }
}

/// Takes a renderer and its links out, and brings the displays it was linked
/// to in line.
pub open spec fn unregister(s: Step, rid: Seq<char>, now: u64) -> Step {
    let affected = linked_displays(s.v.links, rid);
    let removed = cancel_timer(
        Step {
            v: RouterView {
                renderers: entries_without(s.v.renderers, rid),
                links: links_without_renderer(s.v.links, rid),
                ..s.v
            },
            fx: s.fx,
        },
        rid,
    );
    let told = Step {
        v: removed.v,
        fx: removed.fx.push(EffectView::Emit(EventView::RendererRemoved(rid))),
    };
    let done = lifecycle(sync_all(told, affected, affected.len() as int), now);
    if affected.len() > 0 {
        Step {
            v: done.v,
            fx: done.fx.push(
                EffectView::Emit(EventView::DisplaysReplace(display_snaps(done.v))),
            ),
        }
    } else {
        done
    }
}

/// [`unregister`] for the first `n` of the renderers.
pub open spec fn unregister_all(s: Step, ids: Seq<Seq<char>>, now: u64, n: int) -> Step
    decreases n,
{
    if n <= 0 {
        s
    } else {
        unregister(unregister_all(s, ids, now, n - 1), ids[n - 1], now)
    }
}

/// Displays that the first `n` effects take a pool from.
pub open spec fn unbound(fx: Seq<EffectView>, n: int) -> Seq<u64>
    decreases n,
{
    if n <= 0 {
        Seq::empty()
    } else {
        match fx[n - 1] {
            EffectView::Unbind { display, .. } => unbound(fx, n - 1).push(display),
            _ => unbound(fx, n - 1),
        }
    }
}

/// Takes a renderer out and stops it.
pub open spec fn stop(s: Step, rid: Seq<char>, now: u64) -> Step {
    let t = unregister(s, rid, now);
    Step { v: t.v, fx: t.fx.push(EffectView::Kill(rid)) }
}

/// [`stop`] for the first `n` of the renderers.
pub open spec fn stop_all(s: Step, ids: Seq<Seq<char>>, now: u64, n: int) -> Step
    decreases n,
{
    if n <= 0 {
        s
    } else {
        stop(stop_all(s, ids, now, n - 1), ids[n - 1], now)
    }
}

impl Router {
    fn remove_renderer_links(&mut self, rid: &str) -> (affected: Vec<u64>)
        ensures
            final(self)@ == (RouterView {
                links: links_without_renderer(old(self)@.links, rid@),
                ..old(self)@
            }),
            affected@ == linked_displays(old(self)@.links, rid@),
    {
        let ghost before = self@;
        let ghost all = before.links;
        let mut affected: Vec<u64> = Vec::new();
        let mut i: usize = 0;
        let ghost mut k: int = 0;
        assert(all.skip(0) =~= all);
        while i < self.links.len()
            invariant
                0 <= k <= all.len(),
                i <= self.links@.len(),
                i == links_without_renderer(all.take(k), rid@).len(),
                all == before.links,
                self@ == (RouterView { links: self@.links, ..before }),
                self@.links == links_without_renderer(all.take(k), rid@) + all.skip(k),
                affected@ == linked_displays(all.take(k), rid@),
            decreases self.links.len() - i,
        {
            proof {
                assert(self@.links[i as int] == all.skip(k)[0]);
                assert(all.take(k + 1).drop_last() =~= all.take(k));
                assert(all.take(k + 1).last() == all[k]);
                assert(self.links@[i as int]@ == all[k]);
            }
            let ghost head = links_without_renderer(all.take(k), rid@);
            if str_eq(self.links[i].renderer_id.as_str(), rid) {
                affected.push(self.links[i].display_id);
                let _gone = self.links.remove(i);
                assert(self@.links =~= head + all.skip(k + 1));
            } else {
                i = i + 1;
                assert(self@.links =~= head.push(all[k]) + all.skip(k + 1));
            }
            proof {
                k = k + 1;
            }
        }
        proof {
            assert(all.skip(k).len() == 0);
            assert(all.take(k) =~= all);
            assert(self@.links =~= links_without_renderer(all, rid@));
        }
        affected
    }

    fn remove_display_links(&mut self, id: u64)
        ensures
            final(self)@ == (RouterView {
                links: links_without_display(old(self)@.links, id),
                ..old(self)@
            }),
    {
        let ghost before = self@;
        let ghost all = before.links;
        let mut i: usize = 0;
        let ghost mut k: int = 0;
        assert(all.skip(0) =~= all);
        while i < self.links.len()
            invariant
                0 <= k <= all.len(),
                i <= self.links@.len(),
                i == links_without_display(all.take(k), id).len(),
                all == before.links,
                self@ == (RouterView { links: self@.links, ..before }),
                self@.links == links_without_display(all.take(k), id) + all.skip(k),
            decreases self.links.len() - i,
        {
            proof {
                assert(self@.links[i as int] == all.skip(k)[0]);
                assert(all.take(k + 1).drop_last() =~= all.take(k));
                assert(all.take(k + 1).last() == all[k]);
                assert(self.links@[i as int]@ == all[k]);
            }
            let ghost head = links_without_display(all.take(k), id);
            if self.links[i].display_id == id {
                let _gone = self.links.remove(i);
                assert(self@.links =~= head + all.skip(k + 1));
            } else {
                i = i + 1;
                assert(self@.links =~= head.push(all[k]) + all.skip(k + 1));
            }
            proof {
                k = k + 1;
            }
        }
        proof {
            assert(all.skip(k).len() == 0);
            assert(all.take(k) =~= all);
            assert(self@.links =~= links_without_display(all, id));
        }
    }

    fn remove_entries(&mut self, rid: &str)
        ensures
            final(self)@ == (RouterView {
                renderers: entries_without(old(self)@.renderers, rid@),
                ..old(self)@
            }),
    {
        let ghost before = self@;
        let ghost all = before.renderers;
        let mut i: usize = 0;
        let ghost mut k: int = 0;
        assert(all.skip(0) =~= all);
        while i < self.renderers.len()
            invariant
                0 <= k <= all.len(),
                i <= self.renderers@.len(),
                i == entries_without(all.take(k), rid@).len(),
                all == before.renderers,
                self@ == (RouterView { renderers: self@.renderers, ..before }),
                self@.renderers == entries_without(all.take(k), rid@) + all.skip(k),
            decreases self.renderers.len() - i,
        {
            proof {
                assert(self@.renderers[i as int] == all.skip(k)[0]);
                assert(all.take(k + 1).drop_last() =~= all.take(k));
                assert(all.take(k + 1).last() == all[k]);
                assert(self.renderers@[i as int]@ == all[k]);
            }
            let ghost head = entries_without(all.take(k), rid@);
            if str_eq(self.renderers[i].handle.id.as_str(), rid) {
                let _gone = self.renderers.remove(i);
                assert(self@.renderers =~= head + all.skip(k + 1));
            } else {
                i = i + 1;
                assert(self@.renderers =~= head.push(all[k]) + all.skip(k + 1));
            }
            proof {
                k = k + 1;
            }
        }
        proof {
            assert(all.skip(k).len() == 0);
            assert(all.take(k) =~= all);
            assert(self@.renderers =~= entries_without(all, rid@));
        }
    }

    fn remove_displays(&mut self, id: u64)
        ensures
            final(self)@ == (RouterView {
                displays: displays_without(old(self)@.displays, id),
                ..old(self)@
            }),
    {
        let ghost before = self@;
        let ghost all = before.displays;
        let mut i: usize = 0;
        let ghost mut k: int = 0;
        assert(all.skip(0) =~= all);
        while i < self.displays.len()
            invariant
                0 <= k <= all.len(),
                i <= self.displays@.len(),
                i == displays_without(all.take(k), id).len(),
                all == before.displays,
                self@ == (RouterView { displays: self@.displays, ..before }),
                self@.displays == displays_without(all.take(k), id) + all.skip(k),
            decreases self.displays.len() - i,
        {
            proof {
                assert(self@.displays[i as int] == all.skip(k)[0]);
                assert(all.take(k + 1).drop_last() =~= all.take(k));
                assert(all.take(k + 1).last() == all[k]);
                assert(self.displays@[i as int]@ == all[k]);
            }
            let ghost head = displays_without(all.take(k), id);
            if self.displays[i].id == id {
                let _gone = self.displays.remove(i);
                assert(self@.displays =~= head + all.skip(k + 1));
            } else {
                i = i + 1;
                assert(self@.displays =~= head.push(all[k]) + all.skip(k + 1));
            }
            proof {
                k = k + 1;
            }
        }
        proof {
            assert(all.skip(k).len() == 0);
            assert(all.take(k) =~= all);
            assert(self@.displays =~= displays_without(all, id));
        }
    }

    fn drop_timer(&mut self, rid: &str, out: &mut Vec<Effect>)
        ensures
            at(*final(self), final(out)@) == cancel_timer(at(*old(self), old(out)@), rid@),
    {
        let ghost before = self@;
        let mut kept: Vec<String> = Vec::new();
        let mut found = false;
        let mut i: usize = 0;
        while i < self.timers.len()
            invariant
                i <= self.timers@.len(),
                self@ == before,
                forall|j: int| 0 <= j < kept@.len() ==> (#[trigger] kept@[j])@ != rid@ && before
                    .timers.contains(kept@[j]@),
                forall|j: int|
                    0 <= j < i && (#[trigger] self.timers@[j])@ != rid@ ==> text_set(
                        kept@,
                    ).contains(self.timers@[j]@),
                found == exists|j: int| 0 <= j < i && (#[trigger] self.timers@[j])@ == rid@,
            decreases self.timers.len() - i,
        {
            assert(before.timers.contains(self.timers@[i as int]@));
            let ghost prev = kept@;
            if str_eq(self.timers[i].as_str(), rid) {
                found = true;
            } else {
                kept.push(self.timers[i].clone());
                assert(kept@[prev.len() as int]@ == self.timers@[i as int]@);
            }
            proof {
                assert forall|k: Seq<char>| text_set(prev).contains(k) implies text_set(
                    kept@,
                ).contains(k) by {
                    let j = choose|j: int| 0 <= j < prev.len() && (#[trigger] prev[j])@ == k;
                    assert(kept@[j]@ == k);
                }
            }
            i = i + 1;
        }
        proof {
            assert(found == before.timers.contains(rid@));
            assert forall|k: Seq<char>| #[trigger] text_set(kept@).contains(k)
                <==> before.timers.remove(rid@).contains(k) by {
                if before.timers.remove(rid@).contains(k) {
                    let j = choose|j: int|
                        0 <= j < self.timers@.len() && (#[trigger] self.timers@[j])@ == k;
                    assert(self.timers@[j]@ == k);
                }
            }
            assert(text_set(kept@) =~= before.timers.remove(rid@));
            if !found {
                assert(before.timers.remove(rid@) =~= before.timers);
            }
        }
        self.timers = kept;
        if found {
            out.push(Effect::CancelTimer(rid.to_owned()));
        }
    }

    fn add_timer(&mut self, rid: &String)
        ensures
            final(self)@ == (RouterView {
                timers: old(self)@.timers.insert(rid@),
                ..old(self)@
            }),
    {
        let ghost before = self.timers@;
        self.timers.push(rid.clone());
        proof {
            let after = self.timers@;
            assert forall|k: Seq<char>| #[trigger] text_set(after).contains(k) <==> text_set(
                before,
            ).insert(rid@).contains(k) by {
                if text_set(before).contains(k) {
                    let j = choose|j: int| 0 <= j < before.len() && (#[trigger] before[j])@ == k;
                    assert(after[j]@ == k);
                }
                assert(after[before.len() as int]@ == rid@);
                if text_set(after).contains(k) {
                    let j = choose|j: int| 0 <= j < after.len() && (#[trigger] after[j])@ == k;
                    if j < before.len() {
                        assert(before[j]@ == k);
                    }
                }
            }
            assert(text_set(after) =~= text_set(before).insert(rid@));
        }
    }

    fn unregister_into(&mut self, rid: &str, now: u64, out: &mut Vec<Effect>)
        ensures
            at(*final(self), final(out)@) == unregister(at(*old(self), old(out)@), rid@, now),
    {
        let affected = self.remove_renderer_links(rid);
        self.remove_entries(rid);
        self.drop_timer(rid, out);
        out.push(Effect::Emit(RouterEvent::RendererRemoved(rid.to_owned())));
        self.sync_displays(&affected, out);
        self.reconcile_lifecycle(now, out);
        if affected.len() > 0 {
            out.push(Effect::Emit(RouterEvent::DisplaysReplace(self.snapshot_displays())));
        }
    }

    fn unregister_list(&mut self, ids: &Vec<String>, now: u64, out: &mut Vec<Effect>)
        ensures
            at(*final(self), final(out)@) == unregister_all(
                at(*old(self), old(out)@),
                text::lines(ids@),
                now,
                ids@.len() as int,
            ),
    {
        let ghost start = at(*self, out@);
        let mut i: usize = 0;
        while i < ids.len()
            invariant
                i <= ids@.len(),
                at(*self, out@) == unregister_all(start, text::lines(ids@), now, i as int),
            decreases ids.len() - i,
        {
            assert(text::lines(ids@)[i as int] == ids@[i as int]@);
            self.unregister_into(ids[i].as_str(), now, out);
            i = i + 1;
        }
    }

    fn stop_into(&mut self, rid: &str, now: u64, out: &mut Vec<Effect>)
        ensures
            at(*final(self), final(out)@) == stop(at(*old(self), old(out)@), rid@, now),
    {
        self.unregister_into(rid, now, out);
        out.push(Effect::Kill(rid.to_owned()));
    }

    fn stop_list(&mut self, ids: &Vec<String>, now: u64, out: &mut Vec<Effect>)
        ensures
            at(*final(self), final(out)@) == stop_all(
                at(*old(self), old(out)@),
                text::lines(ids@),
                now,
                ids@.len() as int,
            ),
    {
        let ghost start = at(*self, out@);
        let mut i: usize = 0;
        while i < ids.len()
            invariant
                i <= ids@.len(),
                at(*self, out@) == stop_all(start, text::lines(ids@), now, i as int),
            decreases ids.len() - i,
        {
            assert(text::lines(ids@)[i as int] == ids@[i as int]@);
            self.stop_into(ids[i].as_str(), now, out);
            i = i + 1;
        }
    }
}

} // verus!
