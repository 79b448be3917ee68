//! What the router does when displays and renderers come, go and speak.

use super::ops;
use super::{
    next_number, DisplayRegistration, DisplayState, DisplayView, Effect, EffectView, EntryView,
    LinkView, RendererEntry, Router, RouterView, Step,
};
use crate::layout::{self, same_color, same_rect, LinkGeometry, Rect};
use crate::negotiate::{NegotiatedScheme, PeerCaps, PeerCapsView};
use crate::renderer::{self, ClearColor, RendererEvent, RendererHandle, RendererView};
use crate::router;
use crate::seqs;
use crate::settings::{self, LayoutChange, SettingsStore};
use crate::snapshot::{DisplaySnapshot, EventView, LibrarySnapshot, RouterEvent};
use crate::strmap;
use crate::text::{self, str_eq};
use vstd::prelude::*;

verus! {

broadcast use seqs::group_views;

// ---------------------------------------------------------------------------
// Coming and going
// ---------------------------------------------------------------------------

/// Adds a renderer, or replaces the one of the same id.
pub open spec fn registered(s: Seq<EntryView>, h: RendererView) -> Seq<EntryView> {
    if router::find_entry(s, h.id) is Some {
        router::with_handle(s, h.id, h)
    } else {
        s.push(EntryView { h, paused: None })
    }
}

pub open spec fn add_renderer(s: Step, h: RendererView) -> Step {
    ops::announce_renderer(
        Step { v: RouterView { renderers: registered(s.v.renderers, h), ..s.v }, fx: s.fx },
        h.id,
    )
}

/// The display that a registration makes.
pub open spec fn new_display(id: u64, reg: DisplayRegistration) -> DisplayView {
    DisplayView {
        id,
        name: reg.name@,
        instance_id: text::opt_text(reg.instance_id),
        width: reg.width,
        height: reg.height,
        refresh_mhz: reg.refresh_mhz,
        properties: strmap::pairs_text(reg.properties@),
        gpu: reg.gpu,
        last_renderer: None,
        last_generation: None,
        caps: router::caps_view(reg.consumer_caps),
    }
}

/// Connects a display and gives it to the first renderer, if there is one.
pub open spec fn add_display(s: Step, reg: DisplayRegistration, now: u64) -> Step {
    let id = (s.v.next_display_id + 1) as u64;
    let v1 = RouterView {
        displays: s.v.displays.push(new_display(id, reg)),
        next_display_id: id,
        ..s.v
    };
    let s2 = if v1.renderers.len() > 0 {
        let first = v1.renderers[0].h.id;
        router::cancel_timer(Step { v: ops::linked(v1, first, id), fx: s.fx }, first)
    } else {
        Step { v: v1, fx: s.fx }
    };
    ops::announce_display(
        router::negotiate_all(router::lifecycle(router::sync(s2, id), now)),
        id,
    )
}

/// Disconnects a display.
pub open spec fn drop_display(s: Step, id: u64, now: u64) -> Step {
    let gone = Step {
        v: RouterView {
            displays: router::displays_without(s.v.displays, id),
            links: router::links_without_display(s.v.links, id),
            ..s.v
        },
        fx: s.fx,
    };
    ops::then_fx(
        router::negotiate_all(router::lifecycle(ops::reap_orphans(gone, None, now), now)),
        EffectView::Emit(EventView::DisplayRemoved(id)),
    )
}

impl Router {
    /// A router that knows no renderer and no display.
    pub fn new() -> (r: Self)
        ensures
            r@ == (RouterView {
                renderers: Seq::empty(),
                links: Seq::empty(),
                displays: Seq::empty(),
                timers: Set::empty(),
                next_display_id: 0,
                next_link_id: 0,
                next_config_generation: 0,
            }),
    {
        let r = Router {
            renderers: Vec::new(),
            links: Vec::new(),
            displays: Vec::new(),
            timers: Vec::new(),
            next_display_id: 0,
            next_link_id: 0,
            next_config_generation: 0,
        };
        assert(r@.timers =~= Set::empty());
        r
    }

    /// Adds a renderer.
    pub fn register_renderer(&mut self, handle: RendererHandle) -> (out: Vec<Effect>)
        ensures
            router::at(*final(self), out@) == add_renderer(ops::start(old(self)@), handle@),
    {
        let ghost h = handle@;
        let ghost before = self@.renderers;
        let id = handle.id.clone();
        match self.renderer_index(id.as_str()) {
            Some(i) => {
                self.renderers[i].handle = handle;
                proof {
                    router::lemma_with_handle(before, h.id, h, i as int);
                    assert(self@.renderers =~= before.update(
                        i as int,
                        EntryView { h, ..before[i as int] },
                    ));
                }
            },
            None => {
                self.renderers.push(RendererEntry { handle, paused_since: None });
            },
        }
        let mut out: Vec<Effect> = Vec::new();
        self.emit_renderer(id.as_str(), &mut out);
        out
    }

    /// Whether an id is left for another display.
    pub fn can_register(&self) -> (r: bool)
        ensures
            r == (self@.next_display_id < u64::MAX),
    {
        self.next_display_id < u64::MAX
    }

    /// Connects a display and says which id it got.
    pub fn register_display(&mut self, reg: DisplayRegistration, now: u64) -> (r: (
        u64,
        Vec<Effect>,
    ))
        requires
            old(self)@.next_display_id < u64::MAX,
        ensures
            router::at(*final(self), r.1@) == add_display(ops::start(old(self)@), reg, now),
            r.0 == old(self)@.next_display_id + 1,
    {
        let id: u64 = self.next_display_id + 1;
        self.next_display_id = id;
        let d = DisplayState {
            id,
            name: reg.name,
            instance_id: reg.instance_id,
            width: reg.width,
            height: reg.height,
            refresh_mhz: reg.refresh_mhz,
            properties: reg.properties,
            gpu: reg.gpu,
            last_renderer: None,
            last_buffer_generation: None,
            consumer_caps: reg.consumer_caps,
        };
        assert(d@ == new_display(id, reg));
        self.displays.push(d);
        let mut out: Vec<Effect> = Vec::new();
        if self.renderers.len() > 0 {
            let first = self.renderers[0].handle.id.clone();
            assert(self@.renderers[0] == self.renderers@[0]@);
            self.add_link(first.as_str(), id);
            self.drop_timer(first.as_str(), &mut out);
        }
        self.sync_display(id, &mut out);
        self.reconcile_lifecycle(now, &mut out);
        self.reconcile_buffer_flags(&mut out);
        self.emit_display(id, &mut out);
        (id, out)
    }

    /// Disconnects a display.
    pub fn unregister_display(&mut self, display_id: u64, now: u64) -> (out: Vec<Effect>)
        ensures
            router::at(*final(self), out@) == drop_display(ops::start(old(self)@), display_id, now),
    {
        let mut out: Vec<Effect> = Vec::new();
        self.remove_displays(display_id);
        self.remove_display_links(display_id);
        let _ids = self.reap_into(None, now, &mut out);
        self.reconcile_lifecycle(now, &mut out);
        self.reconcile_buffer_flags(&mut out);
        out.push(Effect::Emit(RouterEvent::DisplayRemoved(display_id)));
        out
    }
}

// ---------------------------------------------------------------------------
// Negotiation
// ---------------------------------------------------------------------------

pub open spec fn replace_display(v: RouterView, id: u64, d: DisplayView) -> RouterView {
    RouterView { displays: router::with_display(v.displays, id, d), ..v }
}

pub open spec fn replace_handle(v: RouterView, id: Seq<char>, h: RendererView) -> RouterView {
    RouterView { renderers: router::with_handle(v.renderers, id, h), ..v }
}

/// The capabilities with one more rejected pair.
pub open spec fn rejecting(c: PeerCapsView, pair: (u32, u64)) -> PeerCapsView {
    PeerCapsView { blacklist: c.blacklist.insert(pair), ..c }
}

/// A display announces what it can take.
pub open spec fn take_caps(s: Step, id: u64, caps: PeerCapsView) -> Step {
    match router::find_display(s.v.displays, id) {
        Some(d) => router::negotiate_all(
            Step { v: replace_display(s.v, id, DisplayView { caps: Some(caps), ..d }), fx: s.fx },
        ),
        None => s,
    }
}

/// A display could not take buffers of this format.
pub open spec fn display_rejects(s: Step, id: u64, pair: (u32, u64)) -> Step {
    match router::find_display(s.v.displays, id) {
        Some(d) => match d.caps {
            Some(c) => router::negotiate_all(
                Step {
                    v: replace_display(
                        s.v,
                        id,
                        DisplayView { caps: Some(rejecting(c, pair)), ..d },
                    ),
                    fx: s.fx,
                },
            ),
            None => s,
        },
        None => s,
    }
}

/// A renderer could not make buffers of this format. One that announced no
/// capabilities has nothing to keep that in.
pub open spec fn renderer_rejects(s: Step, rid: Seq<char>, pair: (u32, u64)) -> Step {
    match router::find_entry(s.v.renderers, rid) {
        Some(e) => match e.h.caps {
            Some(c) => router::negotiate_all(
                Step {
                    v: replace_handle(
                        s.v,
                        rid,
                        RendererView { caps: Some(rejecting(c, pair)), ..e.h },
                    ),
                    fx: s.fx,
                },
            ),
            None => s,
        },
        None => s,
    }
}

impl Router {
    /// Keeps what a display announced of itself; a later announcement replaces
    /// an earlier one.
    pub fn set_consumer_caps(&mut self, display_id: u64, caps: PeerCaps) -> (out: Vec<Effect>)
        ensures
            router::at(*final(self), out@) == take_caps(ops::start(old(self)@), display_id, caps@),
    {
        let mut out: Vec<Effect> = Vec::new();
        let ghost before = self@.displays;
        match self.display_index(display_id) {
            Some(i) => {
                let ghost want = DisplayView { caps: Some(caps@), ..before[i as int] };
                self.displays[i].consumer_caps = Some(caps);
                proof {
                    router::lemma_with_display(before, display_id, want, i as int);
                    assert(self@.displays =~= before.update(i as int, want));
                }
                self.reconcile_buffer_flags(&mut out);
            },
            None => {},
        }
        out
    }

    /// A display could not take buffers of this format: the pair is not picked
    /// for it again. Displays that never announced anything are passed over.
    pub fn on_consumer_bind_failed(&mut self, display_id: u64, fourcc: u32, modifier: u64) -> (out:
        Vec<Effect>)
        ensures
            router::at(*final(self), out@) == display_rejects(
                ops::start(old(self)@),
                display_id,
                (fourcc, modifier),
            ),
    {
        let mut out: Vec<Effect> = Vec::new();
        let ghost before = self@.displays;
        let i: usize = match self.display_index(display_id) {
            Some(i) => i,
            None => {
                return out;
            },
        };
        let mut caps: PeerCaps = match &self.displays[i].consumer_caps {
            Some(c) => c.clone(),
            None => {
                return out;
            },
        };
        let _new = caps.blacklist.insert((fourcc, modifier));
        let ghost want = DisplayView { caps: Some(caps@), ..before[i as int] };
        self.displays[i].consumer_caps = Some(caps);
        proof {
            router::lemma_with_display(before, display_id, want, i as int);
            assert(self@.displays =~= before.update(i as int, want));
        }
        self.reconcile_buffer_flags(&mut out);
        out
    }

    /// A renderer could not make buffers of this format: the pair is not
    /// picked for it again. Nothing changes for one without capabilities.
    pub fn on_renderer_bind_failed(
        &mut self,
        renderer_id: &str,
        fourcc: u32,
        modifier: u64,
    ) -> (out:
        Vec<Effect>)
        ensures
            router::at(*final(self), out@) == renderer_rejects(
                ops::start(old(self)@),
                renderer_id@,
                (fourcc, modifier),
            ),
    {
        let mut out: Vec<Effect> = Vec::new();
        let ghost before = self@.renderers;
        match self.renderer_index(renderer_id) {
            Some(i) => {
                if self.renderers[i].handle.format_caps.is_none() {
                    return out;
                }
                let _new = self.renderers[i].handle.blacklist_format(fourcc, modifier);
                proof {
                    let h = self.renderers@[i as int]@.h;
                    router::lemma_with_handle(before, renderer_id@, h, i as int);
                    assert(self@.renderers =~= before.update(
                        i as int,
                        EntryView { h, ..before[i as int] },
                    ));
                }
                self.reconcile_buffer_flags(&mut out);
            },
            None => {},
        }
        out
    }

    /// The renderer was told to use a scheme.
    pub fn negotiate_sent(&mut self, renderer_id: &str, scheme: NegotiatedScheme)
        ensures
            final(self)@ == (match router::find_entry(old(self)@.renderers, renderer_id@) {
                Some(e) => replace_handle(
                    old(self)@,
                    renderer_id@,
                    RendererView { scheme: Some(scheme), ..e.h },
                ),
                None => old(self)@,
            }),
    {
        let ghost before = self@.renderers;
        match self.renderer_index(renderer_id) {
            Some(i) => {
                self.renderers[i].handle.last_dispatched_scheme = Some(scheme);
                proof {
                    let h = self.renderers@[i as int]@.h;
                    router::lemma_with_handle(before, renderer_id@, h, i as int);
                    assert(self@.renderers =~= before.update(
                        i as int,
                        EntryView { h, ..before[i as int] },
                    ));
                }
            },
            None => {},
        }
    }
}

// ---------------------------------------------------------------------------
// Compositions
// ---------------------------------------------------------------------------

/// Sends a display its composition again.
pub open spec fn resync(s: Step, id: u64) -> Step {
    match (router::find_display(s.v.displays, id), router::target(s.v, id)) {
        (Some(d), Some((l, r, _))) => {
            let n = router::succ(s.v.next_config_generation);
            Step {
                v: RouterView { next_config_generation: n, ..s.v },
                fx: s.fx.push(EffectView::SetConfig(router::config_for(d, l, r, n))),
            }
        },
        _ => s,
    }
}

/// [`resync`] for the first `n` of the displays.
pub open spec fn resync_all(s: Step, ids: Seq<u64>, n: int) -> Step
    decreases n,
{
    if n <= 0 {
        s
    } else {
        resync(resync_all(s, ids, n - 1), ids[n - 1])
    }
}

/// The links of the renderer with its colour.
pub open spec fn recolored(
    links: Seq<LinkView>,
    rid: Seq<char>,
    color: ClearColor,
) -> Seq<LinkView> {
    Seq::new(
        links.len(),
        |i: int|
            if links[i].renderer == rid {
                LinkView {
                    geometry: LinkGeometry { clear_rgba: color, ..links[i].geometry },
                    ..links[i]
                }
            } else {
                links[i]
            },
    )
}

/// Displays of the first `n` links whose colour changes.
pub open spec fn recolored_displays(
    links: Seq<LinkView>,
    rid: Seq<char>,
    color: ClearColor,
    n: int,
) -> Seq<u64>
    decreases n,
{
    if n <= 0 {
        Seq::empty()
    } else {
        let l = links[n - 1];
        let rest = recolored_displays(links, rid, color, n - 1);
        if l.renderer == rid && !layout::color_eq(l.geometry.clear_rgba, color) {
            rest.push(l.display)
        } else {
            rest
        }
    }
}

/// A renderer reported its state: its colour goes to all its links.
pub open spec fn state_changed(s: Step, rid: Seq<char>) -> Step {
    match router::find_entry(s.v.renderers, rid) {
        Some(e) => {
            let ids = recolored_displays(s.v.links, rid, e.h.clear, s.v.links.len() as int);
            resync_all(
                Step {
                    v: RouterView { links: recolored(s.v.links, rid, e.h.clear), ..s.v },
                    fx: s.fx,
                },
                ids,
                ids.len() as int,
            )
        },
        None => s,
    }
}

/// A display changed its size.
pub open spec fn resized(s: Step, id: u64, width: u32, height: u32) -> Step {
    match router::find_display(s.v.displays, id) {
        Some(d) => if width == 0 || height == 0 {
            s
        } else {
            let t = Step {
                v: replace_display(s.v, id, DisplayView { width, height, ..d }),
                fx: s.fx,
            };
            ops::announce_display(
                if d.width != width || d.height != height {
                    resync(t, id)
                } else {
                    t
                },
                id,
            )
        },
        None => s,
    }
}

/// A change of a link; what is not given stays.
#[derive(Debug)]
pub struct GeometryChange {
    pub src: Option<Rect>,
    pub dst: Option<Rect>,
    pub transform: Option<u32>,
    pub clear_rgba: Option<ClearColor>,
    pub z_order: Option<i32>,
}

/// The change says something that is not so yet.
pub open spec fn changes_link(l: LinkView, c: GeometryChange) -> bool {
    ||| c.src is Some && !layout::rect_eq(l.geometry.src_rect, c.src->0)
    ||| c.dst is Some && !layout::rect_eq(l.geometry.dst_rect, c.dst->0)
    ||| c.transform is Some && l.geometry.transform != c.transform->0
    ||| c.clear_rgba is Some && !layout::color_eq(l.geometry.clear_rgba, c.clear_rgba->0)
    ||| c.z_order is Some && l.z_order != c.z_order->0
}

pub open spec fn or_else<T>(new: Option<T>, old: T) -> T {
    match new {
        Some(x) => x,
        None => old,
    }
}

pub open spec fn changed_link(l: LinkView, c: GeometryChange) -> LinkView {
    LinkView {
        geometry: LinkGeometry {
            src_rect: or_else(c.src, l.geometry.src_rect),
            dst_rect: or_else(c.dst, l.geometry.dst_rect),
            transform: or_else(c.transform, l.geometry.transform),
            clear_rgba: or_else(c.clear_rgba, l.geometry.clear_rgba),
        },
        z_order: or_else(c.z_order, l.z_order),
        ..l
    }
}

/// Changes a link and sends its display the new composition while the display
/// shows the link's renderer. The flag says whether the link changed.
pub open spec fn link_changed(s: Step, id: u64, c: GeometryChange) -> (Step, bool) {
    match router::find_link(s.v.links, id) {
        Some(old_link) => if !changes_link(old_link, c) {
            (s, false)
        } else {
            let l = changed_link(old_link, c);
            let v = RouterView { links: router::with_link(s.v.links, id, l), ..s.v };
            match (
                router::find_entry(v.renderers, l.renderer),
                router::find_display(v.displays, l.display),
            ) {
                (Some(e), Some(d)) => if d.last_renderer != Some(l.renderer) {
                    (Step { v, fx: s.fx }, true)
                } else {
                    let n = router::succ(v.next_config_generation);
                    (
                        ops::announce_display(
                            Step {
                                v: RouterView { next_config_generation: n, ..v },
                                fx: s.fx.push(
                                    EffectView::SetConfig(router::config_for(d, l, e.h, n)),
                                ),
                            },
                            l.display,
                        ),
                        true,
                    )
                },
                _ => (Step { v, fx: s.fx }, true),
            }
        },
        None => (s, false),
    }
}

fn pick_rect(new: &Option<Rect>, old: Rect) -> (r: Rect)
    ensures
        r == or_else(*new, old),
{
    match new {
        Some(x) => *x,
        None => old,
    }
}

impl Router {
    fn resync_display_set_config(&mut self, id: u64, out: &mut Vec<Effect>)
        ensures
            router::at(*final(self), final(out)@) == resync(router::at(*old(self), old(out)@), id),
    {
        if let Some(di) = self.display_index(id) {
            if let Some((l, n, _)) = self.find_target(id) {
                let cfg: u64 = next_number(self.next_config_generation);
                let config = self.config_request(di, l, n, cfg);
                out.push(Effect::SetConfig(config));
                self.next_config_generation = cfg;
            }
        }
    }

    fn resync_displays(&mut self, ids: &Vec<u64>, out: &mut Vec<Effect>)
        ensures
            router::at(*final(self), final(out)@) == resync_all(
                router::at(*old(self), old(out)@),
                ids@,
                ids@.len() as int,
            ),
    {
        let ghost start = router::at(*self, out@);
        let mut i: usize = 0;
        while i < ids.len()
            invariant
                i <= ids@.len(),
                router::at(*self, out@) == resync_all(start, ids@, i as int),
            decreases ids.len() - i,
        {
            self.resync_display_set_config(ids[i], out);
            i = i + 1;
        }
    }

    /// Sends every display its composition again.
    pub fn resync_all_set_configs(&mut self) -> (out: Vec<Effect>)
        ensures
            router::at(*final(self), out@) == resync_all(
                ops::start(old(self)@),
                ops::display_ids(old(self)@),
                old(self)@.displays.len() as int,
            ),
    {
        let mut out: Vec<Effect> = Vec::new();
        let ids = self.all_display_ids();
        self.resync_displays(&ids, &mut out);
        out
    }

    fn recolor(&mut self, rid: &str, color: ClearColor) -> (ids: Vec<u64>)
        ensures
            final(self)@ == (RouterView {
                links: recolored(old(self)@.links, rid@, color),
                ..old(self)@
            }),
            ids@ == recolored_displays(
                old(self)@.links,
                rid@,
                color,
                old(self)@.links.len() as int,
            ),
    {
        let ghost before = self@;
        let ghost want = recolored(before.links, rid@, color);
        let mut ids: Vec<u64> = Vec::new();
        let mut i: usize = 0;
        while i < self.links.len()
            invariant
                i <= self.links@.len(),
                self@ == (RouterView { links: self@.links, ..before }),
                self@.links.len() == before.links.len(),
                self.links@.len() == before.links.len(),
                want == recolored(before.links, rid@, color),
                forall|j: int| 0 <= j < i ==> #[trigger] self@.links[j] == want[j],
                forall|j: int|
                    i <= j < before.links.len() ==> #[trigger] self@.links[j] == before.links[j],
                ids@ == recolored_displays(before.links, rid@, color, i as int),
            decreases self.links.len() - i,
        {
            assert(self@.links[i as int] == before.links[i as int]);
            let ghost mid = self@.links;
            if str_eq(self.links[i].renderer_id.as_str(), rid) {
                if !same_color(&self.links[i].geometry.clear_rgba, &color) {
                    ids.push(self.links[i].display_id);
                }
                let g = self.links[i].geometry;
                self.links[i].geometry = LinkGeometry {
                    src_rect: g.src_rect,
                    dst_rect: g.dst_rect,
                    transform: g.transform,
                    clear_rgba: color,
                };
                assert(self.links@[i as int]@ == want[i as int]);
            }
            assert(forall|j: int|
                0 <= j < mid.len() && j != i ==> #[trigger] self@.links[j] == mid[j]);
            i = i + 1;
        }
        assert(self@.links =~= want);
        ids
    }

    fn state_changed_into(&mut self, rid: &str, out: &mut Vec<Effect>)
        ensures
            router::at(*final(self), final(out)@) == state_changed(
                router::at(*old(self), old(out)@),
                rid@,
            ),
    {
        if let Some(i) = self.renderer_index(rid) {
            let color = self.renderers[i].handle.clear_rgba();
            let ids = self.recolor(rid, color);
            self.resync_displays(&ids, out);
        }
    }

    /// A renderer reported its state: its colour goes to all its links, and
    /// the displays whose colour changes get their composition again.
    pub fn on_renderer_state_changed(&mut self, renderer_id: &str) -> (out: Vec<Effect>)
        ensures
            router::at(*final(self), out@) == state_changed(
                ops::start(old(self)@),
                renderer_id@,
            ),
    {
        let mut out: Vec<Effect> = Vec::new();
        self.state_changed_into(renderer_id, &mut out);
        out
    }

    /// A display changed its size. Sizes with a zero are ignored.
    pub fn update_display_size(&mut self, display_id: u64, width: u32, height: u32) -> (out: Vec<
        Effect,
    >)
        ensures
            router::at(*final(self), out@) == resized(
                ops::start(old(self)@),
                display_id,
                width,
                height,
            ),
    {
        let mut out: Vec<Effect> = Vec::new();
        if width == 0 || height == 0 {
            return out;
        }
        let ghost before = self@.displays;
        let i: usize = match self.display_index(display_id) {
            Some(i) => i,
            None => {
                return out;
            },
        };
        let differs = self.displays[i].width != width || self.displays[i].height != height;
        let ghost want = DisplayView { width, height, ..before[i as int] };
        self.displays[i].width = width;
        self.displays[i].height = height;
        proof {
            router::lemma_with_display(before, display_id, want, i as int);
            assert(self@.displays =~= before.update(i as int, want));
        }
        if differs {
            self.resync_display_set_config(display_id, &mut out);
        }
        self.emit_display(display_id, &mut out);
        out
    }

    /// Changes the geometry of a link; `true` when the link exists and the change
    /// says something new.
    pub fn set_link_geometry(&mut self, link_id: u64, change: &GeometryChange) -> (r: (
        bool,
        Vec<Effect>,
    ))
        ensures
            (router::at(*final(self), r.1@), r.0) == link_changed(
                ops::start(old(self)@),
                link_id,
                *change,
            ),
    {
        let mut out: Vec<Effect> = Vec::new();
        let ghost before = self@.links;
        let i: usize = match self.link_index(link_id) {
            Some(i) => i,
            None => {
                return (false, out);
            },
        };
        let g = self.links[i].geometry;
        let src = pick_rect(&change.src, g.src_rect);
        let dst = pick_rect(&change.dst, g.dst_rect);
        let transform: u32 = match change.transform {
            Some(t) => t,
            None => g.transform,
        };
        let clear_rgba = match change.clear_rgba {
            Some(c) => c,
            None => g.clear_rgba,
        };
        let z_order: i32 = match change.z_order {
            Some(z) => z,
            None => self.links[i].z_order,
        };
        let moved = (change.src.is_some() && !same_rect(&g.src_rect, &src)) || (
        change.dst.is_some() && !same_rect(&g.dst_rect, &dst)) || transform != g.transform || (
        change.clear_rgba.is_some() && !same_color(&g.clear_rgba, &clear_rgba)) || z_order
            != self.links[i].z_order;
        if !moved {
            return (false, out);
        }
        let ghost want = changed_link(before[i as int], *change);
        self.links[i].geometry = LinkGeometry {
            src_rect: src,
            dst_rect: dst,
            transform,
            clear_rgba,
        };
        self.links[i].z_order = z_order;
        proof {
            router::lemma_with_link(before, link_id, want, i as int);
            assert(self@.links =~= before.update(i as int, want));
        }
        let display: u64 = self.links[i].display_id;
        let ri: usize = match self.renderer_index(self.links[i].renderer_id.as_str()) {
            Some(n) => n,
            None => {
                return (true, out);
            },
        };
        let di: usize = match self.display_index(display) {
            Some(n) => n,
            None => {
                return (true, out);
            },
        };
        let bound = match &self.displays[di].last_renderer {
            Some(r) => str_eq(r.as_str(), self.links[i].renderer_id.as_str()),
            None => false,
        };
        if !bound {
            return (true, out);
        }
        let cfg: u64 = next_number(self.next_config_generation);
        let config = self.config_request(di, i, ri, cfg);
        self.next_config_generation = cfg;
        out.push(Effect::SetConfig(config));
        self.emit_display(display, &mut out);
        (true, out)
    }
}

// ---------------------------------------------------------------------------
// Pools and frames
// ---------------------------------------------------------------------------

/// Displays that the first `n` links lead to from the renderer.
pub open spec fn shown_on(links: Seq<LinkView>, rid: Seq<char>, n: int) -> Seq<u64>
    decreases n,
{
    if n <= 0 {
        Seq::empty()
    } else {
        let rest = shown_on(links, rid, n - 1);
        if links[n - 1].renderer == rid && links[n - 1].enabled {
            rest.push(links[n - 1].display)
        } else {
            rest
        }
    }
}

/// A renderer announced a pool.
pub open spec fn pool_announced(s: Step, rid: Seq<char>) -> Step {
    let ids = shown_on(s.v.links, rid, s.v.links.len() as int);
    ops::announce_renderer(
        router::negotiate_all(router::sync_all(s, ids, ids.len() as int)),
        rid,
    )
}

/// The display was last bound to this pool.
pub open spec fn bound_to(d: DisplayView, rid: Seq<char>, generation: u64) -> bool {
    d.last_generation == Some(generation) && d.last_renderer == Some(rid)
}

/// Of the displays that the first `n` links lead to, those bound to the pool.
pub open spec fn recipients(v: RouterView, rid: Seq<char>, generation: u64, n: int) -> Seq<u64>
    decreases n,
{
    if n <= 0 {
        Seq::empty()
    } else {
        let l = v.links[n - 1];
        let rest = recipients(v, rid, generation, n - 1);
        match router::find_display(v.displays, l.display) {
            Some(d) => if l.renderer == rid && l.enabled && bound_to(d, rid, generation) {
                rest.push(l.display)
            } else {
                rest
            },
            None => rest,
        }
    }
}

/// A frame of a renderer's pool.
pub struct FrameInfo {
    pub buffer_index: u32,
    pub seq: u64,
    pub release_point: u64,
}

pub open spec fn frame_for(
    display: u64,
    rid: Seq<char>,
    generation: u64,
    f: FrameInfo,
    count: u32,
) -> EffectView {
    EffectView::Frame {
        display,
        renderer: rid,
        generation,
        buffer_index: f.buffer_index,
        seq: f.seq,
        release_point: f.release_point,
        expected_count: count,
    }
}

/// Where a frame goes: to every display bound to the pool it belongs to, each
/// told how many there are. Where there are none it goes back to the renderer.
pub open spec fn frame_effects(v: RouterView, rid: Seq<char>, f: FrameInfo) -> Seq<EffectView> {
    match router::find_entry(v.renderers, rid) {
        Some(e) => match e.h.bind {
            Some(b) => {
                let to = recipients(v, rid, b.generation, v.links.len() as int);
                if to.len() as u32 == 0 {
                    seq![EffectView::Advance { renderer: rid, release_point: f.release_point }]
                } else {
                    Seq::new(
                        to.len(),
                        |i: int| frame_for(to[i], rid, b.generation, f, to.len() as u32),
                    )
                }
            },
            None => Seq::empty(),
        },
        None => Seq::empty(),
    }
}

impl Router {
    fn shown_displays(&self, rid: &str) -> (ids: Vec<u64>)
        ensures
            ids@ == shown_on(self@.links, rid@, self@.links.len() as int),
    {
        let mut ids: Vec<u64> = Vec::new();
        let mut i: usize = 0;
        while i < self.links.len()
            invariant
                i <= self.links@.len(),
                ids@ == shown_on(self@.links, rid@, i as int),
            decreases self.links.len() - i,
        {
            assert(self@.links[i as int] == self.links@[i as int]@);
            if self.links[i].enabled && str_eq(self.links[i].renderer_id.as_str(), rid) {
                ids.push(self.links[i].display_id);
            }
            i = i + 1;
        }
        ids
    }

    fn pool_into(&mut self, rid: &str, out: &mut Vec<Effect>)
        ensures
            router::at(*final(self), final(out)@) == pool_announced(
                router::at(*old(self), old(out)@),
                rid@,
            ),
    {
        let ids = self.shown_displays(rid);
        self.sync_displays(&ids, out);
        self.reconcile_buffer_flags(out);
        self.emit_renderer(rid, out);
    }

    fn frame_recipients(&self, rid: &str, generation: u64) -> (ids: Vec<u64>)
        ensures
            ids@ == recipients(self@, rid@, generation, self@.links.len() as int),
    {
        let mut ids: Vec<u64> = Vec::new();
        let mut i: usize = 0;
        while i < self.links.len()
            invariant
                i <= self.links@.len(),
                ids@ == recipients(self@, rid@, generation, i as int),
            decreases self.links.len() - i,
        {
            assert(self@.links[i as int] == self.links@[i as int]@);
            if self.links[i].enabled && str_eq(self.links[i].renderer_id.as_str(), rid) {
                if let Some(d) = self.display_index(self.links[i].display_id) {
                    let same_pool = match self.displays[d].last_buffer_generation {
                        Some(g) => g == generation,
                        None => false,
                    };
                    let same_renderer = match &self.displays[d].last_renderer {
                        Some(r) => str_eq(r.as_str(), rid),
                        None => false,
                    };
                    if same_pool && same_renderer {
                        ids.push(self.links[i].display_id);
                    }
                }
            }
            i = i + 1;
        }
        ids
    }

    /// A renderer finished a frame.
    pub fn on_renderer_frame(
        &self,
        renderer_id: &str,
        buffer_index: u32,
        seq: u64,
        release_point: u64,
    ) -> (out: Vec<Effect>)
        ensures
            seqs::views(out@) == frame_effects(
                self@,
                renderer_id@,
                (FrameInfo { buffer_index, seq, release_point }),
            ),
    {
        let mut out: Vec<Effect> = Vec::new();
        let generation: u64 = match self.renderer_index(renderer_id) {
            Some(i) => match self.renderers[i].handle.bind_generation() {
                Some(g) => g,
                None => {
                    return out;
                },
            },
            None => {
                return out;
            },
        };
        let to = self.frame_recipients(renderer_id, generation);
        let count: u32 = to.len() as u32;
        if count == 0 {
            out.push(Effect::Advance { renderer: renderer_id.to_owned(), release_point });
            assert(seqs::views(out@) =~= seq![
                EffectView::Advance { renderer: renderer_id@, release_point },
            ]);
            return out;
        }
        let ghost f = FrameInfo { buffer_index, seq, release_point };
        let ghost all = Seq::new(
            to@.len(),
            |i: int| frame_for(to@[i], renderer_id@, generation, f, count),
        );
        let mut i: usize = 0;
        while i < to.len()
            invariant
                i <= to@.len(),
                f == (FrameInfo { buffer_index, seq, release_point }),
                all == Seq::new(
                    to@.len(),
                    |i: int| frame_for(to@[i], renderer_id@, generation, f, count),
                ),
                seqs::views(out@) == all.take(i as int),
            decreases to.len() - i,
        {
            out.push(
                Effect::Frame {
                    display: to[i],
                    renderer: renderer_id.to_owned(),
                    generation,
                    buffer_index,
                    seq,
                    release_point,
                    expected_count: count,
                },
            );
            i = i + 1;
            assert(seqs::views(out@) =~= all.take(i as int));
        }
        assert(all.take(i as int) =~= all);
        out
    }

    /// A renderer announced a pool.
    pub fn on_renderer_bind(&mut self, renderer_id: &str) -> (out: Vec<Effect>)
        ensures
            router::at(*final(self), out@) == pool_announced(ops::start(old(self)@), renderer_id@),
    {
        let mut out: Vec<Effect> = Vec::new();
        self.pool_into(renderer_id, &mut out);
        out
    }
}

// ---------------------------------------------------------------------------
// Messages of a renderer
// ---------------------------------------------------------------------------

/// What the router does on a message, once the renderer's state has taken it in.
pub open spec fn routed(s: Step, rid: Seq<char>, ev: RendererEvent) -> Step {
    match ev {
        RendererEvent::BindBuffers(_) => pool_announced(s, rid),
        RendererEvent::FrameReady { image_index, seq, release_point } => Step {
            v: s.v,
            fx: s.fx + frame_effects(
                s.v,
                rid,
                FrameInfo { buffer_index: image_index, seq, release_point },
            ),
        },
        RendererEvent::FormatCaps(_) => router::negotiate_all(s),
        RendererEvent::BindFailed { fourcc, modifier } => renderer_rejects(
            s,
            rid,
            (fourcc, modifier),
        ),
        RendererEvent::ReportState { .. } => state_changed(s, rid),
        _ => s,
    }
}

/// A message of a registered renderer: the new state, and the descriptors let
/// go of.
pub open spec fn message_taken(
    v: RouterView,
    rid: Seq<char>,
    ev: RendererEvent,
    fds: Seq<u64>,
) -> (Step, Seq<u64>) {
    match router::find_entry(v.renderers, rid) {
        Some(e) => {
            let (h, released) = renderer::after_event(e.h, ev, fds);
            (routed(ops::start(replace_handle(v, rid, h)), rid, ev), released)
        },
        None => (ops::start(v), fds),
    }
}

impl Router {
    /// Takes one message of a renderer with the descriptors that came with it,
    /// and hands back the effects and the descriptors that are not kept.
    pub fn renderer_event(&mut self, renderer_id: &str, ev: RendererEvent, fds: Vec<u64>) -> (r: (
        Vec<Effect>,
        Vec<u64>,
    ))
        requires
            renderer::fds_as_announced(ev, fds@.len() as int),
        ensures
            (router::at(*final(self), r.0@), r.1@) == message_taken(
                old(self)@,
                renderer_id@,
                ev,
                fds@,
            ),
    {
        let mut out: Vec<Effect> = Vec::new();
        let i: usize = match self.renderer_index(renderer_id) {
            Some(i) => i,
            None => {
                return (out, fds);
            },
        };
        let ghost before = self@;
        let ghost ev0 = ev;
        let kind: u8 = match &ev {
            RendererEvent::BindBuffers(_) => 1,
            RendererEvent::FrameReady { .. } => 2,
            RendererEvent::FormatCaps(_) => 3,
            RendererEvent::BindFailed { .. } => 4,
            RendererEvent::ReportState { .. } => 5,
            _ => 0,
        };
        let frame: (u32, u64, u64) = match &ev {
            RendererEvent::FrameReady { image_index, seq, release_point } => (
                *image_index,
                *seq,
                *release_point,
            ),
            _ => (0, 0, 0),
        };
        let rejected: (u32, u64) = match &ev {
            RendererEvent::BindFailed { fourcc, modifier } => (*fourcc, *modifier),
            _ => (0, 0),
        };
        let released = self.renderers[i].handle.apply_event(ev, fds);
        proof {
            let h = renderer::after_event(before.renderers[i as int].h, ev0, fds@).0;
            router::lemma_with_handle(before.renderers, renderer_id@, h, i as int);
            assert(self@.renderers =~= before.renderers.update(
                i as int,
                EntryView { h, ..before.renderers[i as int] },
            ));
            assert(self@ == replace_handle(before, renderer_id@, h));
        }
        if kind == 1 {
            self.pool_into(renderer_id, &mut out);
        } else if kind == 2 {
            out = self.on_renderer_frame(renderer_id, frame.0, frame.1, frame.2);
            assert(Seq::<EffectView>::empty() + seqs::views(out@) =~= seqs::views(out@));
        } else if kind == 3 {
            self.reconcile_buffer_flags(&mut out);
        } else if kind == 4 {
            out = self.on_renderer_bind_failed(renderer_id, rejected.0, rejected.1);
        } else if kind == 5 {
            self.state_changed_into(renderer_id, &mut out);
        }
        (out, released)
    }
}

// ---------------------------------------------------------------------------
// Layout preferences
// ---------------------------------------------------------------------------

/// First display of that name.
pub open spec fn display_named(s: Seq<DisplayView>, name: Seq<char>) -> Option<DisplayView>
    decreases s.len(),
{
    if s.len() == 0 {
        None
    } else {
        match display_named(s.drop_last(), name) {
            Some(d) => Some(d),
            None => if s.last().name == name {
                Some(s.last())
            } else {
                None
            },
        }
    }
}

pub proof fn lemma_display_named(s: Seq<DisplayView>, name: Seq<char>, i: int)
    requires
        0 <= i <= s.len(),
        forall|j: int| 0 <= j < i ==> (#[trigger] s[j]).name != name,
        i < s.len() ==> s[i].name == name,
    ensures
        i < s.len() ==> display_named(s, name) == Some(s[i]),
        i == s.len() ==> display_named(s, name) is None,
    decreases s.len(),
{
    if s.len() > 0 {
        let t = s.drop_last();
        assert forall|j: int| 0 <= j < i && j < t.len() implies (#[trigger] t[j]).name != name by {
            assert(t[j] == s[j]);
        }
        if i < s.len() {
            lemma_display_named(t, name, i);
        } else {
            lemma_display_named(t, name, i - 1);
            assert(s.last() == s[i - 1]);
        }
    }
}

/// Key of the preferences of the display of that name.
pub open spec fn layout_key(v: RouterView, name: Seq<char>) -> Seq<char> {
    match display_named(v.displays, name) {
        Some(d) => settings::prefs_key(name, d.instance_id),
        None => name,
    }
}

/// Preferences of the display of that name changed.
pub open spec fn layout_changed(s: Step, name: Seq<char>) -> Step {
    match display_named(s.v.displays, name) {
        Some(d) => ops::announce_display(resync(s, d.id), d.id),
        None => s,
    }
}

impl Router {
    fn index_named(&self, name: &str) -> (r: Option<usize>)
        ensures
            match r {
                Some(i) => i < self.displays@.len() && display_named(self@.displays, name@) == Some(
                    self.displays@[i as int]@,
                ),
                None => display_named(self@.displays, name@) is None,
            },
    {
        let mut i: usize = 0;
        while i < self.displays.len()
            invariant
                i <= self.displays@.len(),
                forall|j: int| 0 <= j < i ==> (#[trigger] self@.displays[j]).name != name@,
            decreases self.displays.len() - i,
        {
            if str_eq(self.displays[i].name.as_str(), name) {
                proof {
                    lemma_display_named(self@.displays, name@, i as int);
                }
                return Some(i);
            }
            i = i + 1;
        }
        proof {
            lemma_display_named(self@.displays, name@, i as int);
        }
        None
    }

    /// Changes the stored layout of a display, under its stable identifier
    /// where a connected display of that name has one, and sends the display
    /// its composition again.
    pub fn set_display_layout(
        &mut self,
        store: &mut SettingsStore,
        display_name: &str,
        change: &LayoutChange,
    ) -> (out: Vec<Effect>)
        ensures
            router::at(*final(self), out@) == layout_changed(ops::start(old(self)@), display_name@),
            final(store).inner@ == old(store).inner@.with_layout(
                layout_key(old(self)@, display_name@),
                *change,
            ),
            final(store).dirty == (old(store).dirty || !settings::settings_eq(
                final(store).inner@,
                old(store).inner@,
            )),
    {
        let found = self.index_named(display_name);
        let key: String = match found {
            Some(i) => match &self.displays[i].instance_id {
                Some(iid) => iid.clone(),
                None => display_name.to_owned(),
            },
            None => display_name.to_owned(),
        };
        let mut after = store.snapshot();
        after.set_display_layout(key, change);
        let _changed = store.update(after);
        let mut out: Vec<Effect> = Vec::new();
        if let Some(i) = found {
            let id: u64 = self.displays[i].id;
            self.resync_display_set_config(id, &mut out);
            self.emit_display(id, &mut out);
        }
        out
    }

    /// Tells subscribers of a library.
    pub fn upsert_library(&self, snap: LibrarySnapshot) -> (e: Effect)
        ensures
            e@ == EffectView::Emit(EventView::LibraryUpsert(snap@)),
    {
        Effect::Emit(RouterEvent::LibraryUpsert(snap))
    }

    /// Tells subscribers that a library is gone.
    pub fn remove_library(&self, id: i64) -> (e: Effect)
        ensures
            e@ == EffectView::Emit(EventView::LibraryRemoved(id)),
    {
        Effect::Emit(RouterEvent::LibraryRemoved(id))
    }

    /// Tells subscribers of all displays after a change of the settings.
    pub fn emit_displays_replace_for_settings_change(&self, snap: Vec<DisplaySnapshot>) -> (e:
        Effect)
        ensures
            e@ == EffectView::Emit(EventView::DisplaysReplace(seqs::views(snap@))),
    {
        Effect::Emit(RouterEvent::DisplaysReplace(snap))
    }
}

} // verus!
