//! One output of the compositor: how large its buffers are, and what its
//! connection to the daemon has been told.

use crate::drm::DrmNode;
use crate::text::{self, push_dec};
use vstd::prelude::*;

verus! {

/// Release descriptors that are waited for, by buffer, oldest first. They are
/// named by tokens.
#[derive(Debug)]
pub struct ReleaseQueues {
    pub slots: Vec<Vec<u64>>,
}

impl View for ReleaseQueues {
    type V = Seq<Seq<u64>>;

    open spec fn view(&self) -> Seq<Seq<u64>> {
        Seq::new(self.slots@.len(), |i: int| self.slots@[i]@)
    }
}

impl ReleaseQueues {
    pub fn new() -> (r: Self)
        ensures
            r@ == Seq::<Seq<u64>>::empty(),
    {
        let r = ReleaseQueues { slots: Vec::new() };
        assert(r@ =~= Seq::<Seq<u64>>::empty());
        r
    }

    /// A new pool: nothing is waited for.
    pub fn reset(&mut self, count: u32)
        ensures
            final(self)@ == Seq::new(count as nat, |i: int| Seq::<u64>::empty()),
    {
        let mut slots: Vec<Vec<u64>> = Vec::new();
        let mut i: u32 = 0;
        while i < count
            invariant
                i <= count,
                slots@.len() == i,
                forall|j: int| 0 <= j < i ==> (#[trigger] slots@[j])@ == Seq::<u64>::empty(),
            decreases count - i,
        {
            let empty: Vec<u64> = Vec::new();
            assert(empty@ =~= Seq::<u64>::empty());
            slots.push(empty);
            i = i + 1;
        }
        self.slots = slots;
        assert(self@ =~= Seq::new(count as nat, |i: int| Seq::<u64>::empty()));
    }

    /// A frame in the buffer: its release is waited for. `false`, and nothing
    /// changes, where the pool has no such buffer.
    pub fn push(&mut self, index: u32, token: u64) -> (r: bool)
        ensures
            r == (index < old(self)@.len()),
            r ==> final(self)@ == old(self)@.update(
                index as int,
                old(self)@[index as int].push(token),
            ),
            !r ==> final(self)@ == old(self)@,
    {
        let n: u64 = self.slots.len() as u64;
        if index as u64 >= n {
            return false;
        }
        let ghost before = self@;
        let i: usize = index as usize;
        let mut q: Vec<u64> = Vec::new();
        std::mem::swap(&mut q, &mut self.slots[i]);
        q.push(token);
        self.slots[i] = q;
        assert(self@ =~= before.update(i as int, before[i as int].push(token)));
        true
    }

    /// The compositor is done with the buffer: the oldest descriptor that is
    /// waited for, if any.
    pub fn pop(&mut self, index: u32) -> (r: Option<u64>)
        ensures
            match r {
                Some(t) => {
                    &&& index < old(self)@.len()
                    &&& old(self)@[index as int].len() > 0
                    &&& t == old(self)@[index as int][0]
                    &&& final(self)@ == old(self)@.update(
                        index as int,
                        old(self)@[index as int].skip(1),
                    )
                },
                None => {
                    &&& index < old(self)@.len() ==> old(self)@[index as int].len() == 0
                    &&& final(self)@ == old(self)@
                },
            },
    {
        let n: u64 = self.slots.len() as u64;
        if index as u64 >= n {
            return None;
        }
        let i: usize = index as usize;
        if self.slots[i].len() == 0 {
            return None;
        }
        let ghost before = self@;
        let mut q: Vec<u64> = Vec::new();
        std::mem::swap(&mut q, &mut self.slots[i]);
        let t: u64 = q.remove(0);
        assert(q@ =~= before[i as int].skip(1));
        self.slots[i] = q;
        assert(self@ =~= before.update(i as int, before[i as int].skip(1)));
        Some(t)
    }
}

/// What an output's connection to the daemon needs to know.
#[derive(Debug)]
pub struct Binding {
    pub display_name: String,
    /// Size in the compositor's units.
    pub logical: Option<(u32, u32)>,
    /// Size in pixels.
    pub configured: Option<(u32, u32)>,
    pub scale: i32,
    /// Fine scale in 120ths; zero where it is not known.
    pub fractional_120: u32,
    /// The buffer is mapped onto the surface by a viewport.
    pub viewport: bool,
    /// The output is gone.
    pub closed: bool,
    pub connected: bool,
    /// The daemon knows the display.
    pub registered: bool,
    /// Size that the daemon was told last.
    pub last_pushed: Option<(u32, u32)>,
    /// The compositor has not shown the last frame yet.
    pub frame_pending: bool,
    pub releases: ReleaseQueues,
    pub node: DrmNode,
}

/// An output of the compositor.
#[derive(Debug)]
pub struct Output {
    /// Its surface is there.
    pub surface: bool,
    pub viewport: bool,
    pub scale: i32,
    pub fractional_120: u32,
    pub binding: Option<Binding>,
    pub worker_started: bool,
}

// ---------------------------------------------------------------------------
// Sizes
// ---------------------------------------------------------------------------

/// A length under a fine scale, rounded to the nearest pixel.
pub open spec fn finely_scaled(len: u32, f120: u32) -> u32 {
    ((len * f120 + 60) / 120) as u32
}

/// A length under a whole scale; a scale below one counts as one.
pub open spec fn scaled(len: u32, scale: i32) -> u32 {
    let s = if scale < 1 {
        1int
    } else {
        scale as int
    };
    if len * s > u32::MAX {
        u32::MAX
    } else {
        (len * s) as u32
    }
}

/// Size in pixels of a size in the compositor's units.
pub open spec fn pixels(size: (u32, u32), scale: i32, fine: Option<u32>) -> (u32, u32) {
    match fine {
        Some(f) => (finely_scaled(size.0, f), finely_scaled(size.1, f)),
        None => (scaled(size.0, scale), scaled(size.1, scale)),
    }
}

fn fine_length(len: u32, f120: u32) -> (r: u32)
    ensures
        r == finely_scaled(len, f120),
{
    assert(0 <= len * f120 <= 0xffff_ffff * 0xffff_ffff) by (nonlinear_arith)
        requires
            len <= u32::MAX,
            f120 <= u32::MAX,
    ;
    let v: u64 = (len as u64 * f120 as u64 + 60) / 120;
    #[verifier::truncate] (v as u32)
}

fn whole_length(len: u32, scale: i32) -> (r: u32)
    ensures
        r == scaled(len, scale),
{
    let s: u32 = if scale < 1 {
        1
    } else {
        scale as u32
    };
    assert(0 <= len * s <= 0xffff_ffff * 0xffff_ffff) by (nonlinear_arith)
        requires
            len <= u32::MAX,
            s <= u32::MAX,
    ;
    let v: u64 = len as u64 * s as u64;
    if v > u32::MAX as u64 {
        u32::MAX
    } else {
        v as u32
    }
}

/// Size in pixels of a size in the compositor's units: under the fine scale
/// where one is given, else under the whole one.
pub fn physical_size(size: (u32, u32), scale: i32, fine: Option<u32>) -> (r: (u32, u32))
    ensures
        r == pixels(size, scale, fine),
{
    match fine {
        Some(f) => (fine_length(size.0, f), fine_length(size.1, f)),
        None => (whole_length(size.0, scale), whole_length(size.1, scale)),
    }
}

/// A whole scale given in 120ths yields the size that the whole scale itself
/// does, as long as the size is one that a buffer can have.
pub proof fn fine_and_whole_scale_agree(len: u32, scale: i32)
    requires
        1 <= scale,
        len * scale <= u32::MAX,
        120 * scale <= u32::MAX,
    ensures
        finely_scaled(len, (120 * scale) as u32) == scaled(len, scale),
{
    let f = (120 * scale) as u32;
    assert(len * f == 120 * (len * scale)) by (nonlinear_arith)
        requires
            f == 120 * scale,
    ;
}

// ---------------------------------------------------------------------------
// Telling the daemon
// ---------------------------------------------------------------------------

/// The daemon is to be told of the size now: it knows the display, was told
/// another size last, and can be reached.
pub open spec fn tells(b: Binding, size: (u32, u32)) -> bool {
    b.registered && b.last_pushed != Some(size) && b.connected
}

/// The size to tell, if any.
pub open spec fn news(b: Binding, size: (u32, u32)) -> Option<(u32, u32)> {
    if tells(b, size) {
        Some(size)
    } else {
        None
    }
}

impl Binding {
    /// Whether a size is to be sent to the daemon. Before the daemon knows the
    /// display it is not: the registration carries the size.
    pub fn resize_to_push(&self, size: (u32, u32)) -> (r: Option<(u32, u32)>)
        ensures
            r == news(*self, size),
    {
        if !self.registered || !self.connected {
            return None;
        }
        if let Some(last) = self.last_pushed {
            if last.0 == size.0 && last.1 == size.1 {
                return None;
            }
        }
        Some(size)
    }

    /// The daemon was sent the size.
    pub fn pushed(&mut self, size: (u32, u32))
        ensures
            *final(self) == (Binding { last_pushed: Some(size), ..*old(self) }),
    {
        self.last_pushed = Some(size);
    }

    /// Whether a connection to the daemon may be tried: the output is still
    /// there.
    pub fn may_start(&self) -> (r: bool)
        ensures
            r == !self.closed,
    {
        !self.closed
    }

    /// A connection to the daemon stands.
    pub fn session_started(&mut self)
        ensures
            *final(self) == (Binding { connected: true, ..*old(self) }),
    {
        self.connected = true;
    }

    /// The connection to the daemon is over, for whatever reason. `true` when a
    /// new one is to be tried.
    pub fn session_ended(&mut self) -> (again: bool)
        ensures
            *final(self) == (Binding {
                connected: false,
                registered: false,
                last_pushed: None,
                ..*old(self)
            }),
            again == !old(self).closed,
    {
        self.connected = false;
        self.registered = false;
        self.last_pushed = None;
        !self.closed
    }

    /// The compositor has shown the last frame.
    pub fn frame_done(&mut self)
        ensures
            *final(self) == (Binding { frame_pending: false, ..*old(self) }),
    {
        self.frame_pending = false;
    }
}

// ---------------------------------------------------------------------------
// Events of the compositor
// ---------------------------------------------------------------------------

pub open spec fn at_least_one(scale: i32) -> i32 {
    if scale < 1 {
        1
    } else {
        scale
    }
}

/// Name under which the daemon knows an output.
pub open spec fn display_name_of(prefix: Seq<char>, output: u32) -> Seq<char> {
    prefix + "-"@ + text::dec_text(output as nat)
}

/// A binding as it is made for an output.
pub open spec fn is_fresh(b: Binding, o: Output, name: Seq<char>, node: DrmNode) -> bool {
    &&& b.display_name@ == name
    &&& b.logical is None
    &&& b.configured is None
    &&& b.scale == at_least_one(o.scale)
    &&& b.fractional_120 == o.fractional_120
    &&& b.viewport == o.viewport
    &&& !b.closed
    &&& !b.connected
    &&& !b.registered
    &&& b.last_pushed is None
    &&& !b.frame_pending
    &&& b.releases@ == Seq::<Seq<u64>>::empty()
    &&& b.node == node
}

fn fresh_binding(o: &Output, prefix: &str, output: u32, node: DrmNode) -> (b: Binding)
    ensures
        is_fresh(b, *o, display_name_of(prefix@, output), node),
{
    let mut display_name = prefix.to_owned();
    display_name.append("-");
    push_dec(&mut display_name, output as u64);
    Binding {
        display_name,
        logical: None,
        configured: None,
        scale: if o.scale < 1 {
            1
        } else {
            o.scale
        },
        fractional_120: o.fractional_120,
        viewport: o.viewport,
        closed: false,
        connected: false,
        registered: false,
        last_pushed: None,
        frame_pending: false,
        releases: ReleaseQueues::new(),
        node,
    }
}

/// What follows from a new size of a surface.
#[derive(Debug, Clone, Copy, PartialEq, Eq)]
pub struct Configured {
    /// Size that the daemon is to be told.
    pub resize: Option<(u32, u32)>,
    /// A connection to the daemon is to be made.
    pub start_worker: bool,
}

/// The fine scale that counts when a surface is configured.
pub open spec fn fine_scale(o: Output) -> Option<u32> {
    if o.fractional_120 > 0 && o.viewport {
        Some(o.fractional_120)
    } else {
        None
    }
}

/// The output after its surface got its first size, over a binding made for it.
pub open spec fn first_configured(
    before: Output,
    after: Output,
    name: Seq<char>,
    node: DrmNode,
    size: (u32, u32),
) -> bool {
    exists|b: Binding| #[trigger]
        is_fresh(b, before, name, node) && after == configured(before, b, size)
}

/// The output after its surface got a size, over the binding it works with.
pub open spec fn configured(o: Output, b: Binding, size: (u32, u32)) -> Output {
    Output {
        binding: Some(
            Binding {
                scale: at_least_one(o.scale),
                fractional_120: o.fractional_120,
                logical: Some(size),
                configured: Some(pixels(size, o.scale, fine_scale(o))),
                ..b
            },
        ),
        worker_started: true,
        ..o
    }
}

impl Output {
    pub fn new() -> (r: Self)
        ensures
            r == (Output {
                surface: false,
                viewport: false,
                scale: 1,
                fractional_120: 0,
                binding: None,
                worker_started: false,
            }),
    {
        Output {
            surface: false,
            viewport: false,
            scale: 1,
            fractional_120: 0,
            binding: None,
            worker_started: false,
        }
    }

    /// Whether a surface is to be made: there is none, and the globals that it
    /// needs are there.
    pub fn wants_surface(&self, compositor: bool, layer_shell: bool) -> (r: bool)
        ensures
            r == (!self.surface && compositor && layer_shell),
    {
        !self.surface && compositor && layer_shell
    }

    /// The surface was made.
    pub fn surface_made(&mut self, viewport: bool)
        ensures
            *final(self) == (Output { surface: true, viewport, ..*old(self) }),
    {
        self.surface = true;
        self.viewport = viewport;
    }

    /// The output has a whole scale.
    pub fn on_scale(&mut self, factor: i32)
        ensures
            *final(self) == (Output {
                scale: at_least_one(factor),
                binding: match old(self).binding {
                    Some(b) => Some(Binding { scale: at_least_one(factor), ..b }),
                    None => None,
                },
                ..*old(self)
            }),
    {
        let s: i32 = if factor < 1 {
            1
        } else {
            factor
        };
        self.scale = s;
        let mut held: Option<Binding> = None;
        std::mem::swap(&mut held, &mut self.binding);
        self.binding =
        match held {
            Some(mut b) => {
                b.scale = s;
                Some(b)
            },
            None => None,
        };
    }

    /// The output has a fine scale. Where its surface has a size already, the
    /// size in pixels follows, and is told to the daemon where it differs.
    pub fn on_preferred_scale(&mut self, scale: u32) -> (r: Option<(u32, u32)>)
        ensures
            match old(self).binding {
                None => {
                    &&& *final(self) == (Output { fractional_120: scale, ..*old(self) })
                    &&& r is None
                },
                Some(b) => {
                    let told = Binding { fractional_120: scale, ..b };
                    match b.logical {
                        None => {
                            &&& *final(self) == (Output {
                                fractional_120: scale,
                                binding: Some(told),
                                ..*old(self)
                            })
                            &&& r is None
                        },
                        Some(size) => {
                            let p = pixels(
                                size,
                                old(self).scale,
                                if old(self).viewport {
                                    Some(scale)
                                } else {
                                    None
                                },
                            );
                            &&& *final(self) == (Output {
                                fractional_120: scale,
                                binding: Some(Binding { configured: Some(p), ..told }),
                                ..*old(self)
                            })
                            &&& r == if b.configured == Some(p) {
                                None
                            } else {
                                news(b, p)
                            }
                        },
                    }
                },
            },
    {
        self.fractional_120 = scale;
        let mut held: Option<Binding> = None;
        std::mem::swap(&mut held, &mut self.binding);
        let mut b = match held {
            Some(b) => b,
            None => {
                return None;
            },
        };
        b.fractional_120 = scale;
        let size: (u32, u32) = match b.logical {
            Some(s) => s,
            None => {
                self.binding = Some(b);
                return None;
            },
        };
        let p = physical_size(
            size,
            self.scale,
            if self.viewport {
                Some(scale)
            } else {
                None
            },
        );
        let same: bool = match b.configured {
            Some(c) => c.0 == p.0 && c.1 == p.1,
            None => false,
        };
        b.configured = Some(p);
        let r = if same {
            None
        } else {
            b.resize_to_push(p)
        };
        self.binding = Some(b);
        r
    }

    /// The surface got a size. The first time, a connection to the daemon is to
    /// be made; later the daemon is told of a new size in pixels.
    pub fn on_configure(
        &mut self,
        width: u32,
        height: u32,
        prefix: &str,
        output: u32,
        node: DrmNode,
    ) -> (r: Configured)
        ensures
            ({
                let size = (width, height);
                let p = pixels(size, old(self).scale, fine_scale(*old(self)));
                &&& r.start_worker == !old(self).worker_started
                &&& match old(self).binding {
                    Some(b) => *final(self) == configured(*old(self), b, size) && r.resize == news(
                        b,
                        p,
                    ),
                    None => {
                        &&& r.resize is None
                        &&& first_configured(
                            *old(self),
                            *final(self),
                            display_name_of(prefix@, output),
                            node,
                            size,
                        )
                    },
                }
            }),
    {
        let fine: Option<u32> = if self.fractional_120 > 0 && self.viewport {
            Some(self.fractional_120)
        } else {
            None
        };
        let p = physical_size((width, height), self.scale, fine);
        let mut held: Option<Binding> = None;
        std::mem::swap(&mut held, &mut self.binding);
        let mut b = match held {
            Some(b) => b,
            None => fresh_binding(self, prefix, output, node),
        };
        let ghost first = b;
        b.scale =
        if self.scale < 1 {
            1
        } else {
            self.scale
        };
        b.fractional_120 = self.fractional_120;
        b.logical = Some((width, height));
        b.configured = Some(p);
        let resize = b.resize_to_push(p);
        self.binding = Some(b);
        let start_worker = !self.worker_started;
        self.worker_started = true;
        assert(*self == configured(*old(self), first, (width, height)));
        Configured { resize, start_worker }
    }

    /// The compositor closed the surface.
    pub fn on_closed(&mut self)
        ensures
            *final(self) == (Output {
                surface: false,
                binding: None,
                worker_started: false,
                fractional_120: 0,
                ..*old(self)
            }),
    {
        self.surface = false;
        self.binding = None;
        self.worker_started = false;
        self.fractional_120 = 0;
    }

    /// The output is gone. `true` when its connection to the daemon is to be
    /// shut down.
    pub fn on_removed(&mut self) -> (shut_down: bool)
        ensures
            *final(self) == (Output {
                binding: match old(self).binding {
                    Some(b) => Some(Binding { closed: true, ..b }),
                    None => None,
                },
                ..*old(self)
            }),
            shut_down == (old(self).binding is Some && old(self).binding->0.connected),
    {
        let mut held: Option<Binding> = None;
        std::mem::swap(&mut held, &mut self.binding);
        match held {
            Some(mut b) => {
                b.closed = true;
                let shut_down = b.connected;
                self.binding = Some(b);
                shut_down
            },
            None => false,
        }
    }

    /// The compositor is done with a buffer: the descriptor to signal, if one is
    /// waited for.
    pub fn on_buffer_release(&mut self, index: u32) -> (r: Option<u64>)
        ensures
            match old(self).binding {
                None => r is None && *final(self) == *old(self),
                Some(b) => {
                    &&& final(self).binding is Some
                    &&& *final(self) == (Output {
                        binding: Some(
                            Binding { releases: final(self).binding->0.releases, ..b },
                        ),
                        ..*old(self)
                    })
                    &&& match r {
                        Some(t) => {
                            &&& index < b.releases@.len() && b.releases@[index as int].len() > 0
                            &&& t == b.releases@[index as int][0]
                            &&& final(self).binding->0.releases@ == b.releases@.update(
                                index as int,
                                b.releases@[index as int].skip(1),
                            )
                        },
                        None => {
                            &&& index < b.releases@.len() ==> b.releases@[index as int].len() == 0
                            &&& final(self).binding->0.releases@ == b.releases@
                        },
                    }
                },
            },
    {
        let mut held: Option<Binding> = None;
        std::mem::swap(&mut held, &mut self.binding);
        match held {
            Some(mut b) => {
                let t = b.releases.pop(index);
                self.binding = Some(b);
                t
            },
            None => None,
        }
    }
}

// ---------------------------------------------------------------------------
// Laws
// ---------------------------------------------------------------------------

/// Under a fine scale a length is off by half a pixel at most; under a whole
/// scale it is exact, as long as it can be told.
pub proof fn sizes_are_scaled(size: (u32, u32), scale: i32, f: u32, a: (u32, u32), b: (u32, u32))
    requires
        call_ensures(physical_size, (size, scale, Some(f)), a),
        call_ensures(physical_size, (size, scale, None), b),
        size.0 * f <= u32::MAX,
        size.1 * f <= u32::MAX,
    ensures
        -60 <= 120 * a.0 - size.0 * f <= 60,
        -60 <= 120 * a.1 - size.1 * f <= 60,
        scale >= 1 && size.0 * scale <= u32::MAX ==> b.0 == size.0 * scale,
        scale >= 1 && size.1 * scale <= u32::MAX ==> b.1 == size.1 * scale,
        scale >= 1 && size.0 * scale > u32::MAX ==> b.0 == u32::MAX,
        scale >= 1 && size.1 * scale > u32::MAX ==> b.1 == u32::MAX,
        scale < 1 ==> b == size,
{
}

/// The daemon is told of a size that it was not told last, as long as it knows
/// the display and can be reached; once told, not again.
pub proof fn sizes_are_told_once(
    b: &mut Binding,
    size: (u32, u32),
    r: Option<(u32, u32)>,
    after: Binding,
    again: Option<(u32, u32)>,
    other: (u32, u32),
    next: Option<(u32, u32)>,
)
    requires
        call_ensures(Binding::pushed, (b, size), ()),
        after == *final(b),
        call_ensures(Binding::resize_to_push, (&*old(b), size), r),
        call_ensures(Binding::resize_to_push, (&after, size), again),
        call_ensures(Binding::resize_to_push, (&after, other), next),
    ensures
        again is None,
        r is Some ==> r == Some(size) && old(b).registered && old(b).connected,
        other != size && old(b).registered && old(b).connected ==> next == Some(other),
        after == (Binding { last_pushed: Some(size), ..*old(b) }),
{
}

/// A session that ended leaves nothing that the next one would take for known;
/// there is a next one unless the output is gone.
pub proof fn ended_session_is_forgotten(
    b: &mut Binding,
    again: bool,
    after: Binding,
    start: bool,
    size: (u32, u32),
    r: Option<(u32, u32)>,
)
    requires
        call_ensures(Binding::session_ended, (b,), again),
        after == *final(b),
        call_ensures(Binding::may_start, (&after,), start),
        call_ensures(Binding::resize_to_push, (&after, size), r),
    ensures
        r is None,
        again == start,
        again <==> !old(b).closed,
        after.last_pushed is None && !after.connected && !after.registered,
        after.display_name == old(b).display_name,
        after.configured == old(b).configured,
        after.node == old(b).node,
{
}

/// What comes first for a buffer leaves first; other buffers are not touched.
pub proof fn releases_leave_in_order(
    q: &mut ReleaseQueues,
    p: &mut ReleaseQueues,
    index: u32,
    token: u64,
    taken: bool,
    r: Option<u64>,
    i: int,
)
    requires
        call_ensures(ReleaseQueues::push, (q, index, token), taken),
        *old(p) == *final(q),
        call_ensures(ReleaseQueues::pop, (p, index), r),
        0 <= i < old(q)@.len(),
    ensures
        taken <==> index < old(q)@.len(),
        taken && old(q)@[index as int].len() == 0 ==> r == Some(token),
        taken && old(q)@[index as int].len() > 0 ==> r == Some(old(q)@[index as int][0]),
        !taken ==> r is None,
        final(p)@.len() == old(q)@.len(),
        i != index ==> final(p)@[i] == old(q)@[i],
        i == index ==> final(p)@[i] == (old(q)@[i].push(token)).skip(1),
{
}

/// A surface that gets a size has it in pixels from then on, at the fine scale
/// where there is one and a viewport for it, and at the whole scale otherwise.
/// The daemon is told where it knows the display by another size.
pub proof fn configured_surface_has_its_size(
    o: &mut Output,
    width: u32,
    height: u32,
    prefix: &str,
    output: u32,
    node: DrmNode,
    r: Configured,
    p: (u32, u32),
)
    requires
        call_ensures(Output::on_configure, (o, width, height, prefix, output, node), r),
        call_ensures(
            physical_size,
            (
                (width, height),
                old(o).scale,
                if old(o).fractional_120 > 0 && old(o).viewport {
                    Some(old(o).fractional_120)
                } else {
                    None
                },
            ),
            p,
        ),
    ensures
        final(o).binding matches Some(b) && {
            &&& b.logical == Some((width, height))
            &&& b.configured == Some(p)
            &&& b.fractional_120 == old(o).fractional_120
            &&& old(o).scale >= 1 ==> b.scale == old(o).scale
            &&& old(o).binding is None ==> {
                &&& b.display_name@ == prefix@ + "-"@ + text::dec_text(output as nat)
                &&& b.node == node
                &&& b.viewport == old(o).viewport
                &&& !b.registered && !b.connected && !b.closed && !b.frame_pending
                &&& b.last_pushed is None
            }
            &&& old(o).binding matches Some(c) ==> b.display_name == c.display_name && b.node
                == c.node && b.registered == c.registered && b.connected == c.connected && b.closed
                == c.closed && b.last_pushed == c.last_pushed
        },
        r.start_worker == !old(o).worker_started,
        final(o).worker_started,
        old(o).binding is None ==> r.resize is None,
        old(o).binding matches Some(c) ==> (r.resize is Some <==> c.registered && c.connected
            && c.last_pushed != Some(p)),
        r.resize is Some ==> r.resize == Some(p),
{
}

/// A scale that changes under a surface changes its size in pixels, and the
/// daemon is told of that.
pub proof fn new_scale_is_told(
    o: &mut Output,
    scale: u32,
    r: Option<(u32, u32)>,
    size: (u32, u32),
    p: (u32, u32),
    b: Binding,
)
    requires
        call_ensures(Output::on_preferred_scale, (o, scale), r),
        old(o).binding == Some(b),
        b.logical == Some(size),
        call_ensures(
            physical_size,
            (
                size,
                old(o).scale,
                if old(o).viewport {
                    Some(scale)
                } else {
                    None
                },
            ),
            p,
        ),
    ensures
        final(o).fractional_120 == scale,
        final(o).binding == Some(Binding { fractional_120: scale, configured: Some(p), ..b }),
        r is Some <==> b.configured != Some(p) && b.registered && b.connected && b.last_pushed
            != Some(p),
        r is Some ==> r == Some(p),
{
}

/// An output that goes is closed for good, and its session is shut down where
/// it runs; a surface that is closed leaves nothing behind.
pub proof fn outputs_go(o: &mut Output, p: &mut Output, shut_down: bool)
    requires
        call_ensures(Output::on_removed, (o,), shut_down),
        call_ensures(Output::on_closed, (p,), ()),
    ensures
        shut_down <==> (old(o).binding matches Some(b) && b.connected),
        old(o).binding matches Some(b) ==> final(o).binding == Some(Binding { closed: true, ..b }),
        old(o).binding is None ==> final(o).binding is None,
        final(p).binding is None && !final(p).surface && !final(p).worker_started,
        final(p).scale == old(p).scale,
        final(p).fractional_120 == 0,
{
}

/// A surface is wanted once, where the compositor can make one.
pub proof fn surface_is_made_once(
    o: &mut Output,
    viewport: bool,
    compositor: bool,
    shell: bool,
    a: bool,
    after: Output,
    b: bool,
)
    requires
        call_ensures(Output::surface_made, (o, viewport), ()),
        call_ensures(Output::wants_surface, (&*old(o), compositor, shell), a),
        after == *final(o),
        call_ensures(Output::wants_surface, (&after, compositor, shell), b),
    ensures
        !b,
        a <==> !old(o).surface && compositor && shell,
        after.viewport == viewport,
{
}

} // verus!
