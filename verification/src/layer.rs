//! The layer-shell display client: its command line, the globals it binds, and
//! what it learns from the compositor about buffer formats.

use crate::drm::DrmNode;
use crate::negotiate::{
    self, CapArrays, ModCap, DEFAULT_COLOR, DRM_FORMAT_ABGR8888, DRM_FORMAT_MOD_LINEAR, DRM_FORMAT_XRGB8888,
    MEM_HINT_DEVICE_LOCAL, MEM_HINT_HOST_VISIBLE, SYNC_SYNCOBJ_BINARY, SYNC_SYNCOBJ_TIMELINE,
};
use crate::paths::{self, join};
use crate::text::{self, str_eq};
use vstd::prelude::*;

pub mod output;
pub mod session;

verus! {

// ---------------------------------------------------------------------------
// Command line
// ---------------------------------------------------------------------------

/// What the client is told on its command line.
#[derive(Debug)]
pub struct Args {
    pub socket: String,
    pub name_prefix: String,
}

/// Why the client prints its usage and exits.
#[derive(Debug)]
pub enum ArgsFault {
    SocketValue,
    NameValue,
    Help,
    Unknown(String),
}

pub enum FaultView {
    SocketValue,
    NameValue,
    Help,
    Unknown(Seq<char>),
}

impl View for ArgsFault {
    type V = FaultView;

    open spec fn view(&self) -> FaultView {
        match self {
            ArgsFault::SocketValue => FaultView::SocketValue,
            ArgsFault::NameValue => FaultView::NameValue,
            ArgsFault::Help => FaultView::Help,
            ArgsFault::Unknown(a) => FaultView::Unknown(a@),
        }
    }
}

/// The socket and the name that the arguments from `i` on give, over those
/// given before.
pub open spec fn given(
    args: Seq<Seq<char>>,
    i: int,
    socket: Option<Seq<char>>,
    name: Seq<char>,
) -> Result<(Option<Seq<char>>, Seq<char>), FaultView>
    decreases args.len() - i,
{
    if i >= args.len() {
        Ok((socket, name))
    } else if args[i] == "--socket"@ {
        if i + 1 < args.len() {
            given(args, i + 2, Some(args[i + 1]), name)
        } else {
            Err(FaultView::SocketValue)
        }
    } else if args[i] == "--name"@ {
        if i + 1 < args.len() {
            given(args, i + 2, socket, args[i + 1])
        } else {
            Err(FaultView::NameValue)
        }
    } else if args[i] == "-h"@ || args[i] == "--help"@ {
        Err(FaultView::Help)
    } else {
        Err(FaultView::Unknown(args[i]))
    }
}

/// Place of the daemon's socket for displays, from the environment's
/// `XDG_RUNTIME_DIR`.
pub open spec fn socket_place(runtime_dir: Option<Seq<char>>) -> Seq<char> {
    let dir = match runtime_dir {
        Some(d) => d,
        None => "/tmp"@,
    };
    paths::continued(paths::continued(dir, "waywallen"@), "display.sock"@)
}

pub fn default_socket_path(runtime_dir: &Option<String>) -> (s: String)
    ensures
        s@ == socket_place(text::opt_text(*runtime_dir)),
{
    let dir = match runtime_dir {
        Some(d) => join(d.as_str(), "waywallen"),
        None => join("/tmp", "waywallen"),
    };
    join(dir.as_str(), "display.sock")
}

/// Reads the command line. The socket is the one given there, else the one that
/// the environment's `WAYWALLEN_SOCKET` names, else the daemon's usual one.
pub fn parse_args(
    args: &Vec<String>,
    env_socket: &Option<String>,
    runtime_dir: &Option<String>,
) -> (r: Result<Args, ArgsFault>)
    ensures
        match given(text::lines(args@), 0, None, "waywallen-layer-shell"@) {
            Err(f) => r is Err && r->Err_0@ == f,
            Ok((socket, name)) => r is Ok && r->Ok_0.name_prefix@ == name && r->Ok_0.socket@
                == match socket {
                Some(s) => s,
                None => match *env_socket {
                    Some(s) => s@,
                    None => socket_place(text::opt_text(*runtime_dir)),
                },
            },
        },
{
    let ghost all = text::lines(args@);
    let mut socket: Option<String> = None;
    let mut name_prefix = "waywallen-layer-shell".to_owned();
    let mut i: usize = 0;
    while i < args.len()
        invariant
            i <= args@.len(),
            all == text::lines(args@),
            given(all, 0, None, "waywallen-layer-shell"@) == given(
                all,
                i as int,
                text::opt_text(socket),
                name_prefix@,
            ),
        decreases args.len() - i,
    {
        assert(all[i as int] == args@[i as int]@);
        let a = args[i].as_str();
        if str_eq(a, "--socket") {
            if args.len() - i < 2 {
                return Err(ArgsFault::SocketValue);
            }
            assert(all[i + 1] == args@[i + 1]@);
            socket = Some(args[i + 1].clone());
            i = i + 2;
        } else if str_eq(a, "--name") {
            if args.len() - i < 2 {
                return Err(ArgsFault::NameValue);
            }
            assert(all[i + 1] == args@[i + 1]@);
            name_prefix = args[i + 1].clone();
            i = i + 2;
        } else if str_eq(a, "-h") || str_eq(a, "--help") {
            return Err(ArgsFault::Help);
        } else {
            return Err(ArgsFault::Unknown(args[i].clone()));
        }
    }
    let socket = match socket {
        Some(s) => s,
        None => match env_socket {
            Some(s) => s.clone(),
            None => default_socket_path(runtime_dir),
        },
    };
    Ok(Args { socket, name_prefix })
}

// ---------------------------------------------------------------------------
// Globals
// ---------------------------------------------------------------------------

/// A global of the compositor that the client binds.
#[derive(Debug, Clone, Copy, PartialEq, Eq, Structural)]
pub enum Global {
    Compositor,
    LayerShell,
    Dmabuf,
    Viewporter,
    FractionalScale,
    Output,
}

pub open spec fn global_named(interface: Seq<char>) -> Option<Global> {
    if interface == "wl_compositor"@ {
        Some(Global::Compositor)
    } else if interface == "zwlr_layer_shell_v1"@ {
        Some(Global::LayerShell)
    } else if interface == "zwp_linux_dmabuf_v1"@ {
        Some(Global::Dmabuf)
    } else if interface == "wp_viewporter"@ {
        Some(Global::Viewporter)
    } else if interface == "wp_fractional_scale_manager_v1"@ {
        Some(Global::FractionalScale)
    } else if interface == "wl_output"@ {
        Some(Global::Output)
    } else {
        None
    }
}

/// Last version of the global that the client understands.
pub open spec fn understood(g: Global) -> u32 {
    match g {
        Global::Compositor => 6,
        Global::LayerShell | Global::Dmabuf | Global::Output => 4,
        Global::Viewporter | Global::FractionalScale => 1,
    }
}

/// Which global it is, and the version to bind it at; none for one that the
/// client has no use for.
pub fn bound_global(interface: &str, offered: u32) -> (r: Option<(Global, u32)>)
    ensures
        match global_named(interface@) {
            Some(g) => r == Some(
                (
                    g,
                    if offered < understood(g) {
                        offered
                    } else {
                        understood(g)
                    },
                ),
            ),
            None => r is None,
        },
{
    let (g, last): (Global, u32) = if str_eq(interface, "wl_compositor") {
        (Global::Compositor, 6)
    } else if str_eq(interface, "zwlr_layer_shell_v1") {
        (Global::LayerShell, 4)
    } else if str_eq(interface, "zwp_linux_dmabuf_v1") {
        (Global::Dmabuf, 4)
    } else if str_eq(interface, "wp_viewporter") {
        (Global::Viewporter, 1)
    } else if str_eq(interface, "wp_fractional_scale_manager_v1") {
        (Global::FractionalScale, 1)
    } else if str_eq(interface, "wl_output") {
        (Global::Output, 4)
    } else {
        return None;
    };
    Some(
        (
            g,
            if offered < last {
                offered
            } else {
                last
            },
        ),
    )
}

/// Why the client cannot run on the compositor, if it cannot.
pub fn missing_global(
    compositor: bool,
    layer_shell: bool,
    dmabuf: bool,
    outputs: usize,
) -> (r: Option<
    &'static str,
>)
    ensures
        match r {
            None => compositor && layer_shell && dmabuf && outputs > 0,
            Some(m) => m@ == if !compositor {
                "compositor does not expose wl_compositor"@
            } else if !layer_shell {
                "compositor does not expose zwlr_layer_shell_v1 — try a different compositor (Hyprland/Sway/KWin/new Mutter)"@
            } else if !dmabuf {
                "compositor does not expose zwp_linux_dmabuf_v1"@
            } else {
                "no wl_output available"@
            } && !(compositor && layer_shell && dmabuf && outputs > 0),
        },
{
    if !compositor {
        Some("compositor does not expose wl_compositor")
    } else if !layer_shell {
        Some(
            "compositor does not expose zwlr_layer_shell_v1 — try a different compositor (Hyprland/Sway/KWin/new Mutter)",
        )
    } else if !dmabuf {
        Some("compositor does not expose zwp_linux_dmabuf_v1")
    } else if outputs == 0 {
        Some("no wl_output available")
    } else {
        None
    }
}

// ---------------------------------------------------------------------------
// Numbers in bytes
// ---------------------------------------------------------------------------

/// Order in which the machine puts the bytes of a number.
#[derive(Debug, Clone, Copy, PartialEq, Eq, Structural)]
pub enum ByteOrder {
    Little,
    Big,
}

/// The number whose digits to the base 256 are given, the highest first.
pub open spec fn big_value(s: Seq<u8>) -> nat
    decreases s.len(),
{
    if s.len() == 0 {
        0
    } else {
        big_value(s.drop_last()) * 256 + s.last() as nat
    }
}

/// The number that the bytes are on a machine of that order.
pub open spec fn value_of(s: Seq<u8>, order: ByteOrder) -> nat {
    match order {
        ByteOrder::Big => big_value(s),
        ByteOrder::Little => big_value(s.reverse()),
    }
}

pub open spec fn pow256(n: nat) -> nat
    decreases n,
{
    if n == 0 {
        1
    } else {
        pow256((n - 1) as nat) * 256
    }
}

proof fn lemma_big_value_bound(s: Seq<u8>)
    ensures
        big_value(s) < pow256(s.len()),
    decreases s.len(),
{
    if s.len() > 0 {
        lemma_big_value_bound(s.drop_last());
    }
}

proof fn lemma_powers()
    ensures
        pow256(2) == 0x1_0000,
        pow256(4) == 0x1_0000_0000,
        pow256(8) == 0x1_0000_0000_0000_0000,
{
    reveal_with_fuel(pow256, 9);
}

/// Reads a number of at most eight bytes.
fn read_number(bytes: &Vec<u8>, at: usize, n: usize, order: ByteOrder) -> (r: u64)
    requires
        n <= 8,
        at + n <= bytes@.len(),
    ensures
        r == value_of(bytes@.subrange(at as int, at + n), order),
{
    let len: usize = bytes.len();
    let ghost part = bytes@.subrange(at as int, at + n);
    let ghost digits = match order {
        ByteOrder::Big => part,
        ByteOrder::Little => part.reverse(),
    };
    let mut acc: u64 = 0;
    let mut k: usize = 0;
    assert(digits.take(0) =~= Seq::<u8>::empty());
    while k < n
        invariant
            k <= n,
            n <= 8,
            len == bytes@.len(),
            at + n <= len,
            part == bytes@.subrange(at as int, at + n),
            digits == (match order {
                ByteOrder::Big => part,
                ByteOrder::Little => part.reverse(),
            }),
            acc == big_value(digits.take(k as int)),
        decreases n - k,
    {
        let b: u8 = match order {
            ByteOrder::Big => bytes[at + k],
            ByteOrder::Little => bytes[at + (n - 1 - k)],
        };
        assert(b == digits[k as int]);
        proof {
            let t = digits.take(k + 1);
            assert(t.drop_last() =~= digits.take(k as int));
            lemma_big_value_bound(t);
            lemma_powers();
            if k + 1 < 8 {
                reveal_with_fuel(pow256, 9);
                assert(pow256((k + 1) as nat) <= pow256(8));
            }
        }
        acc = acc * 256 + b as u64;
        k = k + 1;
    }
    assert(digits.take(n as int) =~= digits);
    acc
}

// ---------------------------------------------------------------------------
// The compositor's GPU
// ---------------------------------------------------------------------------

/// Major number in a device number.
pub open spec fn major_of(dev: u64) -> u32 {
    (((dev >> 8) & 0xfffu64) | ((dev >> 32) & !0xfffu64)) as u32
}

/// Minor number in a device number.
pub open spec fn minor_of(dev: u64) -> u32 {
    ((dev & 0xffu64) | ((dev >> 12) & !0xffu64)) as u32
}

/// The device number of a pair: the low parts lie together, the high parts
/// around them.
pub open spec fn device_number(major: u32, minor: u32) -> u64 {
    ((minor as u64) & 0xffu64) | (((major as u64) & 0xfffu64) << 8) | (((minor as u64) & !0xffu64)
        << 12) | (((major as u64) & !0xfffu64) << 32)
}

/// A pair of numbers is read back from the device number that it makes.
pub proof fn device_number_reads_back(major: u32, minor: u32)
    ensures
        major_of(device_number(major, minor)) == major,
        minor_of(device_number(major, minor)) == minor,
{
    let dev = device_number(major, minor);
    assert((((dev >> 8) & 0xfffu64) | ((dev >> 32) & !0xfffu64)) as u32 == major) by (bit_vector)
        requires
            dev == ((minor as u64) & 0xffu64) | (((major as u64) & 0xfffu64) << 8) | (((minor as u64)
                & !0xffu64) << 12) | (((major as u64) & !0xfffu64) << 32),
    ;
    assert(((dev & 0xffu64) | ((dev >> 12) & !0xffu64)) as u32 == minor) by (bit_vector)
        requires
            dev == ((minor as u64) & 0xffu64) | (((major as u64) & 0xfffu64) << 8) | (((minor as u64)
                & !0xffu64) << 12) | (((major as u64) & !0xfffu64) << 32),
    ;
}

/// The GPU that the compositor works on, from the bytes of its device number;
/// none where there are too few.
pub fn main_device(device: &Vec<u8>, order: ByteOrder) -> (r: Option<DrmNode>)
    ensures
        if device@.len() < 8 {
            r is None
        } else {
            let dev = value_of(device@.subrange(0, 8), order) as u64;
            r == Some(DrmNode { major: major_of(dev), minor: minor_of(dev) })
        },
{
    if device.len() < 8 {
        return None;
    }
    let dev: u64 = read_number(device, 0, 8, order);
    let major: u32 = #[verifier::truncate] ((((dev >> 8) & 0xfffu64) | ((dev >> 32) & !0xfffu64)) as u32);
    let minor: u32 = #[verifier::truncate] (((dev & 0xffu64) | ((dev >> 12) & !0xffu64)) as u32);
    Some(DrmNode { major, minor })
}

// ---------------------------------------------------------------------------
// Formats
// ---------------------------------------------------------------------------

/// Record `i` of a format table: a fourcc, padding, a modifier.
pub open spec fn record(bytes: Seq<u8>, i: int, order: ByteOrder) -> (u32, u64) {
    (
        value_of(bytes.subrange(16 * i, 16 * i + 4), order) as u32,
        value_of(bytes.subrange(16 * i + 8, 16 * i + 16), order) as u64,
    )
}

/// The records of a format table; bytes at the end that make no whole record
/// are passed over.
pub open spec fn records(bytes: Seq<u8>, order: ByteOrder) -> Seq<(u32, u64)> {
    Seq::new(bytes.len() / 16, |i: int| record(bytes, i, order))
}

pub fn format_table(bytes: &Vec<u8>, order: ByteOrder) -> (out: Vec<(u32, u64)>)
    ensures
        out@ == records(bytes@, order),
{
    let len: usize = bytes.len();
    let n: usize = len / 16;
    let mut out: Vec<(u32, u64)> = Vec::new();
    let mut i: usize = 0;
    while i < n
        invariant
            i <= n,
            len == bytes@.len(),
            n == len / 16,
            out@ == records(bytes@, order).take(i as int),
        decreases n - i,
    {
        let at: usize = i * 16;
        let f: u64 = read_number(bytes, at, 4, order);
        let m: u64 = read_number(bytes, at + 8, 8, order);
        proof {
            lemma_powers();
            let part = bytes@.subrange(16 * i, 16 * i + 4);
            lemma_big_value_bound(part);
            lemma_big_value_bound(part.reverse());
        }
        out.push((f as u32, m));
        i = i + 1;
        assert(out@ =~= records(bytes@, order).take(i as int));
    }
    assert(records(bytes@, order).take(n as int) =~= records(bytes@, order));
    out
}

/// A format and the modifiers it can come in.
pub type Group = (u32, Seq<u64>);

/// The listing names the pair.
pub open spec fn holds(groups: Seq<Group>, fourcc: u32, modifier: u64) -> bool {
    exists|i: int| 0 <= i < groups.len() && (#[trigger] groups[i]).0 == fourcc && groups[i].1.contains(modifier)
}

/// Formats and modifiers each ascend, and no format is without modifiers.
pub open spec fn in_order(groups: Seq<Group>) -> bool {
    &&& forall|i: int, j: int|
        0 <= i < j < groups.len() ==> (#[trigger] groups[i]).0 < (#[trigger] groups[j]).0
    &&& forall|i: int| 0 <= i < groups.len() ==> rising((#[trigger] groups[i]).1)
    &&& forall|i: int| 0 <= i < groups.len() ==> (#[trigger] groups[i]).1.len() > 0
}

pub open spec fn rising(s: Seq<u64>) -> bool {
    forall|i: int, j: int| 0 <= i < j < s.len() ==> s[i] < s[j]
}

/// What the compositor takes: modifiers by format.
#[derive(Debug)]
pub struct DmabufCaps {
    entries: Vec<(u32, Vec<u64>)>,
}

spec fn groups_of(e: Seq<(u32, Vec<u64>)>) -> Seq<Group> {
    Seq::new(e.len(), |i: int| (e[i].0, e[i].1@))
}

impl View for DmabufCaps {
    type V = Seq<Group>;

    closed spec fn view(&self) -> Seq<Group> {
        groups_of(self.entries@)
    }
}

fn insert_modifier(mods: &mut Vec<u64>, m: u64)
    requires
        rising(old(mods)@),
    ensures
        rising(final(mods)@),
        final(mods)@.len() > 0,
        forall|x: u64| #[trigger] final(mods)@.contains(x) <==> old(mods)@.contains(x) || x == m,
{
    let ghost before = mods@;
    let mut i: usize = 0;
    while i < mods.len() && mods[i] < m
        invariant
            mods@ == before,
            rising(before),
            i <= mods@.len(),
            forall|j: int| 0 <= j < i ==> before[j] < m,
        decreases mods.len() - i,
    {
        i = i + 1;
    }
    if i < mods.len() && mods[i] == m {
        assert(before.contains(m));
        return;
    }
    mods.insert(i, m);
    assert forall|x: u64| #[trigger] mods@.contains(x) <==> before.contains(x) || x == m by {
        if before.contains(x) {
            let j = before.index_of(x);
            assert(mods@[if j < i {
                j
            } else {
                j + 1
            }] == x);
        }
        assert(mods@[i as int] == m);
        if mods@.contains(x) && x != m {
            let j = mods@.index_of(x);
            assert(before[if j < i {
                j
            } else {
                j - 1
            }] == x);
        }
    }
}

impl DmabufCaps {
    #[verifier::type_invariant]
    spec fn sound(self) -> bool {
        in_order(groups_of(self.entries@))
    }

    pub fn new() -> (r: Self)
        ensures
            r@ == Seq::<Group>::empty(),
    {
        let r = DmabufCaps { entries: Vec::new() };
        assert(r@ =~= Seq::<Group>::empty());
        r
    }

    /// Adds a pair.
    pub fn insert(&mut self, fourcc: u32, modifier: u64)
        ensures
            in_order(final(self)@),
            forall|f: u32, m: u64| #[trigger]
                holds(final(self)@, f, m) <==> holds(old(self)@, f, m) || (f == fourcc && m
                    == modifier),
    {
        proof {
            use_type_invariant(&*self);
        }
        let mut taken: Vec<(u32, Vec<u64>)> = Vec::new();
        std::mem::swap(&mut taken, &mut self.entries);
        let ghost before = taken@;
        let ghost g0 = groups_of(before);
        let mut i: usize = 0;
        while i < taken.len() && taken[i].0 < fourcc
            invariant
                taken@ == before,
                g0 == groups_of(before),
                in_order(g0),
                i <= taken@.len(),
                forall|j: int| 0 <= j < i ==> (#[trigger] g0[j]).0 < fourcc,
            decreases taken.len() - i,
        {
            assert(g0[i as int].0 == before[i as int].0);
            i = i + 1;
        }
        if i < taken.len() && taken[i].0 == fourcc {
            assert(g0[i as int] == (before[i as int].0, before[i as int].1@));
            assert(rising(g0[i as int].1));
            let mut mods: Vec<u64> = Vec::new();
            std::mem::swap(&mut mods, &mut taken[i].1);
            insert_modifier(&mut mods, modifier);
            let ghost list = mods@;
            taken[i] = (fourcc, mods);
            proof {
                let g = groups_of(taken@);
                assert(g =~= g0.update(i as int, (fourcc, list)));
                lemma_grown_group(g0, i as int, list, modifier);
            }
        } else {
            let mut mods: Vec<u64> = Vec::new();
            mods.push(modifier);
            let ghost list = mods@;
            assert(i < before.len() ==> g0[i as int].0 == before[i as int].0);
            taken.insert(i, (fourcc, mods));
            proof {
                let g = groups_of(taken@);
                assert(list =~= seq![modifier]);
                assert(g =~= g0.insert(i as int, (fourcc, seq![modifier])));
                lemma_new_group(g0, i as int, fourcc, modifier);
            }
        }
        self.entries = taken;
    }

    pub fn is_empty(&self) -> (r: bool)
        ensures
            r == (self@.len() == 0),
    {
        self.entries.len() == 0
    }
}

proof fn lemma_grown_group(g0: Seq<Group>, i: int, list: Seq<u64>, modifier: u64)
    requires
        in_order(g0),
        0 <= i < g0.len(),
        rising(list),
        list.len() > 0,
        forall|x: u64| #[trigger] list.contains(x) <==> g0[i].1.contains(x) || x == modifier,
    ensures
        ({
            let g = g0.update(i, (g0[i].0, list));
            &&& in_order(g)
            &&& forall|f: u32, m: u64| #[trigger]
                holds(g, f, m) <==> holds(g0, f, m) || (f == g0[i].0 && m == modifier)
        }),
{
    let g = g0.update(i, (g0[i].0, list));
    assert forall|f: u32, m: u64| #[trigger] holds(g, f, m) <==> holds(g0, f, m) || (f == g0[i].0
        && m == modifier) by {
        if holds(g, f, m) {
            let k = choose|k: int|
                0 <= k < g.len() && (#[trigger] g[k]).0 == f && g[k].1.contains(m);
            if k != i {
                assert(g0[k] == g[k]);
            } else if m != modifier {
                assert(g0[i].1.contains(m));
            }
        }
        if holds(g0, f, m) {
            let k = choose|k: int|
                0 <= k < g0.len() && (#[trigger] g0[k]).0 == f && g0[k].1.contains(m);
            assert(g[k].1.contains(m));
        }
        if f == g0[i].0 && m == modifier {
            assert(g[i].1.contains(m));
        }
    }
}

proof fn lemma_new_group(g0: Seq<Group>, at: int, fourcc: u32, modifier: u64)
    requires
        in_order(g0),
        0 <= at <= g0.len(),
        forall|j: int| 0 <= j < at ==> (#[trigger] g0[j]).0 < fourcc,
        at < g0.len() ==> fourcc < g0[at].0,
    ensures
        ({
            let g = g0.insert(at, (fourcc, seq![modifier]));
            &&& in_order(g)
            &&& forall|f: u32, m: u64| #[trigger]
                holds(g, f, m) <==> holds(g0, f, m) || (f == fourcc && m == modifier)
        }),
{
    let g = g0.insert(at, (fourcc, seq![modifier]));
    assert forall|i: int| 0 <= i < g.len() implies g[i] == (if i < at {
        g0[i]
    } else if i == at {
        (fourcc, seq![modifier])
    } else {
        g0[i - 1]
    }) by {}
    assert forall|i: int, j: int| 0 <= i < j < g.len() implies (#[trigger] g[i]).0 < (
    #[trigger] g[j]).0 by {
        if at < g0.len() && j > at {
            assert(g0[at].0 <= g0[j - 1].0);
        }
    }
    assert(seq![modifier].contains(modifier)) by {
        assert(seq![modifier][0] == modifier);
    }
    assert forall|f: u32, m: u64| #[trigger] holds(g, f, m) <==> holds(g0, f, m) || (f == fourcc
        && m == modifier) by {
        if holds(g, f, m) {
            let k = choose|k: int|
                0 <= k < g.len() && (#[trigger] g[k]).0 == f && g[k].1.contains(m);
            if k < at {
                assert(g0[k] == g[k]);
            } else if k > at {
                assert(g0[k - 1] == g[k]);
            }
        }
        if holds(g0, f, m) {
            let k = choose|k: int|
                0 <= k < g0.len() && (#[trigger] g0[k]).0 == f && g0[k].1.contains(m);
            assert(g[if k < at {
                k
            } else {
                k + 1
            }] == g0[k]);
        }
        if f == fourcc && m == modifier {
            assert(g[at].1.contains(m));
        }
    }
}

/// Place in the format table that entry `c` of a tranche names.
pub open spec fn tranche_index(indices: Seq<u8>, c: int, order: ByteOrder) -> int {
    value_of(indices.subrange(2 * c, 2 * c + 2), order) as int
}

/// The tranche names the pair, by one of its first `n` entries.
pub open spec fn tranche_names(
    table: Seq<(u32, u64)>,
    indices: Seq<u8>,
    order: ByteOrder,
    n: int,
    pair: (u32, u64),
) -> bool {
    exists|c: int|
        0 <= c < n && #[trigger] tranche_index(indices, c, order) < table.len() && table[tranche_index(
            indices,
            c,
            order,
        )] == pair
}

impl DmabufCaps {
    /// Adds the pairs that a tranche names. Entries that lead past the table
    /// are passed over.
    pub fn add_tranche(&mut self, table: &Vec<(u32, u64)>, indices: &Vec<u8>, order: ByteOrder)
        ensures
            in_order(final(self)@),
            forall|f: u32, m: u64| #[trigger]
                holds(final(self)@, f, m) <==> holds(old(self)@, f, m) || tranche_names(
                    table@,
                    indices@,
                    order,
                    indices@.len() as int / 2,
                    (f, m),
                ),
    {
        proof {
            use_type_invariant(&*self);
        }
        let ghost start = self@;
        let len: usize = indices.len();
        let n: usize = len / 2;
        let mut c: usize = 0;
        while c < n
            invariant
                c <= n,
                len == indices@.len(),
                n == len / 2,
                in_order(self@),
                forall|f: u32, m: u64| #[trigger]
                    holds(self@, f, m) <==> holds(start, f, m) || tranche_names(
                        table@,
                        indices@,
                        order,
                        c as int,
                        (f, m),
                    ),
            decreases n - c,
        {
            let ghost before = self@;
            let idx: u64 = read_number(indices, c * 2, 2, order);
            let ghost at = tranche_index(indices@, c as int, order);
            assert(idx == at);
            if idx < table.len() as u64 {
                let pair: (u32, u64) = table[idx as usize];
                self.insert(pair.0, pair.1);
            }
            proof {
                assert forall|f: u32, m: u64| #[trigger] holds(self@, f, m) <==> holds(start, f, m)
                    || tranche_names(table@, indices@, order, c + 1, (f, m)) by {
                    assert(holds(before, f, m) <==> holds(start, f, m) || tranche_names(
                        table@,
                        indices@,
                        order,
                        c as int,
                        (f, m),
                    ));
                    if tranche_names(table@, indices@, order, c + 1, (f, m)) {
                        let k = choose|k: int|
                            0 <= k < c + 1 && #[trigger] tranche_index(indices@, k, order)
                                < table@.len() && table@[tranche_index(indices@, k, order)] == (f, m);
                        if k == c {
                            assert(table@[at] == (f, m));
                        } else {
                            assert(tranche_names(table@, indices@, order, c as int, (f, m)));
                        }
                    }
                    if tranche_names(table@, indices@, order, c as int, (f, m)) {
                        let k = choose|k: int|
                            0 <= k < c && #[trigger] tranche_index(indices@, k, order)
                                < table@.len() && table@[tranche_index(indices@, k, order)] == (f, m);
                        assert(tranche_names(table@, indices@, order, c + 1, (f, m)));
                    }
                    if at < table@.len() && table@[at] == (f, m) {
                        assert(tranche_names(table@, indices@, order, c + 1, (f, m)));
                    }
                }
            }
            c = c + 1;
        }
    }

    /// The compositor takes the format with a layout of its own choice: it is
    /// listed as linear.
    pub fn add_format(&mut self, fourcc: u32)
        ensures
            in_order(final(self)@),
            forall|f: u32, m: u64| #[trigger]
                holds(final(self)@, f, m) <==> holds(old(self)@, f, m) || (f == fourcc && m
                    == DRM_FORMAT_MOD_LINEAR),
    {
        self.insert(fourcc, DRM_FORMAT_MOD_LINEAR);
    }

    /// The compositor takes the format with the modifier given by halves.
    pub fn add_modifier(&mut self, fourcc: u32, hi: u32, lo: u32)
        ensures
            in_order(final(self)@),
            forall|f: u32, m: u64| #[trigger]
                holds(final(self)@, f, m) <==> holds(old(self)@, f, m) || (f == fourcc && m == hi
                    * 0x1_0000_0000 + lo),
    {
        let modifier: u64 = ((hi as u64) << 32) | (lo as u64);
        assert(modifier == hi * 0x1_0000_0000 + lo) by (bit_vector)
            requires
                modifier == ((hi as u64) << 32) | (lo as u64),
        ;
        self.insert(fourcc, modifier);
    }
}

// ---------------------------------------------------------------------------
// Announcing the formats
// ---------------------------------------------------------------------------

/// What the client announces to the daemon.
#[derive(Debug)]
pub struct ConsumerCapsMsg {
    pub fourccs: Vec<u32>,
    pub mod_counts: Vec<u32>,
    pub modifiers: Vec<u64>,
    pub plane_counts: Vec<u32>,
    pub device_uuid: Vec<u32>,
    pub driver_uuid: Vec<u32>,
    pub drm_render_major: u32,
    pub drm_render_minor: u32,
    pub mem_hints: u32,
    pub sync_caps: u32,
    pub color_caps: u32,
    pub extent_max_w: u32,
    pub extent_max_h: u32,
}

/// All modifiers of the first `n` groups, one group behind the other.
pub open spec fn flat(groups: Seq<Group>, n: int) -> Seq<u64>
    decreases n,
{
    if n <= 0 {
        Seq::empty()
    } else {
        flat(groups, n - 1) + groups[n - 1].1
    }
}

/// The groups that are announced: those of the compositor, or two formats that
/// are taken everywhere where it named none.
pub open spec fn announced(groups: Seq<Group>) -> Seq<Group> {
    if groups.len() == 0 {
        seq![
            (DRM_FORMAT_ABGR8888, seq![DRM_FORMAT_MOD_LINEAR]),
            (DRM_FORMAT_XRGB8888, seq![DRM_FORMAT_MOD_LINEAR]),
        ]
    } else {
        groups
    }
}

/// The message announces the groups for a GPU.
pub open spec fn announces(m: ConsumerCapsMsg, groups: Seq<Group>, node: DrmNode) -> bool {
    &&& m.fourccs@ == Seq::new(groups.len(), |i: int| groups[i].0)
    &&& m.mod_counts@ == Seq::new(groups.len(), |i: int| groups[i].1.len() as u32)
    &&& m.modifiers@ == flat(groups, groups.len() as int)
    &&& m.plane_counts@ == Seq::new(m.modifiers@.len(), |i: int| 1u32)
    &&& m.device_uuid@ == seq![0u32, 0, 0, 0]
    &&& m.driver_uuid@ == seq![0u32, 0, 0, 0]
    &&& m.drm_render_major == node.major
    &&& m.drm_render_minor == node.minor
    &&& m.mem_hints == MEM_HINT_DEVICE_LOCAL | MEM_HINT_HOST_VISIBLE
    &&& m.sync_caps == SYNC_SYNCOBJ_TIMELINE | SYNC_SYNCOBJ_BINARY
    &&& m.color_caps == DEFAULT_COLOR
    &&& m.extent_max_w == 7680
    &&& m.extent_max_h == 4320
}

fn zero_words() -> (v: Vec<u32>)
    ensures
        v@ == seq![0u32, 0, 0, 0],
{
    let mut v: Vec<u32> = Vec::new();
    v.push(0);
    v.push(0);
    v.push(0);
    v.push(0);
    assert(v@ =~= seq![0u32, 0, 0, 0]);
    v
}

fn ones(n: usize) -> (v: Vec<u32>)
    ensures
        v@ == Seq::new(n as nat, |i: int| 1u32),
{
    let mut v: Vec<u32> = Vec::new();
    while v.len() < n
        invariant
            v@.len() <= n,
            v@ == Seq::new(v@.len(), |i: int| 1u32),
        decreases n - v.len(),
    {
        let ghost before = v@;
        v.push(1);
        assert(v@ =~= Seq::new(v@.len(), |i: int| 1u32));
    }
    v
}

fn append_modifiers(out: &mut Vec<u64>, mods: &Vec<u64>)
    ensures
        final(out)@ == old(out)@ + mods@,
{
    let ghost before = out@;
    let mut j: usize = 0;
    assert(before + mods@.take(0) =~= before);
    while j < mods.len()
        invariant
            j <= mods@.len(),
            out@ == before + mods@.take(j as int),
        decreases mods.len() - j,
    {
        out.push(mods[j]);
        j = j + 1;
        assert(out@ =~= before + mods@.take(j as int));
    }
    assert(mods@.take(j as int) =~= mods@);
}

impl DmabufCaps {
    proof fn lemma_announced_in_order(&self)
        requires
            in_order(self@),
        ensures
            in_order(announced(self@)),
    {
        let g = announced(self@);
        if self@.len() == 0 {
            assert(g[0].1 =~= seq![DRM_FORMAT_MOD_LINEAR]);
            assert(g[1].1 =~= seq![DRM_FORMAT_MOD_LINEAR]);
        }
    }

    /// Announces what the compositor takes, on the given GPU.
    pub fn announcement(&self, node: DrmNode) -> (m: ConsumerCapsMsg)
        ensures
            announces(m, announced(self@), node),
            in_order(announced(self@)),
    {
        proof {
            use_type_invariant(self);
            self.lemma_announced_in_order();
        }
        let mut fourccs: Vec<u32> = Vec::new();
        let mut mod_counts: Vec<u32> = Vec::new();
        let mut modifiers: Vec<u64> = Vec::new();
        let ghost groups = announced(self@);
        if self.is_empty() {
            fourccs.push(DRM_FORMAT_ABGR8888);
            fourccs.push(DRM_FORMAT_XRGB8888);
            mod_counts.push(1);
            mod_counts.push(1);
            modifiers.push(DRM_FORMAT_MOD_LINEAR);
            modifiers.push(DRM_FORMAT_MOD_LINEAR);
            proof {
                reveal_with_fuel(flat, 3);
                assert(fourccs@ =~= Seq::new(groups.len(), |i: int| groups[i].0));
                assert(mod_counts@ =~= Seq::new(groups.len(), |i: int| groups[i].1.len() as u32));
                assert(modifiers@ =~= flat(groups, 2));
            }
        } else {
            let mut i: usize = 0;
            assert(fourccs@ =~= Seq::new(0, |k: int| groups[k].0));
            assert(mod_counts@ =~= Seq::new(0, |k: int| groups[k].1.len() as u32));
            while i < self.entries.len()
                invariant
                    i <= self.entries@.len(),
                    groups == self@,
                    groups.len() == self.entries@.len(),
                    fourccs@ == Seq::new(i as nat, |k: int| groups[k].0),
                    mod_counts@ == Seq::new(i as nat, |k: int| groups[k].1.len() as u32),
                    modifiers@ == flat(groups, i as int),
                decreases self.entries.len() - i,
            {
                assert(groups[i as int] == (self.entries@[i as int].0, self.entries@[i as int].1@));
                fourccs.push(self.entries[i].0);
                mod_counts.push(self.entries[i].1.len() as u32);
                append_modifiers(&mut modifiers, &self.entries[i].1);
                i = i + 1;
                assert(fourccs@ =~= Seq::new(i as nat, |k: int| groups[k].0));
                assert(mod_counts@ =~= Seq::new(i as nat, |k: int| groups[k].1.len() as u32));
            }
        }
        let plane_counts = ones(modifiers.len());
        ConsumerCapsMsg {
            fourccs,
            mod_counts,
            modifiers,
            plane_counts,
            device_uuid: zero_words(),
            driver_uuid: zero_words(),
            drm_render_major: node.major,
            drm_render_minor: node.minor,
            mem_hints: MEM_HINT_DEVICE_LOCAL | MEM_HINT_HOST_VISIBLE,
            sync_caps: SYNC_SYNCOBJ_TIMELINE | SYNC_SYNCOBJ_BINARY,
            color_caps: DEFAULT_COLOR,
            extent_max_w: 7680,
            extent_max_h: 4320,
        }
    }
}

// ---------------------------------------------------------------------------
// Laws
// ---------------------------------------------------------------------------

/// Every group is short enough for its length to be announced.
pub open spec fn countable(groups: Seq<Group>) -> bool {
    forall|i: int| 0 <= i < groups.len() ==> (#[trigger] groups[i]).1.len() <= u32::MAX
}

/// The announced lists, with the usages that the receiver puts beside them.
pub open spec fn arrays(m: ConsumerCapsMsg, usages: Seq<u32>) -> CapArrays {
    CapArrays {
        fourccs: m.fourccs@,
        counts: m.mod_counts@,
        modifiers: m.modifiers@,
        usages,
        planes: m.plane_counts@,
    }
}

proof fn lemma_flat_start(groups: Seq<Group>, counts: Seq<u32>, n: int)
    requires
        countable(groups),
        counts == Seq::new(groups.len(), |i: int| groups[i].1.len() as u32),
        0 <= n <= groups.len(),
    ensures
        negotiate::group_start(counts, n) == flat(groups, n).len(),
    decreases n,
{
    if n > 0 {
        lemma_flat_start(groups, counts, n - 1);
        assert(counts[n - 1] == groups[n - 1].1.len());
    }
}

proof fn lemma_flat_at(groups: Seq<Group>, n: int, g: int, j: int)
    requires
        0 <= g < n <= groups.len(),
        0 <= j < groups[g].1.len(),
    ensures
        flat(groups, g).len() + j < flat(groups, n).len(),
        flat(groups, n)[flat(groups, g).len() + j] == groups[g].1[j],
    decreases n,
{
    if g < n - 1 {
        lemma_flat_at(groups, n - 1, g, j);
    }
}

/// What the client announces breaks none of the daemon's rules, and the daemon
/// reads from it the formats with just the modifiers that the compositor takes.
pub proof fn announcement_reads_back(
    m: ConsumerCapsMsg,
    groups: Seq<Group>,
    node: DrmNode,
    usages: Seq<u32>,
)
    requires
        in_order(groups),
        countable(groups),
        announces(m, groups, node),
        usages.len() == m.modifiers@.len(),
    ensures
        ({
            let a = arrays(m, usages);
            let table = a.table(m.fourccs@.len() as int);
            &&& negotiate::caps_fault(a, m.device_uuid@, m.driver_uuid@) is None
            &&& forall|f: u32| #[trigger]
                table.contains_key(f) <==> exists|i: int|
                    0 <= i < groups.len() && (#[trigger] groups[i]).0 == f
            &&& forall|i: int|
                0 <= i < groups.len() ==> table[(#[trigger] groups[i]).0].map_values(
                    |c: ModCap| c.modifier,
                ) == groups[i].1
        }),
{
    let a = arrays(m, usages);
    let n = groups.len() as int;
    let table = a.table(n);
    lemma_flat_start(groups, a.counts, n);
    assert(a.fourccs.take(n) =~= a.fourccs);
    assert forall|f: u32| #[trigger] table.contains_key(f) <==> exists|i: int|
        0 <= i < groups.len() && (#[trigger] groups[i]).0 == f by {
        if table.contains_key(f) {
            let i = choose|i: int| 0 <= i < a.fourccs.len() && a.fourccs[i] == f;
            assert(groups[i].0 == f);
        }
        if exists|i: int| 0 <= i < groups.len() && (#[trigger] groups[i]).0 == f {
            let i = choose|i: int| 0 <= i < groups.len() && (#[trigger] groups[i]).0 == f;
            assert(a.fourccs[i] == f);
        }
    }
    assert forall|i: int| 0 <= i < groups.len() implies table[(#[trigger] groups[i]).0].map_values(
        |c: ModCap| c.modifier,
    ) == groups[i].1 by {
        let f = groups[i].0;
        assert(a.fourccs[i] == f);
        assert(table.contains_key(f));
        assert forall|k: int| 0 <= k < n && k != i implies (#[trigger] a.fourccs[k])
            != a.fourccs[i] by {
            if k < i {
                assert(groups[k].0 < groups[i].0);
            } else {
                assert(groups[i].0 < groups[k].0);
            }
        }
        negotiate::format_listed_once_keeps_its_group(a, i, n);
        lemma_flat_start(groups, a.counts, i);
        assert(a.counts[i] == groups[i].1.len());
        assert forall|j: int| 0 <= j < groups[i].1.len() implies #[trigger] a.group(i)[j].modifier
            == groups[i].1[j] by {
            lemma_flat_at(groups, n, i, j);
        }
        assert(table[f].map_values(|c: ModCap| c.modifier) =~= groups[i].1);
    }
}

// ---------------------------------------------------------------------------
// Laws of the command line and of the compositor's offers
// ---------------------------------------------------------------------------

proof fn lemma_given_more(
    args: Seq<Seq<char>>,
    more: Seq<Seq<char>>,
    i: int,
    socket: Option<Seq<char>>,
    name: Seq<char>,
)
    requires
        0 <= i <= args.len(),
        more.len() == args.len() + 2,
        args =~= more.take(args.len() as int),
        given(args, i, socket, name) is Ok,
    ensures
        ({
            let r = given(args, i, socket, name)->Ok_0;
            given(more, i, socket, name) == given(more, args.len() as int, r.0, r.1)
        }),
    decreases args.len() - i,
{
    if i < args.len() {
        assert(args[i] == more[i]);
        if i + 1 < args.len() {
            assert(args[i + 1] == more[i + 1]);
            if args[i] == "--socket"@ {
                lemma_given_more(args, more, i + 2, Some(args[i + 1]), name);
            } else if args[i] == "--name"@ {
                lemma_given_more(args, more, i + 2, socket, args[i + 1]);
            }
        }
    }
}

/// A socket that is given at the end counts, and leaves the name; a name that
/// is given at the end counts, and leaves the socket. A flag without its value
/// is told apart from one that is unknown.
pub proof fn last_argument_counts(
    args: &Vec<String>,
    more: &Vec<String>,
    env: &Option<String>,
    dir: &Option<String>,
    a: Result<Args, ArgsFault>,
    b: Result<Args, ArgsFault>,
)
    requires
        call_ensures(parse_args, (args, env, dir), a),
        call_ensures(parse_args, (more, env, dir), b),
        a is Ok,
        more@.len() == args@.len() + 2,
        more@.take(args@.len() as int) == args@,
        "--socket"@ != "--name"@,
    ensures
        ({
            let flag = more@[args@.len() as int]@;
            let value = more@[args@.len() as int + 1]@;
            &&& flag == "--socket"@ ==> b is Ok && b->Ok_0.socket@ == value
                && b->Ok_0.name_prefix@ == a->Ok_0.name_prefix@
            &&& flag == "--name"@ ==> b is Ok && b->Ok_0.name_prefix@ == value && b->Ok_0.socket@
                == a->Ok_0.socket@
            &&& flag != "--socket"@ && flag != "--name"@ ==> b is Err
        }),
{
    let x = text::lines(args@);
    let y = text::lines(more@);
    let n = args@.len() as int;
    assert forall|i: int| 0 <= i < x.len() implies x[i] == #[trigger] y.take(n)[i] by {
        assert(args@[i] == more@.take(n)[i]);
    }
    assert(x =~= y.take(n));
    lemma_given_more(x, y, 0, None, "waywallen-layer-shell"@);
    let r = given(x, 0, None, "waywallen-layer-shell"@)->Ok_0;
    assert(y[n] == more@[n]@ && y[n + 1] == more@[n + 1]@);
    reveal_with_fuel(given, 2);
}

/// Without arguments the environment's socket is used, or else the one in the
/// runtime directory.
pub proof fn environment_gives_the_socket(
    args: &Vec<String>,
    env: &Option<String>,
    dir: &Option<String>,
    r: Result<Args, ArgsFault>,
    place: String,
)
    requires
        call_ensures(parse_args, (args, env, dir), r),
        call_ensures(default_socket_path, (dir,), place),
        args@.len() == 0,
    ensures
        r is Ok,
        r->Ok_0.name_prefix@ == "waywallen-layer-shell"@,
        *env matches Some(s) ==> r->Ok_0.socket@ == s@,
        *env is None ==> r->Ok_0.socket@ == place@,
{
}

/// A global is bound under its own name, in the version that is offered or the
/// last one that is understood, whichever is lower.
pub proof fn globals_are_bound_as_offered(interface: &str, offered: u32, r: Option<(Global, u32)>)
    requires
        call_ensures(bound_global, (interface, offered), r),
    ensures
        interface@ == "wl_compositor"@ ==> r is Some && (r->0).0 == Global::Compositor && (r->0).1 == (
        if offered < 6 {
            offered
        } else {
            6
        }),
        r matches Some((g, v)) ==> {
            &&& v <= offered
            &&& v <= 6
            &&& g != Global::Compositor ==> v <= 4
            &&& g == Global::Viewporter || g == Global::FractionalScale ==> v <= 1
            &&& g == Global::Compositor && offered >= 6 ==> v == 6
            &&& (g == Global::LayerShell || g == Global::Dmabuf || g == Global::Output) && offered
                >= 4 ==> v == 4
            &&& offered <= 1 ==> v == offered
            &&& g == Global::LayerShell ==> interface@ == "zwlr_layer_shell_v1"@
            &&& g == Global::Dmabuf ==> interface@ == "zwp_linux_dmabuf_v1"@
            &&& g == Global::Viewporter ==> interface@ == "wp_viewporter"@
            &&& g == Global::FractionalScale ==> interface@ == "wp_fractional_scale_manager_v1"@
            &&& g == Global::Output ==> interface@ == "wl_output"@
            &&& g == Global::Compositor ==> interface@ == "wl_compositor"@
        },
        interface@ == "zwlr_layer_shell_v1"@ || interface@ == "zwp_linux_dmabuf_v1"@ || interface@
            == "wp_viewporter"@ || interface@ == "wp_fractional_scale_manager_v1"@ || interface@
            == "wl_output"@ ==> r is Some,
{
}

/// Nothing is missing exactly when there is a compositor, a layer shell, a way
/// to hand over buffers, and an output.
pub proof fn what_is_needed_is_there(
    compositor: bool,
    layer_shell: bool,
    dmabuf: bool,
    outputs: usize,
    r: Option<&'static str>,
)
    requires
        call_ensures(missing_global, (compositor, layer_shell, dmabuf, outputs), r),
    ensures
        r is None <==> compositor && layer_shell && dmabuf && outputs > 0,
{
}

/// The bytes of a device number give back its major and its minor number.
pub proof fn device_bytes_name_the_gpu(
    device: &Vec<u8>,
    order: ByteOrder,
    r: Option<DrmNode>,
    major: u32,
    minor: u32,
)
    requires
        call_ensures(main_device, (device, order), r),
        device@.len() >= 8,
        value_of(device@.subrange(0, 8), order) == device_number(major, minor),
    ensures
        r == Some(DrmNode { major, minor }),
{
    device_number_reads_back(major, minor);
}

/// Behind the higher bytes stand the lower ones, or before them, as the machine
/// has it.
pub proof fn bytes_are_read_in_their_order(a: u8, b: u8)
    ensures
        value_of(seq![a, b], ByteOrder::Big) == a * 256 + b,
        value_of(seq![a, b], ByteOrder::Little) == b * 256 + a,
{
    reveal_with_fuel(big_value, 3);
    assert(seq![a, b].drop_last().drop_last() =~= Seq::empty());
    assert(seq![a, b].reverse() =~= seq![b, a]);
    assert(seq![b, a].drop_last().drop_last() =~= Seq::empty());
}

/// A format table has a record for each sixteen bytes: a format in the first
/// four, a modifier in the last eight.
pub proof fn table_has_its_records(bytes: &Vec<u8>, order: ByteOrder, out: Vec<(u32, u64)>, i: int)
    requires
        call_ensures(format_table, (bytes, order), out),
        0 <= i < out@.len(),
    ensures
        16 * out@.len() <= bytes@.len() < 16 * out@.len() + 16,
        out@[i].0 == value_of(bytes@.subrange(16 * i, 16 * i + 4), order) as u32,
        out@[i].1 == value_of(bytes@.subrange(16 * i + 8, 16 * i + 16), order) as u64,
{
}

/// A modifier that comes in two halves is the two put together, and is listed
/// beside those before it.
pub proof fn modifier_halves_are_put_together(
    l: &mut DmabufCaps,
    fourcc: u32,
    hi: u32,
    lo: u32,
    f: u32,
    m: u64,
)
    requires
        call_ensures(DmabufCaps::add_modifier, (l, fourcc, hi, lo), ()),
    ensures
        holds(final(l)@, f, m) <==> holds(old(l)@, f, m) || (f == fourcc && m / 0x1_0000_0000 == hi
            && m % 0x1_0000_0000 == lo),
{
    assert(f == fourcc && m == hi * 0x1_0000_0000 + lo <==> f == fourcc && m / 0x1_0000_0000 == hi
        && m % 0x1_0000_0000 == lo);
}

/// A format that is named without a modifier is taken in its plain layout; a
/// pair that is listed is listed from then on.
pub proof fn formats_are_listed(
    l: &mut DmabufCaps,
    p: &mut DmabufCaps,
    fourcc: u32,
    modifier: u64,
    f: u32,
    m: u64,
)
    requires
        call_ensures(DmabufCaps::add_format, (l, fourcc), ()),
        call_ensures(DmabufCaps::insert, (p, fourcc, modifier), ()),
    ensures
        holds(final(l)@, f, m) <==> holds(old(l)@, f, m) || (f == fourcc && m == 0),
        holds(final(p)@, f, m) <==> holds(old(p)@, f, m) || (f == fourcc && m == modifier),
{
}

/// What the display client announces of itself: buffers of one plane, explicit
/// fences of both forms, memory on the GPU or visible to the host, plain
/// colours, any size that screens have, and the GPU that it works on.
pub proof fn client_announces_what_it_takes(l: DmabufCaps, node: DrmNode, m: ConsumerCapsMsg, i: int)
    requires
        call_ensures(DmabufCaps::announcement, (&l, node), m),
    ensures
        (m.drm_render_major, m.drm_render_minor) == (node.major, node.minor),
        m.fourccs@.len() == m.mod_counts@.len(),
        m.plane_counts@.len() == m.modifiers@.len(),
        0 <= i < m.plane_counts@.len() ==> m.plane_counts@[i] == 1,
        m.sync_caps == 6,
        m.mem_hints == 3,
        m.color_caps == 193,
        (m.extent_max_w, m.extent_max_h) == (7680u32, 4320u32),
        0 <= i < l@.len() ==> m.fourccs@.len() == l@.len() && m.fourccs@[i] == l@[i].0
            && m.mod_counts@[i] == l@[i].1.len() as u32,
        l@.len() == 0 ==> m.fourccs@.len() == 2 && m.fourccs@[0] == 0x3432_4241 && m.fourccs@[1]
            == 0x3432_5258 && m.mod_counts@[0] == 1 && m.mod_counts@[1] == 1,
{
    assert(4u32 | 2u32 == 6u32) by (bit_vector);
    assert(1u32 | 2u32 == 3u32) by (bit_vector);
}

} // verus!
