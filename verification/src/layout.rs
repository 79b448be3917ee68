//! Composition geometry of a display.
//!
//! Single-precision values are kept as their bit patterns; arithmetic on them
//! is left to the caller.

use crate::renderer::ClearColor;
use vstd::prelude::*;

verus! {

#[derive(Debug, Clone, Copy, PartialEq, Eq, Structural)]
pub enum FillMode {
    Stretched,
    PreserveAspectFit,
    PreserveAspectCrop,
    Tiled,
    TiledOnlyHorizontally,
    TiledOnlyVertically,
    Centered,
}

#[derive(Debug, Clone, Copy, PartialEq, Eq, Structural)]
pub enum Align {
    TopLeft,
    Top,
    TopRight,
    Left,
    Center,
    Right,
    BottomLeft,
    Bottom,
    BottomRight,
}

impl Default for FillMode {
    fn default() -> (r: Self)
        ensures
            r == FillMode::Stretched,
    {
        FillMode::Stretched
    }
}

impl Default for Align {
    fn default() -> (r: Self)
        ensures
            r == Align::Center,
    {
        Align::Center
    }
}

/// Layout that applies to one display.
#[derive(Debug, Clone, Copy, PartialEq, Eq, Structural)]
pub struct ResolvedLayout {
    pub fillmode: FillMode,
    pub align: Align,
    pub clear_rgba: ClearColor,
}

/// Magnitude bits of a single-precision value.
pub open spec fn magnitude(bits: u32) -> int {
    if bits >= 0x8000_0000 {
        bits - 0x8000_0000
    } else {
        bits as int
    }
}

/// Equality of two single-precision values by their bits: zeros of either sign
/// are equal, and what is not a number equals nothing.
pub open spec fn float_eq(a: u32, b: u32) -> bool {
    ||| magnitude(a) == 0 && magnitude(b) == 0
    ||| a == b && magnitude(a) <= 0x7f80_0000
}

pub open spec fn float_infinite(a: u32) -> bool {
    magnitude(a) == 0x7f80_0000
}

fn magnitude_bits(bits: u32) -> (r: u32)
    ensures
        r == magnitude(bits),
{
    if bits >= 0x8000_0000 {
        bits - 0x8000_0000
    } else {
        bits
    }
}

pub fn same_float(a: u32, b: u32) -> (r: bool)
    ensures
        r == float_eq(a, b),
{
    (magnitude_bits(a) == 0 && magnitude_bits(b) == 0) || (a == b && magnitude_bits(a)
        <= 0x7f80_0000)
}

pub open spec fn color_eq(a: ClearColor, b: ClearColor) -> bool {
    float_eq(a.r, b.r) && float_eq(a.g, b.g) && float_eq(a.b, b.b) && float_eq(a.a, b.a)
}

pub fn same_color(a: &ClearColor, b: &ClearColor) -> (r: bool)
    ensures
        r == color_eq(*a, *b),
{
    same_float(a.r, b.r) && same_float(a.g, b.g) && same_float(a.b, b.b) && same_float(a.a, b.a)
}

/// A rectangle; an infinite extent stands for the whole of it.
#[derive(Debug, Clone, Copy, PartialEq, Eq, Structural)]
pub struct Rect {
    pub x: u32,
    pub y: u32,
    pub w: u32,
    pub h: u32,
}

pub open spec fn rect_eq(a: Rect, b: Rect) -> bool {
    float_eq(a.x, b.x) && float_eq(a.y, b.y) && float_eq(a.w, b.w) && float_eq(a.h, b.h)
}

pub fn same_rect(a: &Rect, b: &Rect) -> (r: bool)
    ensures
        r == rect_eq(*a, *b),
{
    same_float(a.x, b.x) && same_float(a.y, b.y) && same_float(a.w, b.w) && same_float(a.h, b.h)
}

pub open spec fn full_rect() -> Rect {
    Rect { x: 0, y: 0, w: 0x7f80_0000, h: 0x7f80_0000 }
}

impl Rect {
    /// The rectangle that covers everything.
    pub fn full() -> (r: Self)
        ensures
            r == full_rect(),
    {
        Rect { x: 0, y: 0, w: 0x7f80_0000, h: 0x7f80_0000 }
    }
}

/// An extent that is either given or a whole number of pixels.
#[derive(Debug, Clone, Copy, PartialEq, Eq, Structural)]
pub enum Extent {
    Given(u32),
    Pixels(u32),
}

/// A rectangle with every extent settled.
#[derive(Debug, Clone, Copy, PartialEq, Eq, Structural)]
pub struct SettledRect {
    pub x: u32,
    pub y: u32,
    pub w: Extent,
    pub h: Extent,
}

/// How a display composes its source.
#[derive(Debug, Clone, Copy, PartialEq, Eq, Structural)]
pub enum Geometry {
    /// Fit a texture onto a display under a layout.
    Fit { tex_w: u32, tex_h: u32, disp_w: u32, disp_h: u32, fillmode: FillMode, align: Align },
    /// Use these rectangles.
    Explicit { source: SettledRect, dest: SettledRect },
}

/// Composition of one display.
#[derive(Debug, Clone, Copy, PartialEq, Eq, Structural)]
pub struct ProjectedConfig {
    pub config_generation: u64,
    pub geometry: Geometry,
    pub transform: u32,
    pub clear_rgba: ClearColor,
}

/// Geometry of one link from a renderer to a display.
#[derive(Debug, Clone, Copy, PartialEq, Eq, Structural)]
pub struct LinkGeometry {
    pub src_rect: Rect,
    pub dst_rect: Rect,
    pub transform: u32,
    pub clear_rgba: ClearColor,
}

pub open spec fn settle_extent(bits: u32, whole: u32) -> Extent {
    if float_infinite(bits) {
        Extent::Pixels(whole)
    } else {
        Extent::Given(bits)
    }
}

pub open spec fn settle_rect(r: Rect, w: u32, h: u32) -> SettledRect {
    SettledRect { x: r.x, y: r.y, w: settle_extent(r.w, w), h: settle_extent(r.h, h) }
}

pub open spec fn projection(
    link: LinkGeometry,
    tex: (u32, u32),
    disp: (u32, u32),
    config_generation: u64,
    layout: ResolvedLayout,
) -> ProjectedConfig {
    ProjectedConfig {
        config_generation,
        geometry: if rect_eq(link.src_rect, full_rect()) && rect_eq(link.dst_rect, full_rect()) {
            Geometry::Fit {
                tex_w: tex.0,
                tex_h: tex.1,
                disp_w: disp.0,
                disp_h: disp.1,
                fillmode: layout.fillmode,
                align: layout.align,
            }
        } else {
            Geometry::Explicit {
                source: settle_rect(link.src_rect, tex.0, tex.1),
                dest: settle_rect(link.dst_rect, disp.0, disp.1),
            }
        },
        transform: link.transform,
        clear_rgba: link.clear_rgba,
    }
}

fn settle(bits: u32, whole: u32) -> (r: Extent)
    ensures
        r == settle_extent(bits, whole),
{
    if magnitude_bits(bits) == 0x7f80_0000 {
        Extent::Pixels(whole)
    } else {
        Extent::Given(bits)
    }
}

/// Settles a link's geometry. A link without rectangles of its own follows the
/// display's layout; one with either rectangle set keeps both as they are.
pub fn project_link(
    link: &LinkGeometry,
    tex: (u32, u32),
    disp: (u32, u32),
    config_generation: u64,
    layout: &ResolvedLayout,
) -> (r: ProjectedConfig)
    ensures
        r == projection(*link, tex, disp, config_generation, *layout),
{
    let full = Rect::full();
    let geometry = if same_rect(&link.src_rect, &full) && same_rect(&link.dst_rect, &full) {
        Geometry::Fit {
            tex_w: tex.0,
            tex_h: tex.1,
            disp_w: disp.0,
            disp_h: disp.1,
            fillmode: layout.fillmode,
            align: layout.align,
        }
    } else {
        Geometry::Explicit {
            source: SettledRect {
                x: link.src_rect.x,
                y: link.src_rect.y,
                w: settle(link.src_rect.w, tex.0),
                h: settle(link.src_rect.h, tex.1),
            },
            dest: SettledRect {
                x: link.dst_rect.x,
                y: link.dst_rect.y,
                w: settle(link.dst_rect.w, disp.0),
                h: settle(link.dst_rect.h, disp.1),
            },
        }
    };
    ProjectedConfig {
        config_generation,
        geometry,
        transform: link.transform,
        clear_rgba: link.clear_rgba,
    }
}

/// Rectangles of a link's own win over any layout.
pub proof fn explicit_geometry_ignores_the_layout(
    link: LinkGeometry,
    tex: (u32, u32),
    disp: (u32, u32),
    generation: u64,
    a: ResolvedLayout,
    b: ResolvedLayout,
)
    requires
        !rect_eq(link.src_rect, full_rect()) || !rect_eq(link.dst_rect, full_rect()),
    ensures
        projection(link, tex, disp, generation, a) == projection(link, tex, disp, generation, b),
{
}

/// A link without rectangles of its own fits the whole texture of the renderer
/// onto the whole display: the size of the texture is that of the texture
/// whatever the display's is, and the other way round.
pub proof fn whole_texture_is_fitted(
    link: &LinkGeometry,
    tex: (u32, u32),
    disp: (u32, u32),
    generation: u64,
    layout: &ResolvedLayout,
    r: ProjectedConfig,
)
    requires
        call_ensures(project_link, (link, tex, disp, generation, layout), r),
        magnitude(link.src_rect.x) == 0 && magnitude(link.src_rect.y) == 0,
        magnitude(link.dst_rect.x) == 0 && magnitude(link.dst_rect.y) == 0,
        link.src_rect.w == 0x7f80_0000 && link.src_rect.h == 0x7f80_0000,
        link.dst_rect.w == 0x7f80_0000 && link.dst_rect.h == 0x7f80_0000,
    ensures
        r.geometry matches Geometry::Fit { tex_w, tex_h, disp_w, disp_h, fillmode, align } && {
            &&& tex_w == tex.0 && tex_h == tex.1
            &&& disp_w == disp.0 && disp_h == disp.1
            &&& fillmode == layout.fillmode
            &&& align == layout.align
        },
{
}

/// Rectangles of a link's own are kept, where either of them is not the whole:
/// the source is cut from the texture and the destination from the display, and
/// an extent that is not given is all of the one it is cut from.
pub proof fn own_rectangles_are_kept(
    link: &LinkGeometry,
    tex: (u32, u32),
    disp: (u32, u32),
    generation: u64,
    layout: &ResolvedLayout,
    r: ProjectedConfig,
)
    requires
        call_ensures(project_link, (link, tex, disp, generation, layout), r),
        ({
            ||| magnitude(link.src_rect.x) != 0
            ||| magnitude(link.src_rect.y) != 0
            ||| link.src_rect.w != 0x7f80_0000
            ||| link.src_rect.h != 0x7f80_0000
            ||| magnitude(link.dst_rect.x) != 0
            ||| magnitude(link.dst_rect.y) != 0
            ||| link.dst_rect.w != 0x7f80_0000
            ||| link.dst_rect.h != 0x7f80_0000
        }),
    ensures
        r.geometry matches Geometry::Explicit { source, dest } && {
            &&& source.x == link.src_rect.x && source.y == link.src_rect.y
            &&& dest.x == link.dst_rect.x && dest.y == link.dst_rect.y
            &&& source.w == (if magnitude(link.src_rect.w) == 0x7f80_0000 {
                Extent::Pixels(tex.0)
            } else {
                Extent::Given(link.src_rect.w)
            })
            &&& source.h == (if magnitude(link.src_rect.h) == 0x7f80_0000 {
                Extent::Pixels(tex.1)
            } else {
                Extent::Given(link.src_rect.h)
            })
            &&& dest.w == (if magnitude(link.dst_rect.w) == 0x7f80_0000 {
                Extent::Pixels(disp.0)
            } else {
                Extent::Given(link.dst_rect.w)
            })
            &&& dest.h == (if magnitude(link.dst_rect.h) == 0x7f80_0000 {
                Extent::Pixels(disp.1)
            } else {
                Extent::Given(link.dst_rect.h)
            })
        },
{
}

/// Whatever the geometry, a composition carries its own number, and the
/// orientation and colour of its link.
pub proof fn composition_carries_orientation_and_colour(
    link: &LinkGeometry,
    tex: (u32, u32),
    disp: (u32, u32),
    generation: u64,
    layout: &ResolvedLayout,
    r: ProjectedConfig,
)
    requires
        call_ensures(project_link, (link, tex, disp, generation, layout), r),
    ensures
        r.config_generation == generation,
        r.transform == link.transform,
        r.clear_rgba == link.clear_rgba,
{
}

/// Equality of single-precision values: the two zeros are equal, a value that
/// is not a number equals nothing, and any other equals itself alone.
pub proof fn float_equality(a: u32, b: u32, r: bool)
    requires
        call_ensures(same_float, (a, b), r),
    ensures
        a == 0 && b == 0x8000_0000 ==> r,
        a > 0xff80_0000 || 0x7f80_0000 < a < 0x8000_0000 ==> !r,
        a == b && (a <= 0x7f80_0000 || 0x8000_0000 <= a <= 0xff80_0000) ==> r,
        a != b && a != 0 && a != 0x8000_0000 ==> !r,
{
}

} // verus!
