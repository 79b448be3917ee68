//! Read-only pictures of displays, renderers and libraries, and the events
//! that carry them to subscribers.

use crate::seqs;
use vstd::prelude::*;

verus! {

/// One enabled link of a display.
#[derive(Debug, Clone)]
pub struct DisplayLinkSnapshot {
    pub renderer_id: String,
    pub z_order: i32,
}

pub struct LinkSnapView {
    pub renderer: Seq<char>,
    pub z_order: i32,
}

impl View for DisplayLinkSnapshot {
    type V = LinkSnapView;

    open spec fn view(&self) -> LinkSnapView {
        LinkSnapView { renderer: self.renderer_id@, z_order: self.z_order }
    }
}

/// A registered display with its enabled links.
#[derive(Debug, Clone)]
pub struct DisplaySnapshot {
    pub id: u64,
    pub name: String,
    pub width: u32,
    pub height: u32,
    pub refresh_mhz: u32,
    pub links: Vec<DisplayLinkSnapshot>,
    pub drm_render_major: u32,
    pub drm_render_minor: u32,
}

#[verifier::ext_equal]
pub struct DisplaySnapView {
    pub id: u64,
    pub name: Seq<char>,
    pub width: u32,
    pub height: u32,
    pub refresh_mhz: u32,
    pub links: Seq<LinkSnapView>,
    pub drm_render_major: u32,
    pub drm_render_minor: u32,
}

impl View for DisplaySnapshot {
    type V = DisplaySnapView;

    open spec fn view(&self) -> DisplaySnapView {
        DisplaySnapView {
            id: self.id,
            name: self.name@,
            width: self.width,
            height: self.height,
            refresh_mhz: self.refresh_mhz,
            links: seqs::views(self.links@),
            drm_render_major: self.drm_render_major,
            drm_render_minor: self.drm_render_minor,
        }
    }
}

/// Whether a renderer is running or held.
#[derive(Debug, Clone, Copy, PartialEq, Eq, Structural)]
pub enum RendererStatus {
    Playing,
    Paused,
}

impl RendererStatus {
    pub open spec fn word(self) -> Seq<char> {
        match self {
            RendererStatus::Playing => "playing"@,
            RendererStatus::Paused => "paused"@,
        }
    }

    pub fn as_str(self) -> (s: &'static str)
        ensures
            s@ == self.word(),
    {
        match self {
            RendererStatus::Playing => "playing",
            RendererStatus::Paused => "paused",
        }
    }
}

/// A registered renderer.
#[derive(Debug, Clone)]
pub struct RendererSnapshot {
    pub id: String,
    pub wp_type: String,
    pub name: String,
    pub status: RendererStatus,
    pub pid: u32,
    pub drm_render_major: u32,
    pub drm_render_minor: u32,
    pub texture_width: u32,
    pub texture_height: u32,
}

pub struct RendererSnapView {
    pub id: Seq<char>,
    pub wp_type: Seq<char>,
    pub name: Seq<char>,
    pub status: RendererStatus,
    pub pid: u32,
    pub drm_render_major: u32,
    pub drm_render_minor: u32,
    pub texture_width: u32,
    pub texture_height: u32,
}

impl View for RendererSnapshot {
    type V = RendererSnapView;

    open spec fn view(&self) -> RendererSnapView {
        RendererSnapView {
            id: self.id@,
            wp_type: self.wp_type@,
            name: self.name@,
            status: self.status,
            pid: self.pid,
            drm_render_major: self.drm_render_major,
            drm_render_minor: self.drm_render_minor,
            texture_width: self.texture_width,
            texture_height: self.texture_height,
        }
    }
}

/// A registered library.
#[derive(Debug, Clone)]
pub struct LibrarySnapshot {
    pub id: i64,
    pub path: String,
    pub plugin_name: String,
}

pub struct LibraryView {
    pub id: i64,
    pub path: Seq<char>,
    pub plugin_name: Seq<char>,
}

impl View for LibrarySnapshot {
    type V = LibraryView;

    open spec fn view(&self) -> LibraryView {
        LibraryView { id: self.id, path: self.path@, plugin_name: self.plugin_name@ }
    }
}

/// A change that subscribers are told of.
#[derive(Debug, Clone)]
pub enum RouterEvent {
    DisplayUpsert(DisplaySnapshot),
    DisplayRemoved(u64),
    DisplaysReplace(Vec<DisplaySnapshot>),
    RendererUpsert(RendererSnapshot),
    RendererRemoved(String),
    RenderersReplace(Vec<RendererSnapshot>),
    LibraryUpsert(LibrarySnapshot),
    LibraryRemoved(i64),
    LibrariesReplace(Vec<LibrarySnapshot>),
}

#[verifier::ext_equal]
pub enum EventView {
    DisplayUpsert(DisplaySnapView),
    DisplayRemoved(u64),
    DisplaysReplace(Seq<DisplaySnapView>),
    RendererUpsert(RendererSnapView),
    RendererRemoved(Seq<char>),
    RenderersReplace(Seq<RendererSnapView>),
    LibraryUpsert(LibraryView),
    LibraryRemoved(i64),
    LibrariesReplace(Seq<LibraryView>),
}

impl View for RouterEvent {
    type V = EventView;

    open spec fn view(&self) -> EventView {
        match self {
            RouterEvent::DisplayUpsert(s) => EventView::DisplayUpsert(s@),
            RouterEvent::DisplayRemoved(id) => EventView::DisplayRemoved(*id),
            RouterEvent::DisplaysReplace(v) => EventView::DisplaysReplace(seqs::views(v@)),
            RouterEvent::RendererUpsert(s) => EventView::RendererUpsert(s@),
            RouterEvent::RendererRemoved(id) => EventView::RendererRemoved(id@),
            RouterEvent::RenderersReplace(v) => EventView::RenderersReplace(seqs::views(v@)),
            RouterEvent::LibraryUpsert(s) => EventView::LibraryUpsert(s@),
            RouterEvent::LibraryRemoved(id) => EventView::LibraryRemoved(*id),
            RouterEvent::LibrariesReplace(v) => EventView::LibrariesReplace(seqs::views(v@)),
        }
    }
}

} // verus!
