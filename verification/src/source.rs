//! Source plugins: what they are handed, and what is made of their answers.

use crate::catalog::{SourcePluginInfo, WallpaperEntry};
use crate::error::Error;
use crate::paths::{self, path_extension, path_file_name};
use crate::strmap::{self, StrMap};
use crate::text::{self, copy_lines};
use vstd::prelude::*;

verus! {

// ---------------------------------------------------------------------------
// Helpers that plugins call
// ---------------------------------------------------------------------------

/// Name of the file or directory at a path.
pub fn filename(path: &str) -> (r: Option<String>)
    ensures
        text::opt_text(r) == paths::file_name_text(path@),
{
    path_file_name(path)
}

/// Extension of the file at a path.
pub fn extension(path: &str) -> (r: Option<String>)
    ensures
        text::opt_text(r) == paths::extension_text(path@),
{
    path_extension(path)
}

/// Bytes of a file, where plugins can hold the number.
pub fn file_size(len: u64) -> (r: Option<i64>)
    ensures
        r == if len <= i64::MAX {
            Some(len as i64)
        } else {
            None
        },
{
    if len <= i64::MAX as u64 {
        Some(len as i64)
    } else {
        None
    }
}

/// Libraries that a plugin sees: those registered for it.
pub fn libraries_for(libs: &StrMap<Vec<String>>, plugin: &str) -> (out: Vec<String>)
    ensures
        text::lines(out@) == if libs@.contains_key(plugin@) {
            text::lines(libs@[plugin@]@)
        } else {
            Seq::empty()
        },
{
    match libs.get(plugin) {
        Some(l) => copy_lines(l),
        None => {
            let out: Vec<String> = Vec::new();
            assert(text::lines(out@) =~= Seq::<Seq<char>>::empty());
            out
        },
    }
}

// ---------------------------------------------------------------------------
// Metadata of libraries
// ---------------------------------------------------------------------------

/// A step towards the metadata of a library.
#[derive(Debug, Clone, Copy, PartialEq, Eq, Structural)]
pub enum MetaStep {
    /// There is none to be had.
    Nothing,
    FindPlugin,
    FindLibrary { plugin_id: i64 },
    /// Read or write the metadata of this library.
    Access { library_id: i64 },
}

/// First step: the database and the plugin have to be known.
pub fn meta_begin(has_database: bool, has_plugin: bool) -> (s: MetaStep)
    ensures
        s == if has_database && has_plugin {
            MetaStep::FindPlugin
        } else {
            MetaStep::Nothing
        },
{
    if has_database && has_plugin {
        MetaStep::FindPlugin
    } else {
        MetaStep::Nothing
    }
}

/// The step after a lookup: a plugin leads to its library, a library to its
/// metadata; where nothing is found, or the lookup failed, there is none.
pub fn meta_found(step: MetaStep, found: Result<Option<i64>, Error>) -> (s: MetaStep)
    ensures
        s == match (step, found) {
            (MetaStep::FindPlugin, Ok(Some(id))) => MetaStep::FindLibrary { plugin_id: id },
            (MetaStep::FindLibrary { .. }, Ok(Some(id))) => MetaStep::Access { library_id: id },
            _ => MetaStep::Nothing,
        },
{
    match (step, found) {
        (MetaStep::FindPlugin, Ok(Some(id))) => MetaStep::FindLibrary { plugin_id: id },
        (MetaStep::FindLibrary { .. }, Ok(Some(id))) => MetaStep::Access { library_id: id },
        _ => MetaStep::Nothing,
    }
}

/// A plugin gets at the metadata of a library only by way of its own row and of
/// a library that belongs to it.
pub proof fn metadata_is_scoped_to_the_plugin(
    step: MetaStep,
    found: Result<Option<i64>, Error>,
    s: MetaStep,
)
    requires
        call_ensures(meta_found, (step, found), s),
        s is Access,
    ensures
        step is FindLibrary,
        found == Ok::<Option<i64>, Error>(Some(s->library_id)),
{
}

// ---------------------------------------------------------------------------
// Answers of plugins
// ---------------------------------------------------------------------------

/// A wallpaper as a plugin lists it; a field that is missing, or is of another
/// type, is none.
#[derive(Debug)]
pub struct RawEntry {
    pub id: Option<String>,
    pub name: Option<String>,
    pub wp_type: Option<String>,
    pub resource: Option<String>,
    pub preview: Option<String>,
    pub metadata: StrMap<String>,
    pub library_root: Option<String>,
    pub relative: Option<String>,
    pub description: Option<String>,
    pub tags: Option<Vec<String>>,
    pub external_id: Option<String>,
    pub size: Option<i64>,
    pub width: Option<u32>,
    pub height: Option<u32>,
    pub format: Option<String>,
}

pub open spec fn or_empty(s: Option<String>) -> Seq<char> {
    match s {
        Some(t) => t@,
        None => Seq::empty(),
    }
}

fn text_or_empty(s: Option<String>) -> (r: String)
    ensures
        r@ == or_empty(s),
{
    match s {
        Some(t) => t,
        None => String::new(),
    }
}

/// The wallpaper that a plugin lists: texts it does not give are empty.
pub open spec fn is_entry(e: WallpaperEntry, raw: RawEntry, plugin: Seq<char>) -> bool {
    &&& e.id@ == or_empty(raw.id)
    &&& e.name@ == or_empty(raw.name)
    &&& e.wp_type@ == or_empty(raw.wp_type)
    &&& e.resource@ == or_empty(raw.resource)
    &&& e.preview == raw.preview
    &&& e.metadata == raw.metadata
    &&& e.plugin_name@ == plugin
    &&& e.library_root@ == or_empty(raw.library_root)
    &&& e.relative == raw.relative
    &&& e.description == raw.description
    &&& text::lines(e.tags@) == match raw.tags {
        Some(t) => text::lines(t@),
        None => Seq::empty(),
    }
    &&& e.external_id == raw.external_id
    &&& e.size == raw.size
    &&& e.width == raw.width
    &&& e.height == raw.height
    &&& e.format == raw.format
}

pub fn entry_of(raw: RawEntry, plugin: &str) -> (e: WallpaperEntry)
    ensures
        is_entry(e, raw, plugin@),
{
    let tags: Vec<String> = match raw.tags {
        Some(t) => t,
        None => Vec::new(),
    };
    assert(raw.tags is None ==> text::lines(tags@) =~= Seq::<Seq<char>>::empty());
    WallpaperEntry {
        id: text_or_empty(raw.id),
        name: text_or_empty(raw.name),
        wp_type: text_or_empty(raw.wp_type),
        resource: text_or_empty(raw.resource),
        preview: raw.preview,
        metadata: raw.metadata,
        plugin_name: plugin.to_owned(),
        library_root: text_or_empty(raw.library_root),
        relative: raw.relative,
        description: raw.description,
        tags,
        external_id: raw.external_id,
        size: raw.size,
        width: raw.width,
        height: raw.height,
        format: raw.format,
    }
}

/// What a plugin says of itself: without types it has none, without a version
/// it has the lowest.
pub fn plugin_info(name: String, types: Option<Vec<String>>, version: Option<String>) -> (r:
    SourcePluginInfo)
    ensures
        r.name == name,
        r.types@ == (match types {
            Some(t) => t@,
            None => Seq::empty(),
        }),
        r.version@ == (match version {
            Some(v) => v@,
            None => "0.0.0"@,
        }),
{
    SourcePluginInfo {
        name,
        types: match types {
            Some(t) => t,
            None => Vec::new(),
        },
        version: match version {
            Some(v) => v,
            None => "0.0.0".to_owned(),
        },
    }
}

/// What came of asking a plugin for the start arguments of a wallpaper.
#[derive(Debug)]
pub enum ExtrasOutcome {
    /// There is no such plugin.
    NoPlugin,
    /// The plugin has no function for it.
    NoFunction,
    Values(StrMap<String>),
    Failed(String),
}

/// The start arguments of a wallpaper. A plugin that has no function for them
/// leaves it at the wallpaper's metadata.
pub fn extras_result(outcome: ExtrasOutcome, plugin: &str, e: &WallpaperEntry) -> (r: Result<
    StrMap<String>,
    Error,
>)
    ensures
        match outcome {
            ExtrasOutcome::NoPlugin => r matches Err(Error::SourcePluginNotFound(m)) && m@
                == plugin@,
            ExtrasOutcome::NoFunction => r is Ok && strmap::kv_text(r->Ok_0@) == strmap::kv_text(
                e.metadata@,
            ),
            ExtrasOutcome::Values(v) => r == Ok::<StrMap<String>, Error>(v),
            ExtrasOutcome::Failed(m) => r matches Err(
                Error::SourceExtrasFailed { plugin: p, message },
            ) && p@ == plugin@ && message == m,
        },
{
    match outcome {
        ExtrasOutcome::NoPlugin => Err(Error::SourcePluginNotFound(plugin.to_owned())),
        ExtrasOutcome::NoFunction => Ok(e.metadata.copy()),
        ExtrasOutcome::Values(v) => Ok(v),
        ExtrasOutcome::Failed(message) => Err(
            Error::SourceExtrasFailed { plugin: plugin.to_owned(), message },
        ),
    }
}

/// A wallpaper is what its plugin said of it, under the name of the plugin;
/// texts that the plugin left out are empty.
pub proof fn wallpaper_is_what_its_plugin_said(raw: RawEntry, plugin: &str, e: WallpaperEntry)
    requires
        call_ensures(entry_of, (raw, plugin), e),
    ensures
        e.plugin_name@ == plugin@,
        raw.id matches Some(s) ==> e.id@ == s@,
        raw.id is None ==> e.id@.len() == 0,
        raw.name matches Some(s) ==> e.name@ == s@,
        raw.name is None ==> e.name@.len() == 0,
        raw.wp_type matches Some(s) ==> e.wp_type@ == s@,
        raw.wp_type is None ==> e.wp_type@.len() == 0,
        raw.resource matches Some(s) ==> e.resource@ == s@,
        raw.resource is None ==> e.resource@.len() == 0,
        raw.library_root matches Some(s) ==> e.library_root@ == s@,
        raw.library_root is None ==> e.library_root@.len() == 0,
        e.preview == raw.preview,
        e.relative == raw.relative,
        e.description == raw.description,
        e.external_id == raw.external_id,
        e.metadata == raw.metadata,
        (e.size, e.width, e.height) == (raw.size, raw.width, raw.height),
        e.format == raw.format,
        raw.tags is None ==> e.tags@.len() == 0,
        raw.tags matches Some(t) ==> e.tags@.len() == t@.len() && forall|i: int|
            0 <= i < t@.len() ==> (#[trigger] e.tags@[i])@ == t@[i]@,
{
    assert(text::lines(e.tags@).len() == e.tags@.len());
    if let Some(t) = raw.tags {
        assert forall|i: int| 0 <= i < t@.len() implies (#[trigger] e.tags@[i])@ == t@[i]@ by {
            assert(text::lines(e.tags@)[i] == e.tags@[i]@);
            assert(text::lines(t@)[i] == t@[i]@);
        }
    }
}

/// The arguments of a wallpaper are those that its plugin works out, or its
/// metadata where the plugin works out none.
pub proof fn arguments_come_from_the_plugin(
    outcome: ExtrasOutcome,
    plugin: &str,
    e: &WallpaperEntry,
    r: Result<StrMap<String>, Error>,
)
    requires
        call_ensures(extras_result, (outcome, plugin, e), r),
    ensures
        r is Ok <==> outcome is NoFunction || outcome is Values,
        outcome matches ExtrasOutcome::Values(v) ==> r == Ok::<StrMap<String>, Error>(v),
        outcome is NoFunction ==> strmap::kv_text(r->Ok_0@) == strmap::kv_text(e.metadata@),
        outcome is NoPlugin ==> r->Err_0 is SourcePluginNotFound,
        outcome is Failed ==> r->Err_0 is SourceExtrasFailed,
{
}

/// Metadata is looked up in two steps, each with what the one before it found;
/// it takes a database and a plugin.
pub proof fn metadata_is_looked_up_in_steps(
    has_database: bool,
    has_plugin: bool,
    first: MetaStep,
    plugin_id: i64,
    second: MetaStep,
    library_id: i64,
    third: MetaStep,
)
    requires
        call_ensures(meta_begin, (has_database, has_plugin), first),
        call_ensures(meta_found, (first, Ok(Some(plugin_id))), second),
        call_ensures(meta_found, (second, Ok(Some(library_id))), third),
    ensures
        first == MetaStep::FindPlugin <==> has_database && has_plugin,
        has_database && has_plugin ==> second == (MetaStep::FindLibrary { plugin_id }) && third == (
        MetaStep::Access { library_id }),
        !(has_database && has_plugin) ==> first == MetaStep::Nothing && second == MetaStep::Nothing
            && third == MetaStep::Nothing,
{
}

} // verus!
