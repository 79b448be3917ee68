//! The database schema: what is created on first use, and how it is removed.
//!
//! Names of tags and playlists are unique without regard to case, and playlists
//! restrict some of their texts to fixed words; those two tables are written
//! out as SQL.

use crate::fts::{self, create_fts_table_and_triggers, drop_fts_table_and_triggers, rebuild_fts_table};
use crate::seqs;
use crate::text;
use vstd::prelude::*;

verus! {

broadcast use seqs::group_views;

/// Table of the database.
#[derive(Debug, Clone, Copy, PartialEq, Eq, Structural)]
pub enum Table {
    SourcePlugin,
    Library,
    Item,
    Tag,
    ItemTag,
    Playlist,
    PlaylistItem,
}

impl Table {
    pub open spec fn word(self) -> Seq<char> {
        match self {
            Table::SourcePlugin => "source_plugin"@,
            Table::Library => "library"@,
            Table::Item => "item"@,
            Table::Tag => "tag"@,
            Table::ItemTag => "item_tag"@,
            Table::Playlist => "playlist"@,
            Table::PlaylistItem => "playlist_item"@,
        }
    }

    /// Name in the database.
    pub fn name(self) -> (s: &'static str)
        ensures
            s@ == self.word(),
    {
        match self {
            Table::SourcePlugin => "source_plugin",
            Table::Library => "library",
            Table::Item => "item",
            Table::Tag => "tag",
            Table::ItemTag => "item_tag",
            Table::Playlist => "playlist",
            Table::PlaylistItem => "playlist_item",
        }
    }
}

/// Column of a table.
#[derive(Debug, Clone, Copy, PartialEq, Eq, Structural)]
pub enum Field {
    Id,
    Name,
    Version,
    PluginId,
    Path,
    Metadata,
    LibraryId,
    Type,
    DisplayName,
    PreviewPath,
    Description,
    ExternalId,
    Size,
    Width,
    Height,
    Format,
    CreateAt,
    UpdateAt,
    SyncAt,
    ProbedAt,
    ItemId,
    TagId,
    PlaylistId,
    Position,
}

impl Field {
    pub open spec fn word(self) -> Seq<char> {
        match self {
            Field::Id => "id"@,
            Field::Name => "name"@,
            Field::Version => "version"@,
            Field::PluginId => "plugin_id"@,
            Field::Path => "path"@,
            Field::Metadata => "metadata"@,
            Field::LibraryId => "library_id"@,
            Field::Type => "type"@,
            Field::DisplayName => "display_name"@,
            Field::PreviewPath => "preview_path"@,
            Field::Description => "description"@,
            Field::ExternalId => "external_id"@,
            Field::Size => "size"@,
            Field::Width => "width"@,
            Field::Height => "height"@,
            Field::Format => "format"@,
            Field::CreateAt => "create_at"@,
            Field::UpdateAt => "update_at"@,
            Field::SyncAt => "sync_at"@,
            Field::ProbedAt => "probed_at"@,
            Field::ItemId => "item_id"@,
            Field::TagId => "tag_id"@,
            Field::PlaylistId => "playlist_id"@,
            Field::Position => "position"@,
        }
    }

    /// Name in the database.
    pub fn name(self) -> (s: &'static str)
        ensures
            s@ == self.word(),
    {
        match self {
            Field::Id => "id",
            Field::Name => "name",
            Field::Version => "version",
            Field::PluginId => "plugin_id",
            Field::Path => "path",
            Field::Metadata => "metadata",
            Field::LibraryId => "library_id",
            Field::Type => "type",
            Field::DisplayName => "display_name",
            Field::PreviewPath => "preview_path",
            Field::Description => "description",
            Field::ExternalId => "external_id",
            Field::Size => "size",
            Field::Width => "width",
            Field::Height => "height",
            Field::Format => "format",
            Field::CreateAt => "create_at",
            Field::UpdateAt => "update_at",
            Field::SyncAt => "sync_at",
            Field::ProbedAt => "probed_at",
            Field::ItemId => "item_id",
            Field::TagId => "tag_id",
            Field::PlaylistId => "playlist_id",
            Field::Position => "position",
        }
    }
}

#[derive(Debug, Clone, Copy, PartialEq, Eq, Structural)]
pub enum ColumnType {
    BigInteger,
    Integer,
    Text,
}

/// Value of a column that a new row leaves open.
#[derive(Debug, Clone, Copy, PartialEq, Eq, Structural)]
pub enum DefaultValue {
    EmptyText,
    /// The text of an object without entries, `{}`.
    EmptyObject,
    Zero,
}

#[derive(Debug, Clone, Copy, PartialEq, Eq, Structural)]
pub struct ColumnDef {
    pub field: Field,
    pub ty: ColumnType,
    pub not_null: bool,
    /// Primary key, numbered by the database.
    pub key: bool,
    pub unique: bool,
    pub default: Option<DefaultValue>,
}

/// What a change of a row does to the rows that refer to it.
#[derive(Debug, Clone, Copy, PartialEq, Eq, Structural)]
pub enum KeyAction {
    /// They change with it.
    Cascade,
}

/// Reference to a row of another table.
#[derive(Debug)]
pub struct ForeignKey {
    pub name: &'static str,
    pub field: Field,
    pub to_table: Table,
    pub to_field: Field,
    /// Follows when the other row goes.
    pub on_delete: Option<KeyAction>,
    /// Follows when the key of the other row changes.
    pub on_update: Option<KeyAction>,
}

pub struct ForeignView {
    pub name: Seq<char>,
    pub field: Field,
    pub to_table: Table,
    pub to_field: Field,
    pub on_delete: Option<KeyAction>,
    pub on_update: Option<KeyAction>,
}

impl View for ForeignKey {
    type V = ForeignView;

    open spec fn view(&self) -> ForeignView {
        ForeignView {
            name: self.name@,
            field: self.field,
            to_table: self.to_table,
            to_field: self.to_field,
            on_delete: self.on_delete,
            on_update: self.on_update,
        }
    }
}

#[derive(Debug)]
pub struct TableDef {
    pub table: Table,
    /// A table of the name that is there already stays as it is.
    pub if_not_exists: bool,
    pub columns: Vec<ColumnDef>,
    /// Fields of a primary key of several columns.
    pub primary: Vec<Field>,
    pub foreign: Vec<ForeignKey>,
}

#[verifier::ext_equal]
pub struct TableView {
    pub table: Table,
    pub if_not_exists: bool,
    pub columns: Seq<ColumnDef>,
    pub primary: Seq<Field>,
    pub foreign: Seq<ForeignView>,
}

impl View for TableDef {
    type V = TableView;

    open spec fn view(&self) -> TableView {
        TableView {
            table: self.table,
            if_not_exists: self.if_not_exists,
            columns: self.columns@,
            primary: self.primary@,
            foreign: seqs::views(self.foreign@),
        }
    }
}

#[derive(Debug)]
pub struct IndexDef {
    pub name: &'static str,
    pub table: Table,
    pub fields: Vec<Field>,
    pub unique: bool,
}

#[verifier::ext_equal]
pub struct IndexView {
    pub name: Seq<char>,
    pub table: Table,
    pub fields: Seq<Field>,
    pub unique: bool,
}

impl View for IndexDef {
    type V = IndexView;

    open spec fn view(&self) -> IndexView {
        IndexView {
            name: self.name@,
            table: self.table,
            fields: self.fields@,
            unique: self.unique,
        }
    }
}

/// One step of a migration.
#[derive(Debug)]
pub enum Statement {
    CreateTable(TableDef),
    CreateIndex(IndexDef),
    /// A table written out as SQL.
    CreateRaw { table: Table, sql: &'static str },
    DropTable(Table),
    DropRaw { table: Table, sql: &'static str },
}

#[verifier::ext_equal]
pub enum StatementView {
    CreateTable(TableView),
    CreateIndex(IndexView),
    CreateRaw { table: Table, sql: Seq<char> },
    DropTable(Table),
    DropRaw { table: Table, sql: Seq<char> },
}

impl View for Statement {
    type V = StatementView;

    open spec fn view(&self) -> StatementView {
        match self {
            Statement::CreateTable(t) => StatementView::CreateTable(t@),
            Statement::CreateIndex(i) => StatementView::CreateIndex(i@),
            Statement::CreateRaw { table, sql } => StatementView::CreateRaw {
                table: *table,
                sql: sql@,
            },
            Statement::DropTable(t) => StatementView::DropTable(*t),
            Statement::DropRaw { table, sql } => StatementView::DropRaw { table: *table, sql: sql@ },
        }
    }
}

// ---------------------------------------------------------------------------
// Columns
// ---------------------------------------------------------------------------

/// Numbered primary key.
pub open spec fn key_col(field: Field) -> ColumnDef {
    ColumnDef {
        field,
        ty: ColumnType::BigInteger,
        not_null: true,
        key: true,
        unique: false,
        default: None,
    }
}

fn make_key_col(field: Field) -> (c: ColumnDef)
    ensures
        c == key_col(field),
{
    ColumnDef {
        field,
        ty: ColumnType::BigInteger,
        not_null: true,
        key: true,
        unique: false,
        default: None,
    }
}

/// Text that no two rows share.
pub open spec fn unique_text(field: Field) -> ColumnDef {
    ColumnDef {
        field,
        ty: ColumnType::Text,
        not_null: true,
        key: false,
        unique: true,
        default: None,
    }
}

fn make_unique_text(field: Field) -> (c: ColumnDef)
    ensures
        c == unique_text(field),
{
    ColumnDef {
        field,
        ty: ColumnType::Text,
        not_null: true,
        key: false,
        unique: true,
        default: None,
    }
}

pub open spec fn required_text(field: Field) -> ColumnDef {
    ColumnDef {
        field,
        ty: ColumnType::Text,
        not_null: true,
        key: false,
        unique: false,
        default: None,
    }
}

fn make_required_text(field: Field) -> (c: ColumnDef)
    ensures
        c == required_text(field),
{
    ColumnDef {
        field,
        ty: ColumnType::Text,
        not_null: true,
        key: false,
        unique: false,
        default: None,
    }
}

pub open spec fn required_big(field: Field) -> ColumnDef {
    ColumnDef {
        field,
        ty: ColumnType::BigInteger,
        not_null: true,
        key: false,
        unique: false,
        default: None,
    }
}

fn make_required_big(field: Field) -> (c: ColumnDef)
    ensures
        c == required_big(field),
{
    ColumnDef {
        field,
        ty: ColumnType::BigInteger,
        not_null: true,
        key: false,
        unique: false,
        default: None,
    }
}

pub open spec fn required_int(field: Field) -> ColumnDef {
    ColumnDef {
        field,
        ty: ColumnType::Integer,
        not_null: true,
        key: false,
        unique: false,
        default: None,
    }
}

fn make_required_int(field: Field) -> (c: ColumnDef)
    ensures
        c == required_int(field),
{
    ColumnDef {
        field,
        ty: ColumnType::Integer,
        not_null: true,
        key: false,
        unique: false,
        default: None,
    }
}

/// Point in time, zero while unknown.
pub open spec fn stamp(field: Field) -> ColumnDef {
    ColumnDef {
        field,
        ty: ColumnType::BigInteger,
        not_null: true,
        key: false,
        unique: false,
        default: Some(DefaultValue::Zero),
    }
}

fn make_stamp(field: Field) -> (c: ColumnDef)
    ensures
        c == stamp(field),
{
    ColumnDef {
        field,
        ty: ColumnType::BigInteger,
        not_null: true,
        key: false,
        unique: false,
        default: Some(DefaultValue::Zero),
    }
}

/// Text with a value of its own for new rows.
pub open spec fn text_or(field: Field, value: DefaultValue) -> ColumnDef {
    ColumnDef {
        field,
        ty: ColumnType::Text,
        not_null: true,
        key: false,
        unique: false,
        default: Some(value),
    }
}

fn make_text_or(field: Field, value: DefaultValue) -> (c: ColumnDef)
    ensures
        c == text_or(field, value),
{
    ColumnDef {
        field,
        ty: ColumnType::Text,
        not_null: true,
        key: false,
        unique: false,
        default: Some(value),
    }
}

/// Column that may be empty.
pub open spec fn optional(field: Field, ty: ColumnType) -> ColumnDef {
    ColumnDef {
        field,
        ty,
        not_null: false,
        key: false,
        unique: false,
        default: None,
    }
}

fn make_optional(field: Field, ty: ColumnType) -> (c: ColumnDef)
    ensures
        c == optional(field, ty),
{
    ColumnDef {
        field,
        ty,
        not_null: false,
        key: false,
        unique: false,
        default: None,
    }
}

/// A reference to the key of another table. The row goes when the other row
/// goes; a changed key is not followed.
pub open spec fn reference(name: Seq<char>, field: Field, to_table: Table) -> ForeignView {
    ForeignView {
        name,
        field,
        to_table,
        to_field: Field::Id,
        on_delete: Some(KeyAction::Cascade),
        on_update: None,
    }
}

fn make_reference(name: &'static str, field: Field, to_table: Table) -> (f: ForeignKey)
    ensures
        f@ == reference(name@, field, to_table),
{
    ForeignKey {
        name,
        field,
        to_table,
        to_field: Field::Id,
        on_delete: Some(KeyAction::Cascade),
        on_update: None,
    }
}

// ---------------------------------------------------------------------------
// Tables
// ---------------------------------------------------------------------------

/// Plugins that bring wallpapers.
pub open spec fn source_plugin_table() -> TableView {
    TableView {
        table: Table::SourcePlugin,
        if_not_exists: true,
        columns: seq![
            key_col(Field::Id),
            unique_text(Field::Name),
            text_or(Field::Version, DefaultValue::EmptyText),
        ],
        primary: Seq::empty(),
        foreign: Seq::empty(),
    }
}

fn make_source_plugin_table() -> (t: TableDef)
    ensures
        t@ == source_plugin_table(),
{
    let mut columns: Vec<ColumnDef> = Vec::new();
    columns.push(make_key_col(Field::Id));
    columns.push(make_unique_text(Field::Name));
    columns.push(make_text_or(Field::Version, DefaultValue::EmptyText));
    let primary: Vec<Field> = Vec::new();
    let foreign: Vec<ForeignKey> = Vec::new();
    let t = TableDef { table: Table::SourcePlugin, if_not_exists: true, columns, primary, foreign };
    assert(t@.columns =~= source_plugin_table().columns);
    t
}

/// Places where a plugin finds wallpapers.
pub open spec fn library_table() -> TableView {
    TableView {
        table: Table::Library,
        if_not_exists: true,
        columns: seq![
            key_col(Field::Id),
            required_big(Field::PluginId),
            required_text(Field::Path),
            text_or(Field::Metadata, DefaultValue::EmptyObject),
        ],
        primary: Seq::empty(),
        foreign: seq![
            reference("fk_library_plugin"@, Field::PluginId, Table::SourcePlugin),
        ],
    }
}

fn make_library_table() -> (t: TableDef)
    ensures
        t@ == library_table(),
{
    let mut columns: Vec<ColumnDef> = Vec::new();
    columns.push(make_key_col(Field::Id));
    columns.push(make_required_big(Field::PluginId));
    columns.push(make_required_text(Field::Path));
    columns.push(make_text_or(Field::Metadata, DefaultValue::EmptyObject));
    let primary: Vec<Field> = Vec::new();
    let mut foreign: Vec<ForeignKey> = Vec::new();
    foreign.push(make_reference("fk_library_plugin", Field::PluginId, Table::SourcePlugin));
    let t = TableDef { table: Table::Library, if_not_exists: true, columns, primary, foreign };
    assert(t@.columns =~= library_table().columns);
    assert(t@.foreign =~= library_table().foreign);
    t
}

/// Wallpapers.
pub open spec fn item_table() -> TableView {
    TableView {
        table: Table::Item,
        if_not_exists: true,
        columns: seq![
            key_col(Field::Id),
            required_big(Field::PluginId),
            required_big(Field::LibraryId),
            required_text(Field::Path),
            required_text(Field::Type),
            text_or(Field::DisplayName, DefaultValue::EmptyText),
            optional(Field::PreviewPath, ColumnType::Text),
            optional(Field::Description, ColumnType::Text),
            optional(Field::ExternalId, ColumnType::Text),
            optional(Field::Size, ColumnType::BigInteger),
            optional(Field::Width, ColumnType::Integer),
            optional(Field::Height, ColumnType::Integer),
            optional(Field::Format, ColumnType::Text),
            stamp(Field::CreateAt),
            stamp(Field::UpdateAt),
            stamp(Field::SyncAt),
            optional(Field::ProbedAt, ColumnType::BigInteger),
        ],
        primary: Seq::empty(),
        foreign: seq![
            reference("fk_item_plugin"@, Field::PluginId, Table::SourcePlugin),
            reference("fk_item_library"@, Field::LibraryId, Table::Library),
        ],
    }
}

fn make_item_table() -> (t: TableDef)
    ensures
        t@ == item_table(),
{
    let mut columns: Vec<ColumnDef> = Vec::new();
    columns.push(make_key_col(Field::Id));
    columns.push(make_required_big(Field::PluginId));
    columns.push(make_required_big(Field::LibraryId));
    columns.push(make_required_text(Field::Path));
    columns.push(make_required_text(Field::Type));
    columns.push(make_text_or(Field::DisplayName, DefaultValue::EmptyText));
    columns.push(make_optional(Field::PreviewPath, ColumnType::Text));
    columns.push(make_optional(Field::Description, ColumnType::Text));
    columns.push(make_optional(Field::ExternalId, ColumnType::Text));
    columns.push(make_optional(Field::Size, ColumnType::BigInteger));
    columns.push(make_optional(Field::Width, ColumnType::Integer));
    columns.push(make_optional(Field::Height, ColumnType::Integer));
    columns.push(make_optional(Field::Format, ColumnType::Text));
    columns.push(make_stamp(Field::CreateAt));
    columns.push(make_stamp(Field::UpdateAt));
    columns.push(make_stamp(Field::SyncAt));
    columns.push(make_optional(Field::ProbedAt, ColumnType::BigInteger));
    let primary: Vec<Field> = Vec::new();
    let mut foreign: Vec<ForeignKey> = Vec::new();
    foreign.push(make_reference("fk_item_plugin", Field::PluginId, Table::SourcePlugin));
    foreign.push(make_reference("fk_item_library", Field::LibraryId, Table::Library));
    let t = TableDef { table: Table::Item, if_not_exists: true, columns, primary, foreign };
    assert(t@.columns =~= item_table().columns);
    assert(t@.foreign =~= item_table().foreign);
    t
}

/// Tags of wallpapers.
pub open spec fn item_tag_table() -> TableView {
    TableView {
        table: Table::ItemTag,
        if_not_exists: true,
        columns: seq![
            required_big(Field::ItemId),
            required_big(Field::TagId),
        ],
        primary: seq![Field::ItemId, Field::TagId],
        foreign: seq![
            reference("fk_item_tag_item"@, Field::ItemId, Table::Item),
            reference("fk_item_tag_tag"@, Field::TagId, Table::Tag),
        ],
    }
}

fn make_item_tag_table() -> (t: TableDef)
    ensures
        t@ == item_tag_table(),
{
    let mut columns: Vec<ColumnDef> = Vec::new();
    columns.push(make_required_big(Field::ItemId));
    columns.push(make_required_big(Field::TagId));
    let mut primary: Vec<Field> = Vec::new();
    primary.push(Field::ItemId);
    primary.push(Field::TagId);
    let mut foreign: Vec<ForeignKey> = Vec::new();
    foreign.push(make_reference("fk_item_tag_item", Field::ItemId, Table::Item));
    foreign.push(make_reference("fk_item_tag_tag", Field::TagId, Table::Tag));
    let t = TableDef { table: Table::ItemTag, if_not_exists: true, columns, primary, foreign };
    assert(t@.columns =~= item_tag_table().columns);
    assert(t@.primary =~= item_tag_table().primary);
    assert(t@.foreign =~= item_tag_table().foreign);
    t
}

/// Wallpapers of playlists.
pub open spec fn playlist_item_table() -> TableView {
    TableView {
        table: Table::PlaylistItem,
        if_not_exists: true,
        columns: seq![
            required_big(Field::PlaylistId),
            required_big(Field::ItemId),
            required_int(Field::Position),
        ],
        primary: seq![Field::PlaylistId, Field::Position],
        foreign: seq![
            reference("fk_playlist_item_playlist"@, Field::PlaylistId, Table::Playlist),
            reference("fk_playlist_item_item"@, Field::ItemId, Table::Item),
        ],
    }
}

fn make_playlist_item_table() -> (t: TableDef)
    ensures
        t@ == playlist_item_table(),
{
    let mut columns: Vec<ColumnDef> = Vec::new();
    columns.push(make_required_big(Field::PlaylistId));
    columns.push(make_required_big(Field::ItemId));
    columns.push(make_required_int(Field::Position));
    let mut primary: Vec<Field> = Vec::new();
    primary.push(Field::PlaylistId);
    primary.push(Field::Position);
    let mut foreign: Vec<ForeignKey> = Vec::new();
    foreign.push(make_reference("fk_playlist_item_playlist", Field::PlaylistId, Table::Playlist));
    foreign.push(make_reference("fk_playlist_item_item", Field::ItemId, Table::Item));
    let t = TableDef { table: Table::PlaylistItem, if_not_exists: true, columns, primary, foreign };
    assert(t@.columns =~= playlist_item_table().columns);
    assert(t@.primary =~= playlist_item_table().primary);
    assert(t@.foreign =~= playlist_item_table().foreign);
    t
}

pub open spec fn index(
    name: Seq<char>,
    table: Table,
    fields: Seq<Field>,
    unique: bool,
) -> StatementView {
    StatementView::CreateIndex(IndexView { name, table, fields, unique })
}

fn make_index(
    name: &'static str,
    table: Table,
    first: Field,
    second: Option<Field>,
    unique: bool,
) -> (s:
    Statement)
    ensures
        s@ == index(
            name@,
            table,
            match second {
                Some(f) => seq![first, f],
                None => seq![first],
            },
            unique,
        ),
{
    let mut fields: Vec<Field> = Vec::new();
    fields.push(first);
    if let Some(f) = second {
        fields.push(f);
    }
    assert(fields@ =~= match second {
        Some(f) => seq![first, f],
        None => seq![first],
    });
    Statement::CreateIndex(IndexDef { name, table, fields, unique })
}

/// Tags; their names are unique without regard to case.
pub open spec fn tag_sql() -> Seq<char> {
    "CREATE TABLE IF NOT EXISTS tag (id INTEGER PRIMARY KEY AUTOINCREMENT,name TEXT NOT NULL UNIQUE COLLATE NOCASE)"@
}

/// Playlists.
pub open spec fn playlist_sql() -> Seq<char> {
    "CREATE TABLE IF NOT EXISTS playlist (id INTEGER PRIMARY KEY AUTOINCREMENT,name TEXT NOT NULL UNIQUE COLLATE NOCASE,source_kind TEXT NOT NULL DEFAULT 'curated' CHECK(source_kind IN ('curated','smart')),filter_json TEXT NULL,mode TEXT NOT NULL DEFAULT 'sequential' CHECK(mode IN ('sequential','shuffle','random')),interval_secs INTEGER NOT NULL DEFAULT 0,shuffle_seed BIGINT NOT NULL DEFAULT 0,create_at BIGINT NOT NULL,update_at BIGINT NOT NULL)"@
}

// ---------------------------------------------------------------------------
// Migration
// ---------------------------------------------------------------------------

/// The steps that make the database, in order.
pub open spec fn up_steps() -> Seq<StatementView> {
    seq![
        StatementView::CreateTable(source_plugin_table()),
        StatementView::CreateTable(library_table()),
        index("idx_library_plugin_path"@, Table::Library, seq![Field::PluginId, Field::Path], true),
        index("idx_library_plugin"@, Table::Library, seq![Field::PluginId], false),
        StatementView::CreateTable(item_table()),
        index("idx_item_library_path"@, Table::Item, seq![Field::LibraryId, Field::Path], true),
        index("idx_item_plugin"@, Table::Item, seq![Field::PluginId], false),
        index("idx_item_external_id"@, Table::Item, seq![Field::ExternalId], false),
        StatementView::CreateRaw { table: Table::Tag, sql: tag_sql() },
        StatementView::CreateTable(item_tag_table()),
        index("idx_item_tag_tag"@, Table::ItemTag, seq![Field::TagId], false),
        StatementView::CreateRaw { table: Table::Playlist, sql: playlist_sql() },
        StatementView::CreateTable(playlist_item_table()),
        index("idx_playlist_item_unique"@, Table::PlaylistItem, seq![Field::PlaylistId, Field::ItemId], true),
        index("idx_playlist_item_item"@, Table::PlaylistItem, seq![Field::ItemId], false),
    ]
}

/// The steps that remove the database, in order.
pub open spec fn down_steps() -> Seq<StatementView> {
    seq![
        StatementView::DropTable(Table::PlaylistItem),
        StatementView::DropRaw { table: Table::Playlist, sql: "DROP TABLE IF EXISTS playlist"@ },
        StatementView::DropTable(Table::ItemTag),
        StatementView::DropRaw { table: Table::Tag, sql: "DROP TABLE IF EXISTS tag"@ },
        StatementView::DropTable(Table::Item),
        StatementView::DropTable(Table::Library),
        StatementView::DropTable(Table::SourcePlugin),
    ]
}

/// The steps that make the database.
pub fn up() -> (out: Vec<Statement>)
    ensures
        seqs::views(out@) == up_steps(),
{
    let mut out: Vec<Statement> = Vec::new();
    out.push(Statement::CreateTable(make_source_plugin_table()));
    out.push(Statement::CreateTable(make_library_table()));
    out.push(make_index("idx_library_plugin_path", Table::Library, Field::PluginId, Some(Field::Path), true));
    out.push(make_index("idx_library_plugin", Table::Library, Field::PluginId, None, false));
    out.push(Statement::CreateTable(make_item_table()));
    out.push(make_index("idx_item_library_path", Table::Item, Field::LibraryId, Some(Field::Path), true));
    out.push(make_index("idx_item_plugin", Table::Item, Field::PluginId, None, false));
    out.push(make_index("idx_item_external_id", Table::Item, Field::ExternalId, None, false));
    out.push(
        Statement::CreateRaw {
            table: Table::Tag,
            sql: "CREATE TABLE IF NOT EXISTS tag (id INTEGER PRIMARY KEY AUTOINCREMENT,name TEXT NOT NULL UNIQUE COLLATE NOCASE)",
        },
    );
    out.push(Statement::CreateTable(make_item_tag_table()));
    out.push(make_index("idx_item_tag_tag", Table::ItemTag, Field::TagId, None, false));
    out.push(
        Statement::CreateRaw {
            table: Table::Playlist,
            sql: "CREATE TABLE IF NOT EXISTS playlist (id INTEGER PRIMARY KEY AUTOINCREMENT,name TEXT NOT NULL UNIQUE COLLATE NOCASE,source_kind TEXT NOT NULL DEFAULT 'curated' CHECK(source_kind IN ('curated','smart')),filter_json TEXT NULL,mode TEXT NOT NULL DEFAULT 'sequential' CHECK(mode IN ('sequential','shuffle','random')),interval_secs INTEGER NOT NULL DEFAULT 0,shuffle_seed BIGINT NOT NULL DEFAULT 0,create_at BIGINT NOT NULL,update_at BIGINT NOT NULL)",
        },
    );
    out.push(Statement::CreateTable(make_playlist_item_table()));
    out.push(make_index("idx_playlist_item_unique", Table::PlaylistItem, Field::PlaylistId, Some(Field::ItemId), true));
    out.push(make_index("idx_playlist_item_item", Table::PlaylistItem, Field::ItemId, None, false));
    assert(seqs::views(out@) =~= up_steps());
    out
}

/// The steps that remove the database.
pub fn down() -> (out: Vec<Statement>)
    ensures
        seqs::views(out@) == down_steps(),
{
    let mut out: Vec<Statement> = Vec::new();
    out.push(Statement::DropTable(Table::PlaylistItem));
    out.push(Statement::DropRaw { table: Table::Playlist, sql: "DROP TABLE IF EXISTS playlist" });
    out.push(Statement::DropTable(Table::ItemTag));
    out.push(Statement::DropRaw { table: Table::Tag, sql: "DROP TABLE IF EXISTS tag" });
    out.push(Statement::DropTable(Table::Item));
    out.push(Statement::DropTable(Table::Library));
    out.push(Statement::DropTable(Table::SourcePlugin));
    assert(seqs::views(out@) =~= down_steps());
    out
}

/// The statements that make wallpapers searchable by name.
pub fn search_up() -> (out: Vec<String>)
    ensures
        exists|columns: Seq<&str>|
            #![trigger fts::table_text("item"@, columns)]
            columns.len() == 1 && columns[0]@ == "display_name"@ && text::lines(out@) == seq![
                fts::table_text("item"@, columns),
                fts::insert_trigger_text("item"@, columns),
                fts::delete_trigger_text("item"@, columns),
                fts::update_trigger_text("item"@, columns),
                "INSERT INTO "@ + "item"@ + "_fts("@ + "item"@ + "_fts) VALUES('rebuild');"@,
            ],
{
    let columns: [&str; 1] = ["display_name"];
    let mut out = create_fts_table_and_triggers("item", &columns);
    text::push_line(&mut out, rebuild_fts_table("item"));
    proof {
        let c = columns@;
        assert(text::lines(out@) =~= seq![
            fts::table_text("item"@, c),
            fts::insert_trigger_text("item"@, c),
            fts::delete_trigger_text("item"@, c),
            fts::update_trigger_text("item"@, c),
            "INSERT INTO "@ + "item"@ + "_fts("@ + "item"@ + "_fts) VALUES('rebuild');"@,
        ]);
    }
    out
}

/// The statements that undo [`search_up`].
pub fn search_down() -> (out: Vec<String>)
    ensures
        text::lines(out@) == seq![
            fts::drop_trigger_text("item"@, "i"@),
            fts::drop_trigger_text("item"@, "d"@),
            fts::drop_trigger_text("item"@, "u"@),
            fts::drop_table_text("item"@),
        ],
{
    drop_fts_table_and_triggers("item")
}

// ---------------------------------------------------------------------------
// Laws
// ---------------------------------------------------------------------------

/// The table that a step creates.
pub open spec fn created(s: StatementView) -> Option<Table> {
    match s {
        StatementView::CreateTable(t) => Some(t.table),
        StatementView::CreateRaw { table, .. } => Some(table),
        _ => None,
    }
}

/// The table that a step drops.
pub open spec fn dropped(s: StatementView) -> Option<Table> {
    match s {
        StatementView::DropTable(t) => Some(t),
        StatementView::DropRaw { table, .. } => Some(table),
        _ => None,
    }
}

/// Some step before the `n`-th creates the table.
pub open spec fn created_before(steps: Seq<StatementView>, table: Table, n: int) -> bool {
    exists|i: int| 0 <= i < n && created(#[trigger] steps[i]) == Some(table)
}

pub open spec fn has_field(t: TableView, f: Field) -> bool {
    exists|i: int| 0 <= i < t.columns.len() && (#[trigger] t.columns[i]).field == f
}

/// Every reference leads to a table that is there when the referring table is
/// created, and to its key.
pub proof fn references_lead_to_existing_tables(n: int, k: int)
    requires
        0 <= n < up_steps().len(),
        up_steps()[n] is CreateTable,
        0 <= k < up_steps()[n]->CreateTable_0.foreign.len(),
    ensures
        created_before(up_steps(), up_steps()[n]->CreateTable_0.foreign[k].to_table, n),
        up_steps()[n]->CreateTable_0.foreign[k].to_field == Field::Id,
        has_field(up_steps()[n]->CreateTable_0, up_steps()[n]->CreateTable_0.foreign[k].field),
{
    let steps = up_steps();
    assert(created(steps[0]) == Some(Table::SourcePlugin));
    assert(created(steps[1]) == Some(Table::Library));
    assert(created(steps[4]) == Some(Table::Item));
    assert(created(steps[8]) == Some(Table::Tag));
    assert(created(steps[11]) == Some(Table::Playlist));
    if n == 1 {
        assert(library_table().columns[1].field == Field::PluginId);
    } else if n == 4 {
        assert(item_table().columns[1].field == Field::PluginId);
        assert(item_table().columns[2].field == Field::LibraryId);
    } else if n == 9 {
        assert(item_tag_table().columns[0].field == Field::ItemId);
        assert(item_tag_table().columns[1].field == Field::TagId);
    } else if n == 12 {
        assert(playlist_item_table().columns[0].field == Field::PlaylistId);
        assert(playlist_item_table().columns[1].field == Field::ItemId);
    }
}

/// Every index is on a table that is there when the index is created.
pub proof fn indexes_follow_their_tables(n: int)
    requires
        0 <= n < up_steps().len(),
        up_steps()[n] is CreateIndex,
    ensures
        created_before(up_steps(), up_steps()[n]->CreateIndex_0.table, n),
{
    let steps = up_steps();
    assert(created(steps[1]) == Some(Table::Library));
    assert(created(steps[4]) == Some(Table::Item));
    assert(created(steps[9]) == Some(Table::ItemTag));
    assert(created(steps[12]) == Some(Table::PlaylistItem));
}

/// Tables that the first `n` steps create, in order.
pub open spec fn tables_created(steps: Seq<StatementView>, n: int) -> Seq<Table>
    decreases n,
{
    if n <= 0 {
        Seq::empty()
    } else {
        match created(steps[n - 1]) {
            Some(t) => tables_created(steps, n - 1).push(t),
            None => tables_created(steps, n - 1),
        }
    }
}

/// Tables that the first `n` steps drop, in order.
pub open spec fn tables_dropped(steps: Seq<StatementView>, n: int) -> Seq<Table>
    decreases n,
{
    if n <= 0 {
        Seq::empty()
    } else {
        match dropped(steps[n - 1]) {
            Some(t) => tables_dropped(steps, n - 1).push(t),
            None => tables_dropped(steps, n - 1),
        }
    }
}

/// What is created is dropped again, the last table first, so that no table
/// goes before those that refer to it.
pub proof fn tables_are_dropped_in_reverse()
    ensures
        tables_dropped(down_steps(), down_steps().len() as int) == tables_created(
            up_steps(),
            up_steps().len() as int,
        ).reverse(),
{
    reveal_with_fuel(tables_created, 16);
    reveal_with_fuel(tables_dropped, 8);
    let made = tables_created(up_steps(), up_steps().len() as int);
    assert(made =~= seq![
        Table::SourcePlugin,
        Table::Library,
        Table::Item,
        Table::Tag,
        Table::ItemTag,
        Table::Playlist,
        Table::PlaylistItem,
    ]);
    assert(tables_dropped(down_steps(), 7) =~= made.reverse());
}

/// The steps that are taken are the ones that are spoken of above.
pub proof fn steps_are_taken(made: Vec<Statement>, gone: Vec<Statement>)
    requires
        call_ensures(up, (), made),
        call_ensures(down, (), gone),
    ensures
        seqs::views(made@) == up_steps(),
        seqs::views(gone@) == down_steps(),
{
}

/// Every reference goes with the row that it leads to.
pub proof fn rows_go_with_what_they_refer_to(n: int, k: int)
    requires
        0 <= n < up_steps().len(),
        up_steps()[n] is CreateTable,
        0 <= k < up_steps()[n]->CreateTable_0.foreign.len(),
    ensures
        up_steps()[n]->CreateTable_0.foreign[k].on_delete == Some(KeyAction::Cascade),
        up_steps()[n]->CreateTable_0.foreign[k].on_update is None,
        up_steps()[n]->CreateTable_0.if_not_exists,
{
}

/// A path is in a library once, a library in a plugin once, and a wallpaper in
/// a playlist once; no other index is unique.
pub proof fn unique_indexes_pair_an_owner_and_a_member(n: int)
    requires
        0 <= n < up_steps().len(),
        up_steps()[n] is CreateIndex,
    ensures
        ({
            let i = up_steps()[n]->CreateIndex_0;
            &&& i.unique <==> i.fields.len() == 2
            &&& i.unique ==> {
                ||| i.table == Table::Library && i.fields == seq![Field::PluginId, Field::Path]
                ||| i.table == Table::Item && i.fields == seq![Field::LibraryId, Field::Path]
                ||| i.table == Table::PlaylistItem && i.fields == seq![
                    Field::PlaylistId,
                    Field::ItemId,
                ]
            }
        }),
{
}

} // verus!
