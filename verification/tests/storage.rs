//! The database's shape and its search index.

use waywallen::fts::{
    create_delete_trigger_sql, create_fts_table_sql, create_insert_trigger_sql,
    create_update_trigger_sql, drop_fts_table_and_triggers, rebuild_fts_table,
};
use waywallen::schema::{
    down, search_down, search_up, up, ColumnType, DefaultValue, Field, KeyAction, Statement, Table,
};

#[test]
fn search_table_lists_its_columns() {
    assert_eq!(
        create_fts_table_sql("item", &["display_name", "description"]),
        "CREATE VIRTUAL TABLE IF NOT EXISTS item_fts USING fts5 (display_name, description, \
         content='item', content_rowid='id', tokenize='unicode61');"
    );
}

#[test]
fn triggers_keep_the_search_table_in_step() {
    assert_eq!(
        create_insert_trigger_sql("t", &["a", "b"]),
        "CREATE TRIGGER IF NOT EXISTS t_fts_i AFTER INSERT ON t BEGIN INSERT INTO t_fts(rowid, a, \
         b) VALUES (new.id, new.a, new.b); END;"
    );
    assert_eq!(
        create_delete_trigger_sql("t", &["a", "b"]),
        "CREATE TRIGGER IF NOT EXISTS t_fts_d AFTER DELETE ON t BEGIN INSERT INTO t_fts(t_fts, \
         rowid, a, b) VALUES('delete', old.id, old.a, old.b); END;"
    );
    assert_eq!(
        create_update_trigger_sql("t", &["a"]),
        "CREATE TRIGGER IF NOT EXISTS t_fts_u AFTER UPDATE ON t BEGIN INSERT INTO t_fts(t_fts, \
         rowid, a) VALUES('delete', old.id, old.a); INSERT INTO t_fts(rowid, a) VALUES (new.id, \
         new.a); END;"
    );
}

#[test]
fn search_table_is_dropped_after_its_triggers() {
    assert_eq!(
        drop_fts_table_and_triggers("t"),
        vec![
            "DROP TRIGGER IF EXISTS t_fts_i;",
            "DROP TRIGGER IF EXISTS t_fts_d;",
            "DROP TRIGGER IF EXISTS t_fts_u;",
            "DROP TABLE IF EXISTS t_fts;",
        ]
    );
    assert_eq!(rebuild_fts_table("t"), "INSERT INTO t_fts(t_fts) VALUES('rebuild');");
}

#[test]
fn wallpapers_are_searched_by_name() {
    let up = search_up();
    assert_eq!(up.len(), 5);
    assert_eq!(up[0], create_fts_table_sql("item", &["display_name"]));
    assert_eq!(up[4], rebuild_fts_table("item"));
    assert_eq!(search_down(), drop_fts_table_and_triggers("item"));
}

fn created(s: &Statement) -> Option<Table> {
    match s {
        Statement::CreateTable(t) => Some(t.table),
        Statement::CreateRaw { table, .. } => Some(*table),
        _ => None,
    }
}

fn dropped(s: &Statement) -> Option<Table> {
    match s {
        Statement::DropTable(t) => Some(*t),
        Statement::DropRaw { table, .. } => Some(*table),
        _ => None,
    }
}

#[test]
fn tables_come_before_what_refers_to_them() {
    let steps = up();
    let mut seen: Vec<Table> = vec![];
    for s in &steps {
        match s {
            Statement::CreateTable(t) => {
                for f in &t.foreign {
                    assert!(seen.contains(&f.to_table));
                }
            }
            Statement::CreateIndex(i) => assert!(seen.contains(&i.table)),
            _ => {}
        }
        seen.extend(created(s));
    }
    let mut gone: Vec<Table> = down().iter().filter_map(dropped).collect();
    gone.reverse();
    assert_eq!(seen, gone);
}

#[test]
fn rows_go_with_what_they_refer_to() {
    let mut keys = 0;
    for s in &up() {
        if let Statement::CreateTable(t) = s {
            assert!(t.if_not_exists);
            for f in &t.foreign {
                assert_eq!((f.on_delete, f.on_update), (Some(KeyAction::Cascade), None));
                keys += 1;
            }
        }
    }
    assert_eq!(keys, 7);
}

#[test]
fn libraries_belong_to_a_plugin() {
    let steps = up();
    let lib = steps
        .iter()
        .find_map(|s| match s {
            Statement::CreateTable(t) if t.table == Table::Library => Some(t),
            _ => None,
        })
        .unwrap();
    assert_eq!(lib.table.name(), "library");
    assert_eq!(lib.foreign.len(), 1);
    assert_eq!(lib.foreign[0].name, "fk_library_plugin");
    assert_eq!(lib.foreign[0].field, Field::PluginId);
    assert_eq!(lib.foreign[0].to_table, Table::SourcePlugin);
    assert_eq!(lib.foreign[0].to_field, Field::Id);
    let meta = lib.columns.iter().find(|c| c.field == Field::Metadata).unwrap();
    assert_eq!((meta.ty, meta.default), (ColumnType::Text, Some(DefaultValue::EmptyObject)));
    assert_eq!(Field::Type.name(), "type");
}
