//! SQL of full-text search tables. A search table follows a content table by
//! three triggers: on insertion, deletion and update.

use crate::text::{self, push_line};
use vstd::prelude::*;

verus! {

/// The first `n` columns, each behind `prefix`, with commas between them.
pub open spec fn listed(prefix: Seq<char>, columns: Seq<&str>, n: int) -> Seq<char>
    decreases n,
{
    if n <= 0 {
        Seq::empty()
    } else if n == 1 {
        prefix + columns[0]@
    } else {
        listed(prefix, columns, n - 1) + ", "@ + prefix + columns[n - 1]@
    }
}

pub open spec fn columns_text(prefix: Seq<char>, columns: Seq<&str>) -> Seq<char> {
    listed(prefix, columns, columns.len() as int)
}

fn list_columns(prefix: &str, columns: &[&str]) -> (s: String)
    ensures
        s@ == columns_text(prefix@, columns@),
{
    let mut s: String = String::new();
    let mut i: usize = 0;
    while i < columns.len()
        invariant
            i <= columns@.len(),
            s@ == listed(prefix@, columns@, i as int),
        decreases columns.len() - i,
    {
        let ghost before = s@;
        if i > 0 {
            s.append(", ");
        }
        s.append(prefix);
        s.append(columns[i]);
        proof {
            if i == 0 {
                assert(before =~= Seq::<char>::empty());
                assert(s@ =~= prefix@ + columns@[0]@);
            }
        }
        i = i + 1;
    }
    s
}

pub open spec fn table_text(table: Seq<char>, columns: Seq<&str>) -> Seq<char> {
    "CREATE VIRTUAL TABLE IF NOT EXISTS "@ + table + "_fts USING fts5 ("@
            + columns_text(""@, columns) + ", content='"@ + table
            + "', content_rowid='id', tokenize='unicode61');"@
}

/// Statement that makes the search table of a content table.
pub fn create_fts_table_sql(table_name: &str, columns: &[&str]) -> (s: String)
    ensures
        s@ == table_text(table_name@, columns@),
{
    let mut s = "CREATE VIRTUAL TABLE IF NOT EXISTS ".to_owned();
    s.append(table_name);
    s.append("_fts USING fts5 (");
    s.append(list_columns("", columns).as_str());
    s.append(", content='");
    s.append(table_name);
    s.append("', content_rowid='id', tokenize='unicode61');");
    s
}

pub open spec fn insert_trigger_text(table: Seq<char>, columns: Seq<&str>) -> Seq<char> {
    "CREATE TRIGGER IF NOT EXISTS "@ + table + "_fts_i AFTER INSERT ON "@
            + table + " BEGIN INSERT INTO "@ + table + "_fts(rowid, "@ + columns_text(
            ""@,
            columns,
        ) + ") VALUES (new.id, "@ + columns_text("new."@, columns) + "); END;"@
}

/// Statement that makes new rows searchable.
pub fn create_insert_trigger_sql(table_name: &str, columns: &[&str]) -> (s: String)
    ensures
        s@ == insert_trigger_text(table_name@, columns@),
{
    let mut s = "CREATE TRIGGER IF NOT EXISTS ".to_owned();
    s.append(table_name);
    s.append("_fts_i AFTER INSERT ON ");
    s.append(table_name);
    s.append(" BEGIN INSERT INTO ");
    s.append(table_name);
    s.append("_fts(rowid, ");
    s.append(list_columns("", columns).as_str());
    s.append(") VALUES (new.id, ");
    s.append(list_columns("new.", columns).as_str());
    s.append("); END;");
    s
}

pub open spec fn delete_trigger_text(table: Seq<char>, columns: Seq<&str>) -> Seq<char> {
    "CREATE TRIGGER IF NOT EXISTS "@ + table + "_fts_d AFTER DELETE ON "@
            + table + " BEGIN INSERT INTO "@ + table + "_fts("@ + table
            + "_fts, rowid, "@ + columns_text(""@, columns) + ") VALUES('delete', old.id, "@
            + columns_text("old."@, columns) + "); END;"@
}

/// Statement that makes deleted rows unsearchable.
pub fn create_delete_trigger_sql(table_name: &str, columns: &[&str]) -> (s: String)
    ensures
        s@ == delete_trigger_text(table_name@, columns@),
{
    let mut s = "CREATE TRIGGER IF NOT EXISTS ".to_owned();
    s.append(table_name);
    s.append("_fts_d AFTER DELETE ON ");
    s.append(table_name);
    s.append(" BEGIN INSERT INTO ");
    s.append(table_name);
    s.append("_fts(");
    s.append(table_name);
    s.append("_fts, rowid, ");
    s.append(list_columns("", columns).as_str());
    s.append(") VALUES('delete', old.id, ");
    s.append(list_columns("old.", columns).as_str());
    s.append("); END;");
    s
}

pub open spec fn update_trigger_text(table: Seq<char>, columns: Seq<&str>) -> Seq<char> {
    "CREATE TRIGGER IF NOT EXISTS "@ + table + "_fts_u AFTER UPDATE ON "@
            + table + " BEGIN INSERT INTO "@ + table + "_fts("@ + table
            + "_fts, rowid, "@ + columns_text(""@, columns) + ") VALUES('delete', old.id, "@
            + columns_text("old."@, columns) + "); INSERT INTO "@ + table + "_fts(rowid, "@
            + columns_text(""@, columns) + ") VALUES (new.id, "@ + columns_text("new."@, columns)
            + "); END;"@
}

/// Statement that makes changed rows searchable under their new text only.
pub fn create_update_trigger_sql(table_name: &str, columns: &[&str]) -> (s: String)
    ensures
        s@ == update_trigger_text(table_name@, columns@),
{
    let mut s = "CREATE TRIGGER IF NOT EXISTS ".to_owned();
    s.append(table_name);
    s.append("_fts_u AFTER UPDATE ON ");
    s.append(table_name);
    s.append(" BEGIN INSERT INTO ");
    s.append(table_name);
    s.append("_fts(");
    s.append(table_name);
    s.append("_fts, rowid, ");
    s.append(list_columns("", columns).as_str());
    s.append(") VALUES('delete', old.id, ");
    s.append(list_columns("old.", columns).as_str());
    s.append("); INSERT INTO ");
    s.append(table_name);
    s.append("_fts(rowid, ");
    s.append(list_columns("", columns).as_str());
    s.append(") VALUES (new.id, ");
    s.append(list_columns("new.", columns).as_str());
    s.append("); END;");
    s
}

/// Statement that drops one of the triggers.
pub open spec fn drop_trigger_text(table: Seq<char>, kind: Seq<char>) -> Seq<char> {
    "DROP TRIGGER IF EXISTS "@ + table + "_fts_"@ + kind + ";"@
}

fn drop_trigger_sql(table_name: &str, kind: &str) -> (s: String)
    ensures
        s@ == drop_trigger_text(table_name@, kind@),
{
    let mut s = "DROP TRIGGER IF EXISTS ".to_owned();
    s.append(table_name);
    s.append("_fts_");
    s.append(kind);
    s.append(";");
    s
}

/// Statement that drops the search table.
pub open spec fn drop_table_text(table: Seq<char>) -> Seq<char> {
    "DROP TABLE IF EXISTS "@ + table + "_fts;"@
}

/// Statements that set up the search table and its triggers, in order.
pub fn create_fts_table_and_triggers(table_name: &str, columns: &[&str]) -> (out: Vec<String>)
    ensures
        text::lines(out@) == seq![
            table_text(table_name@, columns@),
            insert_trigger_text(table_name@, columns@),
            delete_trigger_text(table_name@, columns@),
            update_trigger_text(table_name@, columns@),
        ],
{
    let mut out: Vec<String> = Vec::new();
    out.push(create_fts_table_sql(table_name, columns));
    out.push(create_insert_trigger_sql(table_name, columns));
    out.push(create_delete_trigger_sql(table_name, columns));
    out.push(create_update_trigger_sql(table_name, columns));
    assert(text::lines(out@) =~= seq![
        table_text(table_name@, columns@),
        insert_trigger_text(table_name@, columns@),
        delete_trigger_text(table_name@, columns@),
        update_trigger_text(table_name@, columns@),
    ]);
    out
}

/// Statements that undo [`create_fts_table_and_triggers`], in order.
pub fn drop_fts_table_and_triggers(table_name: &str) -> (out: Vec<String>)
    ensures
        text::lines(out@) == seq![
            drop_trigger_text(table_name@, "i"@),
            drop_trigger_text(table_name@, "d"@),
            drop_trigger_text(table_name@, "u"@),
            drop_table_text(table_name@),
        ],
{
    let mut out: Vec<String> = Vec::new();
    assert(text::lines(out@) =~= Seq::<Seq<char>>::empty());
    push_line(&mut out, drop_trigger_sql(table_name, "i"));
    push_line(&mut out, drop_trigger_sql(table_name, "d"));
    push_line(&mut out, drop_trigger_sql(table_name, "u"));
    let mut s = "DROP TABLE IF EXISTS ".to_owned();
    s.append(table_name);
    s.append("_fts;");
    push_line(&mut out, s);
    assert(text::lines(out@) =~= seq![
        drop_trigger_text(table_name@, "i"@),
        drop_trigger_text(table_name@, "d"@),
        drop_trigger_text(table_name@, "u"@),
        drop_table_text(table_name@),
    ]);
    out
}

/// Statement that fills the search table from its content table.
pub fn rebuild_fts_table(table_name: &str) -> (s: String)
    ensures
        s@ == "INSERT INTO "@ + table_name@ + "_fts("@ + table_name@ + "_fts) VALUES('rebuild');"@,
{
    let mut s = "INSERT INTO ".to_owned();
    s.append(table_name);
    s.append("_fts(");
    s.append(table_name);
    s.append("_fts) VALUES('rebuild');");
    s
}

// ---------------------------------------------------------------------------
// Laws
// ---------------------------------------------------------------------------

/// The index is made before the triggers that fill it, and dropped after them;
/// each statement is the one that is made alone.
pub proof fn triggers_come_after_the_index(
    table: &str,
    columns: &[&str],
    all: Vec<String>,
    index: String,
    insert: String,
    delete: String,
    update: String,
    gone: Vec<String>,
)
    requires
        call_ensures(create_fts_table_and_triggers, (table, columns), all),
        call_ensures(create_fts_table_sql, (table, columns), index),
        call_ensures(create_insert_trigger_sql, (table, columns), insert),
        call_ensures(create_delete_trigger_sql, (table, columns), delete),
        call_ensures(create_update_trigger_sql, (table, columns), update),
        call_ensures(drop_fts_table_and_triggers, (table,), gone),
    ensures
        all@.len() == 4,
        all@[0]@ == index@,
        all@[1]@ == insert@,
        all@[2]@ == delete@,
        all@[3]@ == update@,
        gone@.len() == 4,
        gone@[3]@ == "DROP TABLE IF EXISTS "@ + table@ + "_fts;"@,
        gone@[0]@ == "DROP TRIGGER IF EXISTS "@ + table@ + "_fts_"@ + "i"@ + ";"@,
        gone@[1]@ == "DROP TRIGGER IF EXISTS "@ + table@ + "_fts_"@ + "d"@ + ";"@,
        gone@[2]@ == "DROP TRIGGER IF EXISTS "@ + table@ + "_fts_"@ + "u"@ + ";"@,
{
    let a = text::lines(all@);
    let g = text::lines(gone@);
    assert(a.len() == all@.len() && g.len() == gone@.len());
    assert(a[0] == all@[0]@ && a[1] == all@[1]@ && a[2] == all@[2]@ && a[3] == all@[3]@);
    assert(g[0] == gone@[0]@ && g[1] == gone@[1]@ && g[2] == gone@[2]@ && g[3] == gone@[3]@);
}

} // verus!
