//! Bringing an older database up to date: the columns later versions
//! added to a table are added where the table lacks them.

use vstd::prelude::*;
use crate::text::{str_chars, push_all, string_from_chars, owned};
use crate::jj::string_views;

verus! {

/// A column that a later version added: its name and its definition.
pub type ColumnDefinition = (Seq<char>, Seq<char>);

pub open spec fn column_views(v: Seq<(String, String)>) -> Seq<ColumnDefinition> {
    v.map_values(|c: (String, String)| (c.0@, c.1@))
}

/// The statements that add, in order, the wanted columns whose names the
/// table does not have yet.
pub open spec fn column_additions_of(table: Seq<char>, existing: Seq<Seq<char>>, wanted: Seq<ColumnDefinition>) -> Seq<
    Seq<char>,
>
    decreases wanted.len(),
{
    if wanted.len() == 0 {
        Seq::empty()
    } else {
        let previous = column_additions_of(table, existing, wanted.drop_last());
        let (name, definition) = wanted.last();
        if existing.contains(name) {
            previous
        } else {
            previous.push("alter table "@ + table + " add column "@ + definition)
        }
    }
}

fn has_name(existing: &Vec<String>, name: &String) -> (r: bool)
    ensures
        r == string_views(existing@).contains(name@),
{
    let mut k: usize = 0;
    while k < existing.len()
        invariant
            k <= existing.len(),
            forall|j: int| 0 <= j < k ==> (#[trigger] existing@[j])@ != name@,
        decreases existing.len() - k,
    {
        if existing[k].eq(name) {
            assert(string_views(existing@)[k as int] == name@);
            return true;
        }
        k = k + 1;
    }
    proof {
        if string_views(existing@).contains(name@) {
            let j = choose|j: int| 0 <= j < existing@.len() && string_views(existing@)[j] == name@;
            assert(existing@[j]@ != name@);
        }
    }
    false
}

/// The `alter table` statements that add to `table` the `wanted` columns
/// that are not among its `existing` column names.
pub fn column_additions(table: &str, existing: &Vec<String>, wanted: &Vec<(String, String)>) -> (r: Vec<String>)
    ensures
        string_views(r@) == column_additions_of(table@, string_views(existing@), column_views(wanted@)),
{
    let mut out: Vec<String> = Vec::new();
    let mut i: usize = 0;
    while i < wanted.len()
        invariant
            i <= wanted.len(),
            string_views(out@) == column_additions_of(
                table@,
                string_views(existing@),
                column_views(wanted@.take(i as int)),
            ),
        decreases wanted.len() - i,
    {
        proof {
            assert(column_views(wanted@.take(i + 1)).drop_last() =~= column_views(wanted@.take(i as int)));
            assert(column_views(wanted@.take(i + 1)).last() == (wanted@[i as int].0@, wanted@[i as int].1@));
        }
        if !has_name(existing, &wanted[i].0) {
            let mut statement = str_chars("alter table ");
            push_all(&mut statement, str_chars(table).as_slice());
            push_all(&mut statement, str_chars(" add column ").as_slice());
            push_all(&mut statement, str_chars(wanted[i].1.as_str()).as_slice());
            let ghost before = out@;
            out.push(string_from_chars(statement.as_slice()));
            proof {
                assert(string_views(out@) =~= string_views(before).push(out@.last()@));
            }
        }
        i = i + 1;
    }
    proof {
        assert(wanted@.take(wanted@.len() as int) =~= wanted@);
    }
    out
}

fn column(name: &str, definition: &str) -> (r: (String, String))
    ensures
        r.0@ == name@,
        r.1@ == definition@,
{
    (owned(name), owned(definition))
}

/// The workspace columns that the baseline comparison added.
pub open spec fn workspace_status_columns_spec() -> Seq<ColumnDefinition> {
    seq![
        ("has_conflicts"@, "has_conflicts integer not null default 0"@),
        ("local_baseline_name"@, "local_baseline_name text"@),
        ("local_baseline_detail"@, "local_baseline_detail text"@),
        ("local_ahead_count"@, "local_ahead_count integer"@),
        ("local_behind_count"@, "local_behind_count integer"@),
        ("remote_baseline_name"@, "remote_baseline_name text"@),
        ("remote_baseline_detail"@, "remote_baseline_detail text"@),
        ("remote_ahead_count"@, "remote_ahead_count integer"@),
        ("remote_behind_count"@, "remote_behind_count integer"@),
        ("primary_relation"@, "primary_relation text not null default 'none'"@),
    ]
}

pub fn workspace_status_columns() -> (r: Vec<(String, String)>)
    ensures
        column_views(r@) == workspace_status_columns_spec(),
{
    let mut r: Vec<(String, String)> = Vec::new();
    r.push(column("has_conflicts", "has_conflicts integer not null default 0"));
    r.push(column("local_baseline_name", "local_baseline_name text"));
    r.push(column("local_baseline_detail", "local_baseline_detail text"));
    r.push(column("local_ahead_count", "local_ahead_count integer"));
    r.push(column("local_behind_count", "local_behind_count integer"));
    r.push(column("remote_baseline_name", "remote_baseline_name text"));
    r.push(column("remote_baseline_detail", "remote_baseline_detail text"));
    r.push(column("remote_ahead_count", "remote_ahead_count integer"));
    r.push(column("remote_behind_count", "remote_behind_count integer"));
    r.push(column("primary_relation", "primary_relation text not null default 'none'"));
    assert(column_views(r@) =~= workspace_status_columns_spec());
    r
}

/// The pane activity columns that attention requests added.
pub open spec fn pane_activity_columns_spec() -> Seq<ColumnDefinition> {
    seq![
        ("needs_attention"@, "needs_attention integer not null default 0"@),
        ("needs_attention_at_ms"@, "needs_attention_at_ms integer not null default 0"@),
        ("needs_attention_cleared_at_ms"@, "needs_attention_cleared_at_ms integer not null default 0"@),
    ]
}

pub fn pane_activity_attention_columns() -> (r: Vec<(String, String)>)
    ensures
        column_views(r@) == pane_activity_columns_spec(),
{
    let mut r: Vec<(String, String)> = Vec::new();
    r.push(column("needs_attention", "needs_attention integer not null default 0"));
    r.push(column("needs_attention_at_ms", "needs_attention_at_ms integer not null default 0"));
    r.push(column("needs_attention_cleared_at_ms", "needs_attention_cleared_at_ms integer not null default 0"));
    assert(column_views(r@) =~= pane_activity_columns_spec());
    r
}

} // verus!
