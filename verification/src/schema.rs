//! Schema lifecycle: the fixed column set of the table and the additive
//! migration step that adds a missing column without touching existing data.
//!
//! The storage adapter around this crate reads the actual column list of the
//! on-disk table and applies an `ALTER TABLE ... ADD COLUMN` exactly when
//! [`needs_column`] says so; the functions here carry the decision and the
//! resulting column list, which is all there is to verify.

use vstd::prelude::*;

verus! {

/// The column list of a schema, each column by its name.
pub open spec fn cols_model(cols: Seq<String>) -> Seq<Seq<char>> {
    cols.map_values(|c: String| c@)
}

/// Whether a column of the given name is present.
pub open spec fn has_column(cols: Seq<Seq<char>>, name: Seq<char>) -> bool {
    exists|i: int| 0 <= i < cols.len() && cols[i] == name
}

/// The column list after the additive migration for `name`: unchanged when
/// the table does not exist yet (the create-table statement includes the
/// column natively) or when the column is already present; otherwise the
/// column is appended.
pub open spec fn ensure_column_model(
    table_exists: bool,
    cols: Seq<Seq<char>>,
    name: Seq<char>,
) -> Seq<Seq<char>> {
    if !table_exists || has_column(cols, name) {
        cols
    } else {
        cols.push(name)
    }
}

/// The name of the one optional column that the defined migration adds.
pub open spec fn title_name() -> Seq<char> {
    "title"@
}

/// The additive migration never drops or reorders columns, never duplicates
/// one, and on an existing table ends with the column present.
pub proof fn lemma_ensure_column_additive(table_exists: bool, cols: Seq<Seq<char>>, name: Seq<char>)
    ensures
        cols.len() <= ensure_column_model(table_exists, cols, name).len() <= cols.len() + 1,
        forall|i: int|
            0 <= i < cols.len() ==> ensure_column_model(table_exists, cols, name)[i] == cols[i],
        table_exists ==> has_column(ensure_column_model(table_exists, cols, name), name),
        has_column(cols, name) ==> ensure_column_model(table_exists, cols, name) == cols,
{
    if table_exists && !has_column(cols, name) {
        assert(ensure_column_model(table_exists, cols, name)[cols.len() as int] == name);
    }
}

/// Running the migration any number of times gives the same schema as
/// running it once.
pub proof fn lemma_ensure_column_idempotent(
    table_exists: bool,
    cols: Seq<Seq<char>>,
    name: Seq<char>,
)
    ensures
        ensure_column_model(
            table_exists,
            ensure_column_model(table_exists, cols, name),
            name,
        ) == ensure_column_model(table_exists, cols, name),
{
    lemma_ensure_column_additive(table_exists, cols, name);
}

/// Whether a column list holds a column of the given name.
pub fn has_column_name(columns: &Vec<String>, name: &String) -> (b: bool)
    ensures
        b == has_column(cols_model(columns@), name@),
{
    let mut i: usize = 0;
    while i < columns.len()
        invariant
            i <= columns.len(),
            forall|j: int| 0 <= j < i ==> columns@[j]@ != name@,
        decreases columns.len() - i,
    {
        if columns[i] == *name {
            assert(cols_model(columns@)[i as int] == name@);
            return true;
        }
        i += 1;
    }
    assert(forall|j: int| 0 <= j < columns@.len() ==> cols_model(columns@)[j] == columns@[j]@);
    false
}

/// Whether the additive migration must alter the table to add `name`: only
/// when the table already exists and the column is missing.
pub fn needs_column(table_exists: bool, columns: &Vec<String>, name: &String) -> (b: bool)
    ensures
        b == (table_exists && !has_column(cols_model(columns@), name@)),
{
    table_exists && !has_column_name(columns, name)
}

/// Apply the additive migration for `name` to a column list.
pub fn ensure_column(table_exists: bool, columns: &mut Vec<String>, name: &String)
    ensures
        cols_model(final(columns)@) == ensure_column_model(
            table_exists,
            cols_model(old(columns)@),
            name@,
        ),
{
    let needed = needs_column(table_exists, columns, name);
    if needed {
        columns.push(name.clone());
        assert(cols_model(columns@) =~= cols_model(old(columns)@).push(name@));
    } else {
        assert(cols_model(columns@) =~= cols_model(old(columns)@));
    }
}

/// The defined migration: add the optional `title` column where it is
/// missing from an existing table.
pub fn ensure_title_column(table_exists: bool, columns: &mut Vec<String>)
    ensures
        cols_model(final(columns)@) == ensure_column_model(
            table_exists,
            cols_model(old(columns)@),
            title_name(),
        ),
{
    let name: String = "title".to_owned();
    ensure_column(table_exists, columns, &name);
}

} // verus!
