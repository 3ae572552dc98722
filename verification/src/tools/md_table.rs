//! Markdown tables of the batch report, drawn by `comfy_table`.
//!
//! What a table holds (its header, its rows of cells, its number of columns
//! and which of them are aligned right) is named and followed through every
//! call. The drawing depends on whether standard output is a
//! terminal and on its width (long cells wrap to fit), so the drawn text is
//! only stated to be a drawing of the table.

use comfy_table::presets::ASCII_MARKDOWN;
use comfy_table::{CellAlignment, Column, ContentArrangement, Table};
use vstd::prelude::*;

verus! {

/// Declares `comfy_table::Table` to the verifier; its contents stay opaque.
#[verifier::external_type_specification]
#[verifier::external_body]
pub struct ExTable(Table);

/// Declares `comfy_table::Column` to the verifier; its contents stay opaque.
#[verifier::external_type_specification]
#[verifier::external_body]
pub struct ExColumn(Column);

/// The header cells of a table, if it has a header.
pub uninterp spec fn table_header(table: Table) -> Option<Seq<Seq<char>>>;

/// The rows of a table, each a sequence of cell texts, in the order added.
pub uninterp spec fn table_rows(table: Table) -> Seq<Seq<Seq<char>>>;

/// Number of columns a table has made (one per header or row cell position).
pub uninterp spec fn table_columns(table: Table) -> nat;

/// The positions of the table's columns whose cells are aligned right.
pub uninterp spec fn table_right_aligned(table: Table) -> Set<nat>;

/// Whether a column's cells are aligned right.
pub uninterp spec fn column_right_aligned(column: Column) -> bool;

/// Whether `text` is a drawing of `table` (for the terminal at hand, if any).
pub uninterp spec fn drawn_from(table: Table, text: Seq<char>) -> bool;

/// The texts of a list of cells.
pub open spec fn cells_view(cells: Seq<String>) -> Seq<Seq<char>> {
    cells.map_values(|c: String| c@)
}

/// The texts of a list of rows.
pub open spec fn rows_view(rows: Seq<Vec<String>>) -> Seq<Seq<Seq<char>>> {
    rows.map_values(|r: Vec<String>| cells_view(r@))
}

/// The first `n` column positions.
pub open spec fn first_columns(n: nat) -> Set<nat> {
    Set::new(|c: nat| c < n)
}

/// `Table::new`: a table with no header and no rows.
#[verifier::external_body]
pub(crate) fn table_new() -> (t: Table)
    ensures
        table_header(t) == None::<Seq<Seq<char>>>,
        table_rows(t) == Seq::<Seq<Seq<char>>>::empty(),
        table_columns(t) == 0,
        table_right_aligned(t) == Set::<nat>::empty(),
{
    Table::new()
}

/// `Table::load_preset` with the ASCII Markdown preset; it changes only the
/// drawing characters, not the header or the rows.
#[verifier::external_body]
pub(crate) fn table_use_markdown_preset(table: &mut Table)
    ensures
        table_header(*final(table)) == table_header(*old(table)),
        table_rows(*final(table)) == table_rows(*old(table)),
        table_columns(*final(table)) == table_columns(*old(table)),
        table_right_aligned(*final(table)) == table_right_aligned(*old(table)),
{
    table.load_preset(ASCII_MARKDOWN);
}

/// `Table::set_content_arrangement` with dynamic arrangement (cells wrap to
/// the terminal's width when there is a terminal); the header and the rows
/// stay as they are.
#[verifier::external_body]
pub(crate) fn table_use_dynamic_arrangement(table: &mut Table)
    ensures
        table_header(*final(table)) == table_header(*old(table)),
        table_rows(*final(table)) == table_rows(*old(table)),
        table_columns(*final(table)) == table_columns(*old(table)),
        table_right_aligned(*final(table)) == table_right_aligned(*old(table)),
{
    table.set_content_arrangement(ContentArrangement::Dynamic);
}

/// `Table::set_header` with the given cells: they become the header; the
/// rows stay as they are, and columns are added (aligned left) until there is
/// one per header cell.
#[verifier::external_body]
pub(crate) fn table_set_header(table: &mut Table, cells: Vec<String>)
    ensures
        table_header(*final(table)) == Some(cells_view(cells@)),
        table_rows(*final(table)) == table_rows(*old(table)),
        table_columns(*final(table)) == if cells@.len() > table_columns(*old(table)) {
            cells@.len()
        } else {
            table_columns(*old(table))
        },
        table_right_aligned(*final(table)) == table_right_aligned(*old(table)),
{
    table.set_header(cells);
}

/// `Table::add_row` with the given cells: they become the last row; the
/// header stays as it is, and columns are added (aligned left) until there is
/// one per cell of the row.
#[verifier::external_body]
pub(crate) fn table_add_row(table: &mut Table, cells: Vec<String>)
    ensures
        table_header(*final(table)) == table_header(*old(table)),
        table_rows(*final(table)) == table_rows(*old(table)).push(cells_view(cells@)),
        table_columns(*final(table)) == if cells@.len() > table_columns(*old(table)) {
            cells@.len()
        } else {
            table_columns(*old(table))
        },
        table_right_aligned(*final(table)) == table_right_aligned(*old(table)),
{
    table.add_row(cells);
}

/// `Table::column_mut`: the column at `index`, present exactly when the
/// table has more than `index` columns. A column holds only layout settings,
/// so whatever is done with it leaves the header and rows as they are; its
/// alignment becomes that of the table's column `index`.
#[verifier::external_body]
pub(crate) fn table_column_mut(table: &mut Table, index: usize) -> (c: Option<&mut Column>)
    ensures
        c is Some <==> index < table_columns(*old(table)),
        table_header(*final(table)) == table_header(*old(table)),
        table_rows(*final(table)) == table_rows(*old(table)),
        table_columns(*final(table)) == table_columns(*old(table)),
        c matches Some(col) ==> table_right_aligned(*final(table)) == (if column_right_aligned(
            *final(col),
        ) {
            table_right_aligned(*old(table)).insert(index as nat)
        } else {
            table_right_aligned(*old(table)).remove(index as nat)
        }),
{
    table.column_mut(index)
}

/// `Column::set_cell_alignment` with right alignment.
#[verifier::external_body]
pub(crate) fn column_align_right(column: &mut Column)
    ensures
        column_right_aligned(*final(column)),
{
    column.set_cell_alignment(CellAlignment::Right);
}

/// `Table`'s `Display`: a drawing of the table, without a final newline.
#[verifier::external_body]
pub(crate) fn table_render(table: &Table) -> (r: String)
    ensures
        drawn_from(*table, r@),
{
    table.to_string()
}

/// A Markdown table with the given header and rows, the first
/// `right_aligned` columns aligned right, drawn: the text is a drawing of a
/// table that holds exactly that header and those rows, with exactly those
/// columns aligned right.
pub(crate) fn markdown_table(header: Vec<String>, rows: &Vec<Vec<String>>, right_aligned: usize) -> (r: String)
    requires
        right_aligned <= header@.len(),
    ensures
        exists|t: Table|
            {
                &&& table_header(t) == Some(cells_view(header@))
                &&& table_rows(t) == rows_view(rows@)
                &&& table_right_aligned(t) == first_columns(right_aligned as nat)
                &&& drawn_from(t, r@)
            },
{
    let ghost header_view = cells_view(header@);
    let mut table = table_new();
    table_use_markdown_preset(&mut table);
    table_use_dynamic_arrangement(&mut table);
    table_set_header(&mut table, header);
    let mut column: usize = 0;
    assert(first_columns(0) =~= Set::<nat>::empty());
    while column < right_aligned
        invariant
            column <= right_aligned,
            right_aligned <= header_view.len(),
            table_header(table) == Some(header_view),
            table_rows(table) == Seq::<Seq<Seq<char>>>::empty(),
            table_columns(table) == header_view.len(),
            table_right_aligned(table) == first_columns(column as nat),
        decreases right_aligned - column,
    {
        match table_column_mut(&mut table, column) {
            Some(c) => column_align_right(c),
            None => {},
        }
        assert(first_columns(column as nat).insert(column as nat) =~= first_columns((column + 1) as nat));
        column = column + 1;
    }
    let mut i: usize = 0;
    while i < rows.len()
        invariant
            i <= rows@.len(),
            table_header(table) == Some(header_view),
            table_rows(table) == rows_view(rows@.take(i as int)),
            table_right_aligned(table) == first_columns(right_aligned as nat),
        decreases rows@.len() - i,
    {
        let row = rows[i].clone();
        table_add_row(&mut table, row);
        i = i + 1;
        assert(rows_view(rows@.take(i as int)) =~= rows_view(rows@.take(i - 1)).push(
            cells_view(rows@[i - 1]@),
        ));
    }
    assert(rows@.take(rows@.len() as int) =~= rows@);
    let r = table_render(&table);
    assert(table_header(table) == Some(cells_view(header@)) && table_rows(table) == rows_view(rows@)
        && table_right_aligned(table) == first_columns(right_aligned as nat) && drawn_from(table, r@));
    r
}

} // verus!
