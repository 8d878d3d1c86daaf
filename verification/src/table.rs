//! The table of one organization as a `comfy_table::Table`, ready to print.

use crate::report::TableCells;
use crate::text::views;
use comfy_table::{Cell, Color, ContentArrangement, Table};
use vstd::prelude::*;

verus! {

#[verifier::external_type_specification]
#[verifier::external_body]
pub struct ExTable(Table);

/// The rows that were added to a table, in the order in which they were
/// added: of each cell its text, and whether it is shown in green.
pub uninterp spec fn table_rows(t: Table) -> Seq<Seq<(Seq<char>, bool)>>;

/// The heading of a table, where one was set: of each cell its text, and
/// whether it is shown in green.
pub uninterp spec fn table_header(t: Table) -> Option<Seq<(Seq<char>, bool)>>;

/// Cells in the default colour.
pub open spec fn plain(cells: Seq<Seq<char>>) -> Seq<(Seq<char>, bool)> {
    Seq::new(cells.len(), |i: int| (cells[i], false))
}

/// Cells in green.
pub open spec fn green(cells: Seq<Seq<char>>) -> Seq<(Seq<char>, bool)> {
    Seq::new(cells.len(), |i: int| (cells[i], true))
}

/// Calls `comfy_table::Table::new`: the new table has no row and no heading.
#[verifier::external_body]
fn new_table() -> (t: Table)
    ensures
        table_rows(t) == Seq::<Seq<(Seq<char>, bool)>>::empty(),
        table_header(t) is None,
{
    Table::new()
}

/// Calls `comfy_table::Table::set_content_arrangement` with
/// `ContentArrangement::DynamicFullWidth`: it sets how the table is laid out
/// when printed, and leaves its rows and its heading as they are.
#[verifier::external_body]
fn use_full_width(t: &mut Table)
    ensures
        table_rows(*final(t)) == table_rows(*old(t)),
        table_header(*final(t)) == table_header(*old(t)),
{
    t.set_content_arrangement(ContentArrangement::DynamicFullWidth);
}

/// Calls `comfy_table::Table::add_row` with one `Cell` for each string: the
/// row is added behind the rows that are there, and the heading stays.
#[verifier::external_body]
fn add_plain_row(t: &mut Table, cells: &Vec<String>)
    ensures
        table_rows(*final(t)) == table_rows(*old(t)).push(plain(views(cells@))),
        table_header(*final(t)) == table_header(*old(t)),
{
    t.add_row(cells.iter().map(Cell::new));
}

/// Calls `comfy_table::Table::add_row` with one `Cell` for each string, each
/// made green with `Cell::fg`: the row is added behind the rows that are
/// there, and the heading stays.
#[verifier::external_body]
fn add_green_row(t: &mut Table, cells: &Vec<String>)
    ensures
        table_rows(*final(t)) == table_rows(*old(t)).push(green(views(cells@))),
        table_header(*final(t)) == table_header(*old(t)),
{
    t.add_row(cells.iter().map(|c| Cell::new(c).fg(Color::Green)));
}

/// Calls `comfy_table::Table::set_header` with a green `Cell` for the title
/// and one `Cell` for each of the other strings: the heading is replaced, and
/// the rows stay.
#[verifier::external_body]
fn set_header(t: &mut Table, title: &String, others: &Vec<String>)
    ensures
        table_rows(*final(t)) == table_rows(*old(t)),
        table_header(*final(t)) == Some(seq![(title@, true)] + plain(views(others@))),
{
    let first = std::iter::once(Cell::new(title).fg(Color::Green));
    t.set_header(first.chain(others.iter().map(Cell::new)));
}

/// The heading that the table gets for these cells: the first in green, the
/// others plain; none where there is no cell.
pub open spec fn header_spec(summary: Seq<Seq<char>>) -> Option<Seq<(Seq<char>, bool)>> {
    if summary.len() == 0 {
        None
    } else {
        Some(seq![(summary[0], true)] + plain(summary.skip(1)))
    }
}

/// The rows that the table gets for these cells: the names of the columns in
/// green, then the rows of the repositories.
pub open spec fn body_spec(labels: Seq<Seq<char>>, rows: Seq<Seq<Seq<char>>>) -> Seq<
    Seq<(Seq<char>, bool)>,
> {
    seq![green(labels)] + Seq::new(rows.len(), |i: int| plain(rows[i]))
}

/// The table for these cells. Its heading is the summary, with the
/// organization in green; its first row names the columns, in green; then
/// comes one row for each repository. It is laid out over the full width
/// when it is printed.
pub fn build_table(cells: &TableCells) -> (t: Table)
    ensures
        table_header(t) == header_spec(views(cells.summary@)),
        table_rows(t) == body_spec(views(cells.labels@), crate::report::grid(cells.rows@)),
{
    let mut t = new_table();
    use_full_width(&mut t);
    add_green_row(&mut t, &cells.labels);
    let mut i: usize = 0;
    while i < cells.rows.len()
        invariant
            i <= cells.rows.len(),
            table_header(t) is None,
            table_rows(t) == body_spec(
                views(cells.labels@),
                crate::report::grid(cells.rows@.take(i as int)),
            ),
        decreases cells.rows.len() - i,
    {
        add_plain_row(&mut t, &cells.rows[i]);
        assert(table_rows(t) =~= body_spec(
            views(cells.labels@),
            crate::report::grid(cells.rows@.take(i + 1)),
        ));
        i += 1;
    }
    assert(cells.rows@.take(i as int) =~= cells.rows@);
    if cells.summary.len() > 0 {
        let mut others: Vec<String> = Vec::new();
        let mut k: usize = 1;
        while k < cells.summary.len()
            invariant
                1 <= k <= cells.summary.len(),
                others@.len() == k - 1,
                views(others@) == views(cells.summary@).subrange(1, k as int),
            decreases cells.summary.len() - k,
        {
            others.push(cells.summary[k].clone());
            assert(views(others@) =~= views(cells.summary@).subrange(1, k + 1));
            k += 1;
        }
        assert(views(cells.summary@).subrange(1, k as int) =~= views(cells.summary@).skip(1));
        set_header(&mut t, &cells.summary[0], &others);
    }
    t
}

} // verus!
