//! The two projections of one organization's statistics: the cells of a
//! table, and one line of comma-separated values.

use crate::record::{all_wf, Organization, RepoRecord};
use crate::stats::{SumStats, Totals};
use crate::text::{
    decimal, decimal_text, fields_of, join, joined, lemma_decimal_has_no_comma, lemma_split_joined,
    signed_decimal, signed_text, split, views,
};
use vstd::prelude::*;
use vstd::string::StringExecFns;

verus! {

/// The cells of one organization's table.
#[derive(Clone, Debug, PartialEq, Eq)]
pub struct TableCells {
    /// The heading: the organization and the statistics, column by column.
    pub summary: Vec<String>,
    /// The names of the columns.
    pub labels: Vec<String>,
    /// One row for each selected repository, in the order of selection.
    pub rows: Vec<Vec<String>>,
}

/// What is shown and what is recorded of one organization.
#[derive(Clone, Debug, PartialEq, Eq)]
pub struct Report {
    pub table: TableCells,
    /// The line of comma-separated values, with its line end.
    pub csv_row: String,
}

/// The names of the table's columns.
pub open spec fn labels_spec() -> Seq<Seq<char>> {
    seq![
        "Repository"@,
        "Stars"@,
        "Forks"@,
        "License"@,
        "Followers"@,
        "Updated at"@,
        "Pushed at"@,
        "Open issues"@,
        "Size"@,
        "Created"@,
    ]
}

/// The name of a license, or nothing where there is none.
pub open spec fn license_text(license: Option<String>) -> Seq<char> {
    match license {
        Some(name) => name@,
        None => Seq::empty(),
    }
}

/// The cells of one repository's row.
pub open spec fn row_spec(r: RepoRecord) -> Seq<Seq<char>> {
    seq![
        r.name@,
        decimal(r.stars as nat),
        decimal(r.forks as nat),
        license_text(r.license_name),
        decimal(r.watchers as nat),
        r.updated_at.text_spec(),
        r.pushed_at.text_spec(),
        decimal(r.open_issues as nat),
        decimal(r.size as nat),
        signed_decimal(r.created_year as int),
    ]
}

/// The rows of the repositories, in their order.
pub open spec fn rows_spec(s: Seq<RepoRecord>) -> Seq<Seq<Seq<char>>> {
    Seq::new(s.len(), |i: int| row_spec(s[i]))
}

/// What each cell of each row holds.
pub open spec fn grid(rows: Seq<Vec<String>>) -> Seq<Seq<Seq<char>>> {
    Seq::new(rows.len(), |i: int| views(rows[i]@))
}

/// The heading of the table: the organization with the year of its creation,
/// then each sum and each latest instant in its column, and nothing in the
/// column of the licenses.
pub open spec fn summary_spec(org: Organization, t: Totals) -> Seq<Seq<char>> {
    seq![
        org.display_name@ + " ["@ + signed_decimal(org.created_year as int) + "]"@,
        "Sum: "@ + decimal(t.stars),
        "Sum: "@ + decimal(t.forks),
        Seq::empty(),
        "Sum: "@ + decimal(t.followers),
        "Latest: "@ + t.updated_at.text_spec(),
        "Latest: "@ + t.pushed_at.text_spec(),
        "Sum: "@ + decimal(t.open_issues_count),
        "Sum: "@ + decimal(t.size),
    ]
}

/// The names of the columns of the comma-separated record.
pub open spec fn csv_labels_spec() -> Seq<Seq<char>> {
    seq![
        "real_org_name"@,
        "org_created_at"@,
        "stars"@,
        "forks"@,
        "followers"@,
        "updated_at"@,
        "pushed_at"@,
        "open_issues_count"@,
        "size"@,
    ]
}

/// The values of one organization's line, column by column.
pub open spec fn csv_fields_spec(org: Organization, t: Totals) -> Seq<Seq<char>> {
    seq![
        org.display_name@,
        signed_decimal(org.created_year as int),
        decimal(t.stars),
        decimal(t.forks),
        decimal(t.followers),
        t.updated_at.text_spec(),
        t.pushed_at.text_spec(),
        decimal(t.open_issues_count),
        decimal(t.size),
    ]
}

/// A line of comma-separated values: the fields, commas between them, and a
/// line end.
pub open spec fn csv_line_spec(fields: Seq<Seq<char>>) -> Seq<char> {
    joined(fields, ","@) + "\n"@
}

/// `body` behind `prefix`.
fn prefixed(prefix: &str, body: &str) -> (r: String)
    ensures
        r@ == prefix@ + body@,
{
    let mut out = String::from_str(prefix);
    out.append(body);
    out
}

/// The names of the table's columns.
pub fn labels() -> (r: Vec<String>)
    ensures
        views(r@) == labels_spec(),
{
    let mut r: Vec<String> = Vec::new();
    r.push(String::from_str("Repository"));
    r.push(String::from_str("Stars"));
    r.push(String::from_str("Forks"));
    r.push(String::from_str("License"));
    r.push(String::from_str("Followers"));
    r.push(String::from_str("Updated at"));
    r.push(String::from_str("Pushed at"));
    r.push(String::from_str("Open issues"));
    r.push(String::from_str("Size"));
    r.push(String::from_str("Created"));
    assert(views(r@) =~= labels_spec());
    r
}

/// The cells of one repository's row.
pub fn row_cells(r: &RepoRecord) -> (cells: Vec<String>)
    requires
        r.wf(),
    ensures
        views(cells@) == row_spec(*r),
{
    let mut cells: Vec<String> = Vec::new();
    cells.push(r.name.clone());
    cells.push(decimal_text(r.stars as u128));
    cells.push(decimal_text(r.forks as u128));
    let license = match &r.license_name {
        Some(name) => name.clone(),
        None => String::new(),
    };
    cells.push(license);
    cells.push(decimal_text(r.watchers as u128));
    cells.push(r.updated_at.text());
    cells.push(r.pushed_at.text());
    cells.push(decimal_text(r.open_issues as u128));
    cells.push(decimal_text(r.size as u128));
    cells.push(signed_text(r.created_year));
    assert(views(cells@) =~= row_spec(*r));
    cells
}

/// The heading of the table for these statistics.
pub fn summary_cells(org: &Organization, stats: &SumStats) -> (cells: Vec<String>)
    requires
        stats.updated_at.wf(),
        stats.pushed_at.wf(),
    ensures
        views(cells@) == summary_spec(*org, stats@),
{
    let mut title = org.display_name.clone();
    title.append(" [");
    title.append(signed_text(org.created_year).as_str());
    title.append("]");
    let mut cells: Vec<String> = Vec::new();
    cells.push(title);
    cells.push(prefixed("Sum: ", decimal_text(stats.stars).as_str()));
    cells.push(prefixed("Sum: ", decimal_text(stats.forks).as_str()));
    cells.push(String::new());
    cells.push(prefixed("Sum: ", decimal_text(stats.followers).as_str()));
    cells.push(prefixed("Latest: ", stats.updated_at.text().as_str()));
    cells.push(prefixed("Latest: ", stats.pushed_at.text().as_str()));
    cells.push(prefixed("Sum: ", decimal_text(stats.open_issues_count).as_str()));
    cells.push(prefixed("Sum: ", decimal_text(stats.size).as_str()));
    assert(views(cells@) =~= summary_spec(*org, stats@));
    cells
}

/// The names of the columns of the comma-separated record.
pub fn csv_labels() -> (r: Vec<String>)
    ensures
        views(r@) == csv_labels_spec(),
{
    let mut r: Vec<String> = Vec::new();
    r.push(String::from_str("real_org_name"));
    r.push(String::from_str("org_created_at"));
    r.push(String::from_str("stars"));
    r.push(String::from_str("forks"));
    r.push(String::from_str("followers"));
    r.push(String::from_str("updated_at"));
    r.push(String::from_str("pushed_at"));
    r.push(String::from_str("open_issues_count"));
    r.push(String::from_str("size"));
    assert(views(r@) =~= csv_labels_spec());
    r
}

/// The values of one organization's line, column by column.
pub fn csv_fields(org: &Organization, stats: &SumStats) -> (cells: Vec<String>)
    requires
        stats.updated_at.wf(),
        stats.pushed_at.wf(),
    ensures
        views(cells@) == csv_fields_spec(*org, stats@),
{
    let mut cells: Vec<String> = Vec::new();
    cells.push(org.display_name.clone());
    cells.push(signed_text(org.created_year));
    cells.push(decimal_text(stats.stars));
    cells.push(decimal_text(stats.forks));
    cells.push(decimal_text(stats.followers));
    cells.push(stats.updated_at.text());
    cells.push(stats.pushed_at.text());
    cells.push(decimal_text(stats.open_issues_count));
    cells.push(decimal_text(stats.size));
    assert(views(cells@) =~= csv_fields_spec(*org, stats@));
    cells
}

/// The fields as one line of comma-separated values.
pub fn csv_line(fields: &Vec<String>) -> (r: String)
    ensures
        r@ == csv_line_spec(views(fields@)),
{
    let mut out = join(fields, ",");
    out.append("\n");
    out
}

/// The line that heads the comma-separated record.
pub fn csv_header() -> (r: String)
    ensures
        r@ == csv_line_spec(csv_labels_spec()),
{
    csv_line(&csv_labels())
}

/// The line of one organization in the comma-separated record.
pub fn csv_row(org: &Organization, stats: &SumStats) -> (r: String)
    requires
        stats.updated_at.wf(),
        stats.pushed_at.wf(),
    ensures
        r@ == csv_line_spec(csv_fields_spec(*org, stats@)),
{
    csv_line(&csv_fields(org, stats))
}

/// The table's cells and the line of values for one organization: both show
/// the same statistics, and the table has one row for each selected
/// repository, in the order of selection.
pub fn render(org: &Organization, selected: &Vec<RepoRecord>, stats: &SumStats) -> (r: Report)
    requires
        all_wf(selected@),
        stats.updated_at.wf(),
        stats.pushed_at.wf(),
    ensures
        views(r.table.summary@) == summary_spec(*org, stats@),
        views(r.table.labels@) == labels_spec(),
        grid(r.table.rows@) == rows_spec(selected@),
        r.csv_row@ == csv_line_spec(csv_fields_spec(*org, stats@)),
{
    let mut rows: Vec<Vec<String>> = Vec::new();
    let mut i: usize = 0;
    while i < selected.len()
        invariant
            i <= selected.len(),
            all_wf(selected@),
            rows@.len() == i,
            grid(rows@) == rows_spec(selected@.take(i as int)),
        decreases selected.len() - i,
    {
        let ghost before = rows@;
        let cells = row_cells(&selected[i]);
        rows.push(cells);
        proof {
            let want = rows_spec(selected@.take(i + 1));
            assert forall|j: int| 0 <= j < want.len() implies grid(rows@)[j] == want[j] by {
                if j < i {
                    assert(rows@[j] == before[j]);
                    assert(grid(before)[j] == rows_spec(selected@.take(i as int))[j]);
                }
            }
            assert(grid(rows@) =~= want);
        }
        i += 1;
    }
    assert(selected@.take(i as int) =~= selected@);
    Report {
        table: TableCells { summary: summary_cells(org, stats), labels: labels(), rows },
        csv_row: csv_row(org, stats),
    }
}

/// The heading line and every line of values have the same nine columns, and
/// every row of the table has the ten columns that are named.
pub proof fn lemma_column_counts(org: Organization, t: Totals, r: RepoRecord)
    ensures
        csv_labels_spec().len() == 9,
        csv_fields_spec(org, t).len() == 9,
        summary_spec(org, t).len() == 9,
        labels_spec().len() == 10,
        row_spec(r).len() == 10,
{
}

/// The heading of the table as it is made from the fields of a line of
/// values: the first two fields make the title, each sum and each latest
/// instant stands behind its word, and the column of the licenses is empty.
pub open spec fn summary_of_fields(f: Seq<Seq<char>>) -> Seq<Seq<char>>
    recommends
        f.len() == 9,
{
    seq![
        f[0] + " ["@ + f[1] + "]"@,
        "Sum: "@ + f[2],
        "Sum: "@ + f[3],
        Seq::empty(),
        "Sum: "@ + f[4],
        "Latest: "@ + f[5],
        "Latest: "@ + f[6],
        "Sum: "@ + f[7],
        "Sum: "@ + f[8],
    ]
}

/// The fields of a line of comma-separated values; none where the line does
/// not end in a line end.
pub open spec fn csv_parse_spec(line: Seq<char>) -> Option<Seq<Seq<char>>> {
    if line.len() > 0 && line.last() == '\n' {
        Some(fields_of(line.drop_last(), ','))
    } else {
        None
    }
}

/// Reads a line of comma-separated values back into its fields.
pub fn parse_csv_line(line: &str) -> (r: Option<Vec<String>>)
    ensures
        match r {
            Some(fields) => csv_parse_spec(line@) == Some(views(fields@)),
            None => csv_parse_spec(line@) is None,
        },
{
    let n = line.unicode_len();
    if n > 0 && line.get_char(n - 1) == '\n' {
        assert(line@.subrange(0, n - 1) =~= line@.drop_last());
        Some(split(line.substring_char(0, n - 1), ','))
    } else {
        None
    }
}

/// The heading of the table, made from the nine fields of a line of values;
/// none where there are not nine fields.
pub fn summary_from_fields(fields: &Vec<String>) -> (r: Option<Vec<String>>)
    ensures
        r.is_some() <==> fields@.len() == 9,
        r matches Some(cells) ==> views(cells@) == summary_of_fields(views(fields@)),
{
    if fields.len() != 9 {
        return None;
    }
    let mut title = fields[0].clone();
    title.append(" [");
    title.append(fields[1].as_str());
    title.append("]");
    let mut cells: Vec<String> = Vec::new();
    cells.push(title);
    cells.push(prefixed("Sum: ", fields[2].as_str()));
    cells.push(prefixed("Sum: ", fields[3].as_str()));
    cells.push(String::new());
    cells.push(prefixed("Sum: ", fields[4].as_str()));
    cells.push(prefixed("Latest: ", fields[5].as_str()));
    cells.push(prefixed("Latest: ", fields[6].as_str()));
    cells.push(prefixed("Sum: ", fields[7].as_str()));
    cells.push(prefixed("Sum: ", fields[8].as_str()));
    assert(views(cells@) =~= summary_of_fields(views(fields@)));
    Some(cells)
}

/// The table's heading and the line of values show the same statistics: the
/// heading is made of the very fields of the line.
pub proof fn lemma_summary_shows_csv_fields(org: Organization, t: Totals)
    ensures
        summary_spec(org, t) == summary_of_fields(csv_fields_spec(org, t)),
{
}

/// A written line reads back as it was written: where neither the name of
/// the organization nor the text of an instant holds a comma, the line of an
/// organization has nine fields, reading it gives these fields back, and the
/// heading made from them is the heading of the table, character by
/// character.
pub proof fn lemma_csv_round_trip(org: Organization, t: Totals)
    requires
        !org.display_name@.contains(','),
        !t.updated_at.text_spec().contains(','),
        !t.pushed_at.text_spec().contains(','),
    ensures
        csv_parse_spec(csv_line_spec(csv_fields_spec(org, t))) == Some(csv_fields_spec(org, t)),
        csv_fields_spec(org, t).len() == csv_labels_spec().len(),
        summary_of_fields(csv_fields_spec(org, t)) == summary_spec(org, t),
{
    let fields = csv_fields_spec(org, t);
    reveal_strlit(",");
    reveal_strlit("\n");
    assert(","@ =~= seq![',']);
    assert("\n"@ =~= seq!['\n']);
    lemma_decimal_has_no_comma(t.stars);
    lemma_decimal_has_no_comma(t.forks);
    lemma_decimal_has_no_comma(t.followers);
    lemma_decimal_has_no_comma(t.open_issues_count);
    lemma_decimal_has_no_comma(t.size);
    if org.created_year >= 0 {
        lemma_decimal_has_no_comma(org.created_year as nat);
    } else {
        lemma_decimal_has_no_comma((-org.created_year) as nat);
    }
    lemma_split_joined(fields, ',');
    let line = csv_line_spec(fields);
    assert(line.drop_last() =~= joined(fields, seq![',']));
}

} // verus!
