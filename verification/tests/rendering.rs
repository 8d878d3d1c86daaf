use org_stats::instant::Timestamp;
use org_stats::record::{Organization, RepoRecord};
use org_stats::report::{
    csv_fields, csv_header, csv_labels, csv_row, labels, parse_csv_line, render, row_cells,
    summary_cells, summary_from_fields,
};
use org_stats::run::{process, skip_diagnostic, Outcome};
use org_stats::stats::SumStats;
use org_stats::text::{decimal_text, join, signed_text, split};

fn moment(secs: i64) -> Timestamp {
    Timestamp::new(secs, 0).unwrap()
}

fn strings(cells: &[&str]) -> Vec<String> {
    cells.iter().map(|c| c.to_string()).collect()
}

fn sample(name: &str, stars: u32, pushed: i64, license: Option<&str>, archived: bool) -> RepoRecord {
    RepoRecord {
        name: name.to_string(),
        stars,
        forks: 7,
        watchers: 8,
        license_name: license.map(|l| l.to_string()),
        updated_at: moment(1_431_648_000),
        pushed_at: moment(pushed),
        open_issues: 9,
        size: 1024,
        created_year: 2014,
        archived,
    }
}

fn acme() -> Organization {
    Organization::new("acme".to_string(), Some("Acme Corp".to_string()), 2012)
}

#[test]
fn decimal_text_of_numbers() {
    assert_eq!(decimal_text(0), "0");
    assert_eq!(decimal_text(7), "7");
    assert_eq!(decimal_text(10), "10");
    assert_eq!(decimal_text(1234567890), "1234567890");
    assert_eq!(decimal_text(u128::MAX), u128::MAX.to_string());
}

#[test]
fn signed_text_of_years() {
    assert_eq!(signed_text(2023), "2023");
    assert_eq!(signed_text(0), "0");
    assert_eq!(signed_text(-5), "-5");
    assert_eq!(signed_text(i32::MIN), "-2147483648");
    assert_eq!(signed_text(i32::MAX), "2147483647");
}

#[test]
fn join_puts_the_separator_between_cells() {
    assert_eq!(join(&strings(&[]), ","), "");
    assert_eq!(join(&strings(&["a"]), ","), "a");
    assert_eq!(join(&strings(&["a", "", "c"]), ","), "a,,c");
    assert_eq!(join(&strings(&["a", "b"]), ", "), "a, b");
}

#[test]
fn organization_falls_back_to_the_requested_name() {
    let named = Organization::new("acme".to_string(), Some("Acme Corp".to_string()), 2012);
    assert_eq!(named.request_name, "acme");
    assert_eq!(named.display_name, "Acme Corp");
    assert_eq!(named.created_year, 2012);
    let bare = Organization::new("acme".to_string(), None, 2012);
    assert_eq!(bare.display_name, "acme");
}

#[test]
fn table_labels_are_fixed() {
    assert_eq!(
        labels(),
        strings(&[
            "Repository", "Stars", "Forks", "License", "Followers", "Updated at", "Pushed at",
            "Open issues", "Size", "Created",
        ])
    );
}

#[test]
fn row_cells_show_every_field() {
    let with_license = sample("widget", 42, 1_672_531_200, Some("MIT License"), false);
    assert_eq!(
        row_cells(&with_license),
        strings(&[
            "widget",
            "42",
            "7",
            "MIT License",
            "8",
            "2015-05-15 00:00:00 UTC",
            "2023-01-01 00:00:00 UTC",
            "9",
            "1024",
            "2014",
        ])
    );
    let without = sample("widget", 42, 1_672_531_200, None, false);
    assert_eq!(row_cells(&without)[3], "");
}

#[test]
fn summary_cells_show_sums_and_latest() {
    let mut stats = SumStats::new();
    stats.update(15, 3, 4, moment(1_431_648_000), moment(1_685_577_600), 5, 6);
    assert_eq!(
        summary_cells(&acme(), &stats),
        strings(&[
            "Acme Corp [2012]",
            "Sum: 15",
            "Sum: 3",
            "",
            "Sum: 4",
            "Latest: 2015-05-15 00:00:00 UTC",
            "Latest: 2023-06-01 00:00:00 UTC",
            "Sum: 5",
            "Sum: 6",
        ])
    );
}

#[test]
fn csv_header_names_nine_columns() {
    assert_eq!(
        csv_header(),
        "real_org_name,org_created_at,stars,forks,followers,updated_at,pushed_at,open_issues_count,size\n"
    );
    assert_eq!(csv_labels().len(), 9);
    assert_eq!(csv_header().trim_end().split(',').count(), 9);
}

#[test]
fn csv_row_has_the_values_of_the_summary() {
    let mut stats = SumStats::new();
    stats.update(15, 3, 4, moment(1_431_648_000), moment(1_685_577_600), 5, 6);
    let row = csv_row(&acme(), &stats);
    assert_eq!(
        row,
        "Acme Corp,2012,15,3,4,2015-05-15 00:00:00 UTC,2023-06-01 00:00:00 UTC,5,6\n"
    );
    let fields = csv_fields(&acme(), &stats);
    assert_eq!(fields.len(), 9);
    let parsed: Vec<String> = row.trim_end_matches('\n').split(',').map(|f| f.to_string()).collect();
    assert_eq!(parsed, fields);
    let summary = summary_cells(&acme(), &stats);
    assert_eq!(summary[0], format!("{} [{}]", parsed[0], parsed[1]));
    assert_eq!(summary[1], format!("Sum: {}", parsed[2]));
    assert_eq!(summary[2], format!("Sum: {}", parsed[3]));
    assert_eq!(summary[4], format!("Sum: {}", parsed[4]));
    assert_eq!(summary[5], format!("Latest: {}", parsed[5]));
    assert_eq!(summary[6], format!("Latest: {}", parsed[6]));
    assert_eq!(summary[7], format!("Sum: {}", parsed[7]));
    assert_eq!(summary[8], format!("Sum: {}", parsed[8]));
}

#[test]
fn render_has_one_row_per_selected_record() {
    let chosen = vec![
        sample("b", 5, 1_685_577_600, None, false),
        sample("a", 10, 1_672_531_200, Some("Apache License 2.0"), false),
    ];
    let stats = SumStats::summarize(&chosen);
    let report = render(&acme(), &chosen, &stats);
    assert_eq!(report.table.labels, labels());
    assert_eq!(report.table.summary, summary_cells(&acme(), &stats));
    assert_eq!(report.table.rows.len(), 2);
    assert_eq!(report.table.rows[0], row_cells(&chosen[0]));
    assert_eq!(report.table.rows[1], row_cells(&chosen[1]));
    assert_eq!(report.table.rows[1][3], "Apache License 2.0");
    assert_eq!(report.csv_row, csv_row(&acme(), &stats));
}

#[test]
fn render_of_no_repository_shows_zero_sums() {
    let stats = SumStats::new();
    let report = render(&acme(), &Vec::new(), &stats);
    assert!(report.table.rows.is_empty());
    assert_eq!(report.table.summary[1], "Sum: 0");
    assert_eq!(report.table.summary[5], format!("Latest: {}", Timestamp::min().text()));
}

#[test]
fn process_reports_a_found_organization() {
    let repos = vec![
        sample("a", 10, 1_672_531_200, None, false),
        sample("hidden", 1000, 1_700_000_000, None, true),
        sample("b", 5, 1_685_577_600, None, false),
        sample("c", 20, 1_640_995_200, None, false),
    ];
    match process("acme", Ok((acme(), repos)), 2) {
        Outcome::Reported { stats, report } => {
            assert_eq!(stats.stars, 15);
            assert_eq!(stats.forks, 14);
            assert_eq!(stats.pushed_at, moment(1_685_577_600));
            assert_eq!(report.table.rows.len(), 2);
            assert_eq!(report.table.rows[0][0], "b");
            assert_eq!(report.table.rows[1][0], "a");
            assert_eq!(report.table.summary[0], "Acme Corp [2012]");
            assert_eq!(report.table.summary[1], "Sum: 15");
            assert_eq!(
                report.csv_row,
                "Acme Corp,2012,15,14,16,2015-05-15 00:00:00 UTC,2023-06-01 00:00:00 UTC,18,2048\n"
            );
        }
        Outcome::Skipped { diagnostic } => panic!("skipped: {}", diagnostic),
    }
}

#[test]
fn process_skips_an_organization_that_is_not_found() {
    let outcome = process("doesnotexist", Err("Not Found".to_string()), 10);
    match outcome {
        Outcome::Skipped { diagnostic } => {
            assert!(diagnostic.contains("doesnotexist"));
            assert_eq!(diagnostic, "Organization doesnotexist not found Not Found");
        }
        Outcome::Reported { .. } => panic!("reported"),
    }
    assert_eq!(skip_diagnostic("x", "y"), "Organization x not found y");
}

#[test]
fn statistics_do_not_carry_over_between_organizations() {
    let first = process("acme", Ok((acme(), vec![sample("a", 10, 100, None, false)])), 5);
    let second = process("acme", Ok((acme(), vec![sample("b", 1, 50, None, false)])), 5);
    match (first, second) {
        (Outcome::Reported { stats: one, .. }, Outcome::Reported { stats: two, .. }) => {
            assert_eq!(one.stars, 10);
            assert_eq!(two.stars, 1);
            assert_eq!(two.pushed_at, moment(50));
        }
        _ => panic!("skipped"),
    }
}

#[test]
fn split_gives_the_fields_between_separators() {
    assert_eq!(split("", ','), strings(&[""]));
    assert_eq!(split("abc", ','), strings(&["abc"]));
    assert_eq!(split("a,b,c", ','), strings(&["a", "b", "c"]));
    assert_eq!(split(",a,,b,", ','), strings(&["", "a", "", "b", ""]));
    assert_eq!(
        split("h\u{e9}llo;w\u{f6}rld;\u{4e16}\u{754c}", ';'),
        strings(&["h\u{e9}llo", "w\u{f6}rld", "\u{4e16}\u{754c}"])
    );
}

#[test]
fn split_undoes_join() {
    let cells = strings(&["Acme Corp", "2012", "", "15"]);
    assert_eq!(split(&join(&cells, ","), ','), cells);
    assert_eq!(split(&join(&strings(&["only"]), ","), ','), strings(&["only"]));
}

#[test]
fn parse_csv_line_wants_a_line_end() {
    assert_eq!(parse_csv_line(""), None);
    assert_eq!(parse_csv_line("a,b"), None);
    assert_eq!(parse_csv_line("\n"), Some(strings(&[""])));
    assert_eq!(parse_csv_line("a,b\n"), Some(strings(&["a", "b"])));
    assert_eq!(parse_csv_line(&csv_header()), Some(csv_labels()));
}

#[test]
fn summary_from_fields_wants_nine_fields() {
    assert_eq!(summary_from_fields(&strings(&["a", "b"])), None);
    assert_eq!(summary_from_fields(&Vec::new()), None);
    assert_eq!(
        summary_from_fields(&strings(&["Acme", "2012", "1", "2", "3", "u", "p", "4", "5"])),
        Some(strings(&[
            "Acme [2012]", "Sum: 1", "Sum: 2", "", "Sum: 3", "Latest: u", "Latest: p", "Sum: 4",
            "Sum: 5",
        ]))
    );
}

#[test]
fn written_row_reads_back_to_the_same_summary() {
    let mut stats = SumStats::new();
    stats.update(15, 3, 4, moment(1_431_648_000), moment(1_685_577_600), 5, 6);
    stats.update(u32::MAX, 0, 9, moment(5), Timestamp::new(1_685_577_600, 250_000_000).unwrap(), 1, 0);
    let row = csv_row(&acme(), &stats);
    let fields = parse_csv_line(&row).unwrap();
    assert_eq!(fields.len(), 9);
    assert_eq!(fields.len(), parse_csv_line(&csv_header()).unwrap().len());
    assert_eq!(fields, csv_fields(&acme(), &stats));
    assert_eq!(summary_from_fields(&fields), Some(summary_cells(&acme(), &stats)));
    assert_eq!(fields[2], "4294967310");
    assert_eq!(fields[6], "2023-06-01 00:00:00.250 UTC");
}

#[test]
fn name_with_a_comma_adds_a_column() {
    let org = Organization::new("acme".to_string(), Some("Acme, Inc.".to_string()), 2012);
    let row = csv_row(&org, &SumStats::new());
    assert_eq!(parse_csv_line(&row).unwrap().len(), 10);
}
