//! One organization of a run: from what the lookup gave to what is shown and
//! recorded. Organizations are independent: each gets fresh statistics, and
//! one that cannot be found is skipped.

use crate::record::{all_wf, Organization, RepoRecord};
use crate::report::{
    csv_fields_spec, csv_line_spec, grid, labels_spec, render, rows_spec, summary_spec, Report,
};
use crate::select::{
    is_active, lemma_selected_active, lemma_selected_ignores_archived, select, selected,
};
use crate::stats::{lemma_latest_is_maximum, pushed_of, totals, updated_of, SumStats};
use vstd::prelude::*;
use vstd::string::StringExecFns;

verus! {

/// What becomes of one organization.
#[derive(Clone, Debug, PartialEq, Eq)]
pub enum Outcome {
    /// It was found: its statistics, and what is shown and recorded of it.
    Reported { stats: SumStats, report: Report },
    /// It was not found: one line that says so, and nothing is recorded.
    Skipped { diagnostic: String },
}

/// The line that reports an organization that was not found.
pub open spec fn skip_text(request_name: Seq<char>, cause: Seq<char>) -> Seq<char> {
    "Organization "@ + request_name + " not found "@ + cause
}

/// The line that reports an organization that was not found: it holds the
/// name asked for and the cause.
pub fn skip_diagnostic(request_name: &str, cause: &str) -> (r: String)
    ensures
        r@ == skip_text(request_name@, cause@),
{
    let mut out = String::from_str("Organization ");
    out.append(request_name);
    out.append(" not found ");
    out.append(cause);
    out
}

/// Handles one organization. Where the lookup found it, its repositories are
/// selected, the selected ones are summed up in fresh statistics, and both
/// are rendered. Where the lookup failed, the organization is skipped with a
/// diagnostic.
pub fn process(
    request_name: &str,
    lookup: Result<(Organization, Vec<RepoRecord>), String>,
    limit: usize,
) -> (outcome: Outcome)
    requires
        lookup matches Ok(found) ==> all_wf(found.1@),
    ensures
        match lookup {
            Ok(found) => {
                &&& outcome matches Outcome::Reported { stats, report }
                &&& stats@ == totals(selected(found.1@, limit as nat))
                &&& report_shows(report, found.0, stats, selected(found.1@, limit as nat))
            },
            Err(cause) => {
                &&& outcome matches Outcome::Skipped { diagnostic }
                &&& diagnostic@ == skip_text(request_name@, cause@)
            },
        },
{
    match lookup {
        Ok((org, repos)) => {
            let ghost given = repos@;
            let chosen = select(repos, limit);
            let stats = SumStats::summarize(&chosen);
            proof {
                assert forall|i: int| 0 <= i < chosen@.len() implies (#[trigger] chosen@[i]).wf() by {
                    assert(given.contains(chosen@[i]));
                    let k = choose|k: int| 0 <= k < given.len() && given[k] == chosen@[i];
                    assert(given[k].wf());
                }
                lemma_latest_is_maximum(chosen@, updated_of());
                lemma_latest_is_maximum(chosen@, pushed_of());
            }
            let report = render(&org, &chosen, &stats);
            Outcome::Reported { stats, report }
        },
        Err(cause) => Outcome::Skipped { diagnostic: skip_diagnostic(request_name, cause.as_str()) },
    }
}

/// The report shows the organization, the statistics and the selected
/// repositories.
pub open spec fn report_shows(
    report: Report,
    org: Organization,
    stats: SumStats,
    chosen: Seq<RepoRecord>,
) -> bool {
    &&& crate::text::views(report.table.summary@) == summary_spec(org, stats@)
    &&& crate::text::views(report.table.labels@) == labels_spec()
    &&& grid(report.table.rows@) == rows_spec(chosen)
    &&& report.csv_row@ == csv_line_spec(csv_fields_spec(org, stats@))
}

/// Archived repositories leave no trace: none is among the selected, and the
/// rows and the statistics are those of the repositories that are not
/// archived, up to the same limit.
pub proof fn lemma_archived_leave_no_trace(records: Seq<RepoRecord>, limit: nat)
    ensures
        forall|i: int|
            0 <= i < selected(records, limit).len() ==> !(#[trigger] selected(
                records,
                limit,
            )[i]).archived,
        rows_spec(selected(records, limit)) == rows_spec(
            selected(records.filter(is_active()), limit),
        ),
        totals(selected(records, limit)) == totals(selected(records.filter(is_active()), limit)),
{
    lemma_selected_active(records, limit);
    lemma_selected_ignores_archived(records, limit);
}

} // verus!
