//! The text shown to the operator: the inventory as a table of fixed
//! columns, and one line per result of a dispatch.
//!
//! Nothing here can fail. A field that is empty or absent is shown as
//! `Unknown`. A cell that is wider than its column is shown whole and
//! pushes the rest of its line to the right.

use crate::directory::text_or_empty;
use crate::dispatch::{
    OperationResult, Outcome, OutcomeView, ResultView, SkipReason, SkipReasonView,
};
use crate::instance::{InstanceRecord, InstanceState, RecordView};
use crate::resolve::{ResolutionError, ResolutionErrorView};
use crate::text::{join, joined, padded, push_padded};
use vstd::prelude::*;

verus! {

/// The width of the column of instance ids.
pub const ID_WIDTH: usize = 25;

/// The width of the column of instance names.
pub const NAME_WIDTH: usize = 20;

/// The width of the column of addresses.
pub const ADDRESS_WIDTH: usize = 15;

/// What stands in place of an empty or absent field.
pub open spec fn placeholder() -> Seq<char> {
    "Unknown"@
}

/// The text as it is shown: itself, or the placeholder where it is empty.
pub open spec fn shown(text: Seq<char>) -> Seq<char> {
    if text.len() == 0 {
        placeholder()
    } else {
        text
    }
}

/// The word shown for a state.
pub open spec fn state_text(state: InstanceState) -> Seq<char> {
    match state {
        InstanceState::Pending => "Pending"@,
        InstanceState::Running => "Running"@,
        InstanceState::ShuttingDown => "ShuttingDown"@,
        InstanceState::Terminated => "Terminated"@,
        InstanceState::Stopping => "Stopping"@,
        InstanceState::Stopped => "Stopped"@,
        InstanceState::Unknown => "Unknown"@,
    }
}

/// The header row of the table.
pub open spec fn header_line() -> Seq<char> {
    padded("Instance ID"@, ID_WIDTH as nat) + padded("Instance Name"@, NAME_WIDTH as nat) + padded(
        "IP Address"@,
        ADDRESS_WIDTH as nat,
    ) + "Status"@
}

/// The table row of one record.
pub open spec fn row_line(record: RecordView) -> Seq<char> {
    padded(shown(record.id), ID_WIDTH as nat) + padded(shown(record.name), NAME_WIDTH as nat)
        + padded(shown(text_or_empty(record.public_ip)), ADDRESS_WIDTH as nat) + state_text(
        record.state,
    )
}

/// The table: the header row, then one row per record, in inventory
/// order.
pub open spec fn table_spec(directory: Seq<RecordView>) -> Seq<Seq<char>> {
    seq![header_line()] + directory.map_values(|record: RecordView| row_line(record))
}

/// The sentence for a resolution error.
pub open spec fn error_text(e: ResolutionErrorView) -> Seq<char> {
    match e {
        ResolutionErrorView::NotFound(name) => "no instance named "@ + shown(name),
        ResolutionErrorView::AmbiguousName(name, ids) => "several instances named "@ + shown(name)
            + ": "@ + joined(ids, ", "@),
        ResolutionErrorView::GroupNotFound(group) => "no group named "@ + shown(group),
        ResolutionErrorView::NoAddress(name) => "no address to connect to for "@ + shown(name),
    }
}

/// The sentence for a skip.
pub open spec fn reason_text(reason: SkipReasonView) -> Seq<char> {
    match reason {
        SkipReasonView::Unresolved(e) => error_text(e),
        SkipReasonView::NotEligible(state) => "instance is "@ + state_text(state),
    }
}

/// The words for an outcome: `Succeeded`, `Failed: ` and the provider's
/// reason, or `Skipped: ` and the reason of the skip.
pub open spec fn outcome_text(outcome: OutcomeView) -> Seq<char> {
    match outcome {
        OutcomeView::Succeeded => "Succeeded"@,
        OutcomeView::Failed(reason) => "Failed: "@ + reason,
        OutcomeView::Skipped(reason) => "Skipped: "@ + reason_text(reason),
    }
}

/// The line for one result: the target's name, a colon and a space, and
/// the words for its outcome.
pub open spec fn result_line(result: ResultView) -> Seq<char> {
    shown(result.instance_name) + ": "@ + outcome_text(result.outcome)
}

/// One line per result, in their order.
pub open spec fn report_spec(results: Seq<ResultView>) -> Seq<Seq<char>> {
    results.map_values(|result: ResultView| result_line(result))
}

/// The word shown for a state.
pub fn state_label(state: InstanceState) -> (label: &'static str)
    ensures
        label@ == state_text(state),
{
    match state {
        InstanceState::Pending => "Pending",
        InstanceState::Running => "Running",
        InstanceState::ShuttingDown => "ShuttingDown",
        InstanceState::Terminated => "Terminated",
        InstanceState::Stopping => "Stopping",
        InstanceState::Stopped => "Stopped",
        InstanceState::Unknown => "Unknown",
    }
}

/// The text as it is shown: itself, or `Unknown` where it is empty.
pub fn or_placeholder<'a>(text: &'a str) -> (r: &'a str)
    ensures
        r@ == shown(text@),
{
    if text.is_empty() {
        "Unknown"
    } else {
        text
    }
}

/// The header row of the table.
pub fn render_header() -> (line: String)
    ensures
        line@ == header_line(),
{
    let mut line = String::new();
    push_padded(&mut line, "Instance ID", ID_WIDTH);
    push_padded(&mut line, "Instance Name", NAME_WIDTH);
    push_padded(&mut line, "IP Address", ADDRESS_WIDTH);
    line.append("Status");
    assert(line@ =~= header_line());
    line
}

/// The table row of one record.
pub fn render_row(record: &InstanceRecord) -> (line: String)
    ensures
        line@ == row_line(record@),
{
    let mut line = String::new();
    push_padded(&mut line, or_placeholder(record.id.as_str()), ID_WIDTH);
    push_padded(&mut line, or_placeholder(record.name.as_str()), NAME_WIDTH);
    match &record.public_ip {
        Some(address) => push_padded(&mut line, or_placeholder(address.as_str()), ADDRESS_WIDTH),
        None => push_padded(&mut line, or_placeholder(""), ADDRESS_WIDTH),
    }
    line.append(state_label(record.state));
    proof {
        reveal_strlit("");
        assert(line@ =~= row_line(record@));
    }
    line
}

/// The inventory as a table: the header row, then one row per record. An
/// empty inventory gives the header row alone.
pub fn render_table(directory: &Vec<InstanceRecord>) -> (lines: Vec<String>)
    ensures
        lines.deep_view() == table_spec(directory.deep_view()),
{
    let ghost all = directory.deep_view();
    let mut lines: Vec<String> = Vec::new();
    lines.push(render_header());
    let mut i: usize = 0;
    proof {
        assert(lines.deep_view() =~= table_spec(all.take(0)));
    }
    while i < directory.len()
        invariant
            i <= directory.len(),
            all == directory.deep_view(),
            lines.deep_view() == table_spec(all.take(i as int)),
        decreases directory.len() - i,
    {
        let line = render_row(&directory[i]);
        let ghost sofar = lines.deep_view();
        lines.push(line);
        proof {
            assert(lines.deep_view() =~= sofar.push(line@));
            assert(all.take(i + 1) =~= all.take(i as int).push(all[i as int]));
            assert(lines.deep_view() =~= table_spec(all.take(i + 1)));
        }
        i = i + 1;
    }
    assert(all.take(all.len() as int) =~= all);
    lines
}

/// The sentence for a resolution error.
pub fn describe_error(e: &ResolutionError) -> (text: String)
    ensures
        text@ == error_text(e@),
{
    let mut text = String::new();
    match e {
        ResolutionError::NotFound(name) => {
            text.append("no instance named ");
            text.append(or_placeholder(name.as_str()));
        },
        ResolutionError::AmbiguousName(name, ids) => {
            text.append("several instances named ");
            text.append(or_placeholder(name.as_str()));
            text.append(": ");
            let list = join(ids, ", ");
            text.append(list.as_str());
        },
        ResolutionError::GroupNotFound(group) => {
            text.append("no group named ");
            text.append(or_placeholder(group.as_str()));
        },
        ResolutionError::NoAddress(name) => {
            text.append("no address to connect to for ");
            text.append(or_placeholder(name.as_str()));
        },
    }
    assert(text@ =~= error_text(e@));
    text
}

/// The sentence for a skip.
pub fn describe_reason(reason: &SkipReason) -> (text: String)
    ensures
        text@ == reason_text(reason@),
{
    match reason {
        SkipReason::Unresolved(e) => describe_error(e),
        SkipReason::NotEligible(state) => {
            let mut text = String::new();
            text.append("instance is ");
            text.append(state_label(*state));
            assert(text@ =~= reason_text(reason@));
            text
        },
    }
}

/// The line for one result.
pub fn render_result(result: &OperationResult) -> (line: String)
    ensures
        line@ == result_line(result@),
{
    let mut line = String::new();
    line.append(or_placeholder(result.instance_name.as_str()));
    line.append(": ");
    match &result.outcome {
        Outcome::Succeeded => {
            line.append("Succeeded");
        },
        Outcome::Failed(reason) => {
            line.append("Failed: ");
            line.append(reason.as_str());
        },
        Outcome::Skipped(reason) => {
            line.append("Skipped: ");
            let why = describe_reason(reason);
            line.append(why.as_str());
        },
    }
    assert(line@ =~= result_line(result@));
    line
}

/// The report of a dispatch: one line per result, in their order.
pub fn render_results(results: &Vec<OperationResult>) -> (lines: Vec<String>)
    ensures
        lines.deep_view() == report_spec(results.deep_view()),
{
    let ghost all = results.deep_view();
    let mut lines: Vec<String> = Vec::new();
    let mut i: usize = 0;
    proof {
        assert(lines.deep_view() =~= report_spec(all.take(0)));
    }
    while i < results.len()
        invariant
            i <= results.len(),
            all == results.deep_view(),
            lines.deep_view() == report_spec(all.take(i as int)),
        decreases results.len() - i,
    {
        let line = render_result(&results[i]);
        let ghost sofar = lines.deep_view();
        lines.push(line);
        proof {
            assert(lines.deep_view() =~= sofar.push(line@));
            assert(all.take(i + 1) =~= all.take(i as int).push(all[i as int]));
            assert(lines.deep_view() =~= report_spec(all.take(i + 1)));
        }
        i = i + 1;
    }
    assert(all.take(all.len() as int) =~= all);
    lines
}

} // verus!
