//! The summary of a run: one line for each category, in a fixed order, and
//! one for the errors.

use vstd::prelude::*;
use vstd::string::*;
use crate::category::Category;
use crate::counters::RunCounters;
use crate::text::{decimal, decimal_string, pad_right, padded};

verus! {

/// The width to which the names in the summary are filled up.
pub const LABEL_WIDTH: usize = 9;

/// The label of the line that counts the errors.
pub open spec fn errors_label() -> Seq<char> {
    "Errors"@
}

/// A line of the summary: the label, filled up so that the counts line up,
/// and the count.
pub open spec fn summary_line(label: Seq<char>, count: nat) -> Seq<char> {
    "  - "@ + padded(label, LABEL_WIDTH as nat) + " : "@ + decimal(count)
}

/// The summary of `counters`: the categories in their fixed order, `Others`
/// after them, the errors last.
pub open spec fn summary_of(counters: RunCounters) -> Seq<Seq<char>> {
    seq![
        summary_line(Category::Images.label(), counters.sorted(Category::Images)),
        summary_line(Category::Documents.label(), counters.sorted(Category::Documents)),
        summary_line(Category::Videos.label(), counters.sorted(Category::Videos)),
        summary_line(Category::Audio.label(), counters.sorted(Category::Audio)),
        summary_line(Category::Archives.label(), counters.sorted(Category::Archives)),
        summary_line(Category::Code.label(), counters.sorted(Category::Code)),
        summary_line(Category::Others.label(), counters.sorted(Category::Others)),
        summary_line(errors_label(), counters.errors as nat),
    ]
}

/// Writes one line of the summary.
pub fn report_line(label: &str, count: usize) -> (line: String)
    ensures
        line@ == summary_line(label@, count as nat),
{
    let mut line = String::from_str("  - ");
    line.append(pad_right(label, LABEL_WIDTH).as_str());
    line.append(" : ");
    line.append(decimal_string(count).as_str());
    line
}

/// Writes the summary of `counters`, line by line.
pub fn report_lines(counters: &RunCounters) -> (lines: Vec<String>)
    ensures
        lines@.map_values(|line: String| line@) == summary_of(*counters),
{
    let mut lines: Vec<String> = Vec::new();
    lines.push(report_line(Category::Images.name(), counters.count(Category::Images)));
    lines.push(report_line(Category::Documents.name(), counters.count(Category::Documents)));
    lines.push(report_line(Category::Videos.name(), counters.count(Category::Videos)));
    lines.push(report_line(Category::Audio.name(), counters.count(Category::Audio)));
    lines.push(report_line(Category::Archives.name(), counters.count(Category::Archives)));
    lines.push(report_line(Category::Code.name(), counters.count(Category::Code)));
    lines.push(report_line(Category::Others.name(), counters.count(Category::Others)));
    lines.push(report_line("Errors", counters.errors));
    lines
}

} // verus!
