//! What is done with each entry of the scanned folder.
//!
//! The walk itself belongs to the caller, who lists the folder and copies the
//! files. For each entry the caller says what it found, is told what to do,
//! does it, and says how a copy went; what is then counted is decided here.

use vstd::prelude::*;
use vstd::string::*;
use crate::category::{classification, classify, Category, CategoryTable, Rule};
use crate::counters::{
    failures, lemma_count_none, lemma_count_one_more, lemma_counts_once, sorted_in_all, tally,
    Outcome, RunCounters,
};

verus! {

/// What the listing of the folder showed for one entry.
#[derive(Debug)]
pub enum Entry {
    /// The entry, or its file type, could not be read.
    Unreadable,
    /// A subfolder.
    Directory,
    /// A symbolic link, whatever it points to.
    Symlink,
    /// A regular file and its name.
    File { name: String },
}

/// What is to be done with an entry.
#[derive(Clone, Copy, PartialEq, Eq, Structural, Debug)]
pub enum Step {
    /// Leave it alone and count nothing.
    Skip,
    /// Count an error; there is nothing to sort.
    CountError,
    /// Say where the file would go, and count it there, without copying.
    Announce(Category),
    /// Copy the file into the folder of this category.
    Copy(Category),
}

/// An entry after its step was taken.
#[derive(Debug)]
pub struct Visit {
    /// What the listing showed.
    pub entry: Entry,
    /// Whether the copy succeeded; it counts where one was made.
    pub copied: bool,
}

/// The step that an entry calls for: folders and links are skipped, what
/// cannot be read is an error, and a file is announced in a dry run and
/// copied otherwise, under the category of its extension.
pub open spec fn plan(entry: Entry, table: Seq<Rule>, dry_run: bool) -> Step {
    match entry {
        Entry::Unreadable => Step::CountError,
        Entry::Directory => Step::Skip,
        Entry::Symlink => Step::Skip,
        Entry::File { name } => if dry_run {
            Step::Announce(classification(table, name@))
        } else {
            Step::Copy(classification(table, name@))
        },
    }
}

/// What became of an entry once its step was taken, `copied` being whether
/// the copy succeeded; it is looked at for a `Copy` step only.
pub open spec fn outcome_of(step: Step, copied: bool) -> Outcome {
    match step {
        Step::Skip => Outcome::Ignored,
        Step::CountError => Outcome::Failed,
        Step::Announce(category) => Outcome::Sorted(category),
        Step::Copy(category) => if copied {
            Outcome::Sorted(category)
        } else {
            Outcome::Failed
        },
    }
}

/// Decides what is to be done with `entry`. In a dry run nothing is ever
/// to be copied.
pub fn plan_entry(entry: &Entry, categories: &CategoryTable, dry_run: bool) -> (step: Step)
    ensures
        step == plan(*entry, categories@, dry_run),
        dry_run ==> !(step is Copy),
{
    match entry {
        Entry::Unreadable => Step::CountError,
        Entry::Directory => Step::Skip,
        Entry::Symlink => Step::Skip,
        Entry::File { name } => {
            let category = classify(name.as_str(), categories);
            if dry_run {
                Step::Announce(category)
            } else {
                Step::Copy(category)
            }
        },
    }
}

/// Decides what became of an entry after its step, `copied` being whether
/// the copy succeeded; it is looked at for a `Copy` step only.
pub fn conclude(step: Step, copied: bool) -> (outcome: Outcome)
    ensures
        outcome == outcome_of(step, copied),
{
    match step {
        Step::Skip => Outcome::Ignored,
        Step::CountError => Outcome::Failed,
        Step::Announce(category) => Outcome::Sorted(category),
        Step::Copy(category) => if copied {
            Outcome::Sorted(category)
        } else {
            Outcome::Failed
        },
    }
}

/// What became of each entry in a run over `visits`.
pub open spec fn outcomes_of_run(visits: Seq<Visit>, table: Seq<Rule>, dry_run: bool) -> Seq<
    Outcome,
> {
    visits.map_values(|visit: Visit| outcome_of(plan(visit.entry, table, dry_run), visit.copied))
}

/// What the listing showed, entry by entry.
pub open spec fn entries_of(visits: Seq<Visit>) -> Seq<Entry> {
    visits.map_values(|visit: Visit| visit.entry)
}

/// How many of `entries` are regular files.
pub open spec fn files_among(entries: Seq<Entry>) -> nat {
    entries.filter(|entry: Entry| entry is File).len()
}

/// How many of `entries` could not be read.
pub open spec fn unreadable_among(entries: Seq<Entry>) -> nat {
    entries.filter(|entry: Entry| entry is Unreadable).len()
}

/// How many files a run over `visits` failed to copy. A dry run copies
/// nothing, so nothing fails.
pub open spec fn failed_copies(visits: Seq<Visit>, dry_run: bool) -> nat {
    visits.filter(|visit: Visit| visit.entry is File && !dry_run && !visit.copied).len()
}

/// Counts a whole run: what each of `visits` comes to, by the rules of
/// `plan_entry` and `conclude`. Every file is counted once, under its
/// category or, where its copy failed, as an error; what could not be read is
/// an error; nothing else is counted.
pub fn organize(visits: &Vec<Visit>, categories: &CategoryTable, dry_run: bool) -> (counters:
    RunCounters)
    ensures
        counters.counts(outcomes_of_run(visits@, categories@, dry_run)),
        counters.sorted_total() + failed_copies(visits@, dry_run) == files_among(
            entries_of(visits@),
        ),
        counters.errors == unreadable_among(entries_of(visits@)) + failed_copies(visits@, dry_run),
        dry_run || (forall|i: int| 0 <= i < visits.len() ==> visits[i].copied)
            ==> counters.sorted_total() == files_among(entries_of(visits@)),
{
    let mut outcomes: Vec<Outcome> = Vec::new();
    let mut i: usize = 0;
    while i < visits.len()
        invariant
            i <= visits.len(),
            outcomes@ == outcomes_of_run(visits@.take(i as int), categories@, dry_run),
        decreases visits.len() - i,
    {
        let step = plan_entry(&visits[i].entry, categories, dry_run);
        outcomes.push(conclude(step, visits[i].copied));
        i = i + 1;
    }
    let counters = tally(&outcomes);
    proof {
        assert(visits@.take(i as int) =~= visits@);
        lemma_run_counts(visits@, categories@, dry_run);
        lemma_counts_once(counters, counters, outcomes@);
        if dry_run || (forall|i: int| 0 <= i < visits.len() ==> visits[i].copied) {
            lemma_no_failed_copies(visits@, dry_run);
        }
    }
    counters
}

/// A dry run never asks for a copy, and what it counts does not depend on
/// how any copy would go.
pub proof fn lemma_dry_run_never_copies(entry: Entry, table: Seq<Rule>, copied: bool)
    ensures
        !(plan(entry, table, true) is Copy),
        outcome_of(plan(entry, table, true), copied) == outcome_of(
            plan(entry, table, true),
            !copied,
        ),
{
}

/// Outside a dry run nothing is merely announced: a file is copied or, where
/// that fails, counted as an error.
pub proof fn lemma_real_run_copies(entry: Entry, table: Seq<Rule>)
    ensures
        !(plan(entry, table, false) is Announce),
        entry is File <==> plan(entry, table, false) is Copy,
{
}

/// Every file is counted once, under its category or, where its copy failed,
/// as an error; what could not be read is an error; nothing else is counted.
pub proof fn lemma_run_counts(visits: Seq<Visit>, table: Seq<Rule>, dry_run: bool)
    ensures
        sorted_in_all(outcomes_of_run(visits, table, dry_run)) + failed_copies(visits, dry_run)
            == files_among(entries_of(visits)),
        failures(outcomes_of_run(visits, table, dry_run)) == unreadable_among(entries_of(visits))
            + failed_copies(visits, dry_run),
    decreases visits.len(),
{
    reveal(Seq::filter);
    let outcomes = outcomes_of_run(visits, table, dry_run);
    if visits.len() == 0 {
        assert(outcomes =~= Seq::empty());
        lemma_count_none();
    } else {
        let earlier = outcomes_of_run(visits.drop_last(), table, dry_run);
        lemma_run_counts(visits.drop_last(), table, dry_run);
        assert(outcomes =~= earlier.push(outcomes.last()));
        assert(entries_of(visits).drop_last() =~= entries_of(visits.drop_last()));
        lemma_count_one_more(earlier, outcomes.last());
    }
}

/// No copy fails in a dry run, nor where every copy succeeds.
pub proof fn lemma_no_failed_copies(visits: Seq<Visit>, dry_run: bool)
    requires
        dry_run || forall|i: int| 0 <= i < visits.len() ==> visits[i].copied,
    ensures
        failed_copies(visits, dry_run) == 0,
    decreases visits.len(),
{
    reveal(Seq::filter);
    if visits.len() > 0 {
        lemma_no_failed_copies(visits.drop_last(), dry_run);
    }
}

/// In a dry run, and in a run in which every copy succeeds, the counters of
/// the categories add up to the number of regular files in the folder, and
/// the errors are the entries that could not be read.
pub proof fn lemma_counters_add_up(
    counters: RunCounters,
    visits: Seq<Visit>,
    table: Seq<Rule>,
    dry_run: bool,
)
    requires
        dry_run || forall|i: int| 0 <= i < visits.len() ==> visits[i].copied,
        counters.counts(outcomes_of_run(visits, table, dry_run)),
    ensures
        counters.sorted_total() == files_among(entries_of(visits)),
        counters.errors == unreadable_among(entries_of(visits)),
{
    lemma_run_counts(visits, table, dry_run);
    lemma_no_failed_copies(visits, dry_run);
    lemma_counts_once(counters, counters, outcomes_of_run(visits, table, dry_run));
}

/// Dry runs over the same entries end with the same counters, whatever else
/// differs between them.
pub proof fn lemma_dry_runs_agree(
    first: RunCounters,
    second: RunCounters,
    visits_first: Seq<Visit>,
    visits_second: Seq<Visit>,
    table: Seq<Rule>,
)
    requires
        entries_of(visits_first) == entries_of(visits_second),
        first.counts(outcomes_of_run(visits_first, table, true)),
        second.counts(outcomes_of_run(visits_second, table, true)),
    ensures
        first == second,
{
    assert(outcomes_of_run(visits_first, table, true) =~= outcomes_of_run(
        visits_second,
        table,
        true,
    )) by {
        assert(visits_first.len() == entries_of(visits_first).len());
        assert(visits_second.len() == entries_of(visits_second).len());
        assert forall|i: int| 0 <= i < visits_first.len() implies visits_first[i].entry
            == visits_second[i].entry by {
            assert(entries_of(visits_first)[i] == visits_first[i].entry);
            assert(entries_of(visits_second)[i] == visits_second[i].entry);
        }
    }
    lemma_counts_once(first, second, outcomes_of_run(visits_first, table, true));
}

} // verus!
