//! The counters of a run: how many files went to each category, and how many
//! entries failed.

use vstd::prelude::*;
use crate::category::Category;

verus! {

/// What became of an entry of the folder.
#[derive(Clone, Copy, PartialEq, Eq, Structural, Debug)]
pub enum Outcome {
    /// It was no file: nothing is counted.
    Ignored,
    /// It could not be read, or its copy failed.
    Failed,
    /// It was sorted into this category, or would have been in a dry run.
    Sorted(Category),
}

/// The counters of one run. They start at zero and only grow.
#[derive(Clone, Copy, PartialEq, Eq, Structural, Debug)]
pub struct RunCounters {
    pub images: usize,
    pub documents: usize,
    pub videos: usize,
    pub audio: usize,
    pub archives: usize,
    pub code: usize,
    pub others: usize,
    pub errors: usize,
}

/// One where `holds`, zero where it does not.
pub open spec fn one_if(holds: bool) -> nat {
    if holds {
        1
    } else {
        0
    }
}

/// How often `category` was sorted into among `outcomes`.
pub open spec fn sorted_into(outcomes: Seq<Outcome>, category: Category) -> nat {
    outcomes.to_multiset().count(Outcome::Sorted(category))
}

/// How many of `outcomes` are failures.
pub open spec fn failures(outcomes: Seq<Outcome>) -> nat {
    outcomes.to_multiset().count(Outcome::Failed)
}

/// How many of `outcomes` sorted a file, into whichever category.
pub open spec fn sorted_in_all(outcomes: Seq<Outcome>) -> nat {
    sorted_into(outcomes, Category::Images) + sorted_into(outcomes, Category::Documents)
        + sorted_into(outcomes, Category::Videos) + sorted_into(outcomes, Category::Audio)
        + sorted_into(outcomes, Category::Archives) + sorted_into(outcomes, Category::Code)
        + sorted_into(outcomes, Category::Others)
}

/// Nothing is counted among no outcomes.
pub proof fn lemma_count_none()
    ensures
        forall|category: Category| sorted_into(Seq::empty(), category) == 0,
        failures(Seq::empty()) == 0,
        sorted_in_all(Seq::empty()) == 0,
{
    broadcast use {
        vstd::seq_lib::group_to_multiset_ensures,
        vstd::multiset::group_multiset_axioms,
    };

}

/// One more outcome raises the one count that it belongs to, by one.
pub proof fn lemma_count_one_more(outcomes: Seq<Outcome>, outcome: Outcome)
    ensures
        forall|category: Category|
            sorted_into(outcomes.push(outcome), category) == sorted_into(outcomes, category)
                + one_if(outcome == Outcome::Sorted(category)),
        failures(outcomes.push(outcome)) == failures(outcomes) + one_if(outcome == Outcome::Failed),
        sorted_in_all(outcomes.push(outcome)) == sorted_in_all(outcomes) + one_if(
            outcome is Sorted,
        ),
{
    broadcast use {
        vstd::seq_lib::group_to_multiset_ensures,
        vstd::multiset::group_multiset_axioms,
    };

}

impl RunCounters {
    /// The counter of `category`.
    pub open spec fn sorted(&self, category: Category) -> nat {
        match category {
            Category::Images => self.images as nat,
            Category::Documents => self.documents as nat,
            Category::Videos => self.videos as nat,
            Category::Audio => self.audio as nat,
            Category::Archives => self.archives as nat,
            Category::Code => self.code as nat,
            Category::Others => self.others as nat,
        }
    }

    /// The sum of the counters of all categories, errors left out.
    pub open spec fn sorted_total(&self) -> nat {
        self.sorted(Category::Images) + self.sorted(Category::Documents) + self.sorted(
            Category::Videos,
        ) + self.sorted(Category::Audio) + self.sorted(Category::Archives) + self.sorted(
            Category::Code,
        ) + self.sorted(Category::Others)
    }

    /// Whether `outcome` can be recorded without a counter running over.
    pub open spec fn has_room_for(&self, outcome: Outcome) -> bool {
        match outcome {
            Outcome::Ignored => true,
            Outcome::Failed => self.errors < usize::MAX,
            Outcome::Sorted(category) => self.sorted(category) < usize::MAX,
        }
    }

    /// Whether these counters are `before` with `outcome` recorded: the one
    /// counter that `outcome` names is one higher, the others are the same.
    pub open spec fn follows(&self, before: RunCounters, outcome: Outcome) -> bool {
        &&& forall|category: Category|
            self.sorted(category) == before.sorted(category) + one_if(
                outcome == Outcome::Sorted(category),
            )
        &&& self.errors == before.errors + one_if(outcome == Outcome::Failed)
    }

    /// Whether these counters count `outcomes`, each once.
    pub open spec fn counts(&self, outcomes: Seq<Outcome>) -> bool {
        &&& forall|category: Category| self.sorted(category) == sorted_into(outcomes, category)
        &&& self.errors == failures(outcomes)
    }

    /// Counters at the start of a run: all zero.
    pub fn new() -> (counters: RunCounters)
        ensures
            counters.counts(Seq::empty()),
            forall|category: Category| counters.sorted(category) == 0,
            counters.errors == 0,
    {
        let counters = RunCounters {
            images: 0,
            documents: 0,
            videos: 0,
            audio: 0,
            archives: 0,
            code: 0,
            others: 0,
            errors: 0,
        };
        proof {
            lemma_count_none();
        }
        counters
    }

    /// Reads the counter of `category`.
    pub fn count(&self, category: Category) -> (count: usize)
        ensures
            count == self.sorted(category),
    {
        match category {
            Category::Images => self.images,
            Category::Documents => self.documents,
            Category::Videos => self.videos,
            Category::Audio => self.audio,
            Category::Archives => self.archives,
            Category::Code => self.code,
            Category::Others => self.others,
        }
    }

    /// Records what became of one entry.
    pub fn record(&mut self, outcome: Outcome)
        requires
            old(self).has_room_for(outcome),
        ensures
            final(self).follows(*old(self), outcome),
    {
        match outcome {
            Outcome::Ignored => {},
            Outcome::Failed => {
                self.errors = self.errors + 1;
            },
            Outcome::Sorted(Category::Images) => {
                self.images = self.images + 1;
            },
            Outcome::Sorted(Category::Documents) => {
                self.documents = self.documents + 1;
            },
            Outcome::Sorted(Category::Videos) => {
                self.videos = self.videos + 1;
            },
            Outcome::Sorted(Category::Audio) => {
                self.audio = self.audio + 1;
            },
            Outcome::Sorted(Category::Archives) => {
                self.archives = self.archives + 1;
            },
            Outcome::Sorted(Category::Code) => {
                self.code = self.code + 1;
            },
            Outcome::Sorted(Category::Others) => {
                self.others = self.others + 1;
            },
        }
    }
}

/// Counts the outcomes of a whole run.
pub fn tally(outcomes: &Vec<Outcome>) -> (counters: RunCounters)
    ensures
        counters.counts(outcomes@),
{
    let mut counters = RunCounters::new();
    let mut i: usize = 0;
    assert(outcomes@.take(0) =~= Seq::empty());
    while i < outcomes.len()
        invariant
            i <= outcomes.len(),
            counters.counts(outcomes@.take(i as int)),
            counters.sorted_total() + counters.errors <= i,
        decreases outcomes.len() - i,
    {
        proof {
            let counted = outcomes@.take(i as int);
            assert(outcomes@.take(i as int + 1) =~= counted.push(outcomes@[i as int]));
            lemma_count_one_more(counted, outcomes@[i as int]);
        }
        counters.record(outcomes[i]);
        i = i + 1;
    }
    proof {
        assert(outcomes@.take(i as int) =~= outcomes@);
    }
    counters
}

/// Counters that count the same outcomes are the same.
pub proof fn lemma_counts_once(first: RunCounters, second: RunCounters, outcomes: Seq<Outcome>)
    requires
        first.counts(outcomes),
        second.counts(outcomes),
    ensures
        first == second,
        first.sorted_total() == sorted_in_all(outcomes),
{
    assert(first.sorted_total() == second.sorted_total());
}

} // verus!
