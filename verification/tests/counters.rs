use file_organizer::category::Category;
use file_organizer::counters::{tally, Outcome, RunCounters};

const CATEGORIES: [Category; 7] = [
    Category::Images,
    Category::Documents,
    Category::Videos,
    Category::Audio,
    Category::Archives,
    Category::Code,
    Category::Others,
];

#[test]
fn new_counters_are_zero() {
    let counters = RunCounters::new();
    for category in CATEGORIES {
        assert_eq!(counters.count(category), 0);
    }
    assert_eq!(counters.errors, 0);
}

#[test]
fn record_raises_the_counter_of_the_category() {
    for category in CATEGORIES {
        let mut counters = RunCounters::new();
        counters.record(Outcome::Sorted(category));
        counters.record(Outcome::Sorted(category));
        for other in CATEGORIES {
            assert_eq!(counters.count(other), if other == category { 2 } else { 0 });
        }
        assert_eq!(counters.errors, 0);
    }
}

#[test]
fn record_raises_the_errors() {
    let mut counters = RunCounters::new();
    counters.record(Outcome::Failed);
    assert_eq!(counters.errors, 1);
    for category in CATEGORIES {
        assert_eq!(counters.count(category), 0);
    }
}

#[test]
fn record_ignores_what_was_skipped() {
    let mut counters = RunCounters::new();
    counters.record(Outcome::Sorted(Category::Code));
    let before = counters;
    counters.record(Outcome::Ignored);
    assert_eq!(counters, before);
}

#[test]
fn count_reads_each_field() {
    let counters = RunCounters {
        images: 1,
        documents: 2,
        videos: 3,
        audio: 4,
        archives: 5,
        code: 6,
        others: 7,
        errors: 8,
    };
    assert_eq!(counters.count(Category::Images), 1);
    assert_eq!(counters.count(Category::Documents), 2);
    assert_eq!(counters.count(Category::Videos), 3);
    assert_eq!(counters.count(Category::Audio), 4);
    assert_eq!(counters.count(Category::Archives), 5);
    assert_eq!(counters.count(Category::Code), 6);
    assert_eq!(counters.count(Category::Others), 7);
}

#[test]
fn tally_of_nothing_is_zero() {
    assert_eq!(tally(&Vec::new()), RunCounters::new());
}

#[test]
fn tally_counts_each_outcome_once() {
    let outcomes = vec![
        Outcome::Sorted(Category::Images),
        Outcome::Ignored,
        Outcome::Failed,
        Outcome::Sorted(Category::Code),
        Outcome::Sorted(Category::Images),
        Outcome::Failed,
        Outcome::Sorted(Category::Others),
        Outcome::Ignored,
    ];
    let counters = tally(&outcomes);
    assert_eq!(
        counters,
        RunCounters {
            images: 2,
            documents: 0,
            videos: 0,
            audio: 0,
            archives: 0,
            code: 1,
            others: 1,
            errors: 2,
        }
    );
}

#[test]
fn tally_is_what_recording_one_by_one_gives() {
    let outcomes = vec![
        Outcome::Sorted(Category::Audio),
        Outcome::Failed,
        Outcome::Sorted(Category::Videos),
        Outcome::Sorted(Category::Audio),
    ];
    let mut counters = RunCounters::new();
    for outcome in &outcomes {
        counters.record(*outcome);
    }
    assert_eq!(tally(&outcomes), counters);
}
