use file_organizer::category::{build_category_map, Category, CategoryEntry, CategoryTable};
use file_organizer::counters::{tally, Outcome, RunCounters};
use file_organizer::walk::{conclude, organize, plan_entry, Entry, Step, Visit};

fn file(name: &str) -> Entry {
    Entry::File { name: name.to_string() }
}

fn mixed_folder() -> Vec<Entry> {
    vec![
        file("a.jpg"),
        file("b.JPG"),
        file("report.PDF"),
        file("notes"),
        file("archive.zip"),
        Entry::Directory,
    ]
}

fn visits(entries: Vec<Entry>, copied: bool) -> Vec<Visit> {
    entries.into_iter().map(|entry| Visit { entry, copied }).collect()
}

fn longer_folder() -> Vec<Entry> {
    let mut entries = mixed_folder();
    entries.push(Entry::Symlink);
    entries.push(Entry::Unreadable);
    entries.push(file("movie.mkv"));
    entries
}

fn category_sum(counters: &RunCounters) -> usize {
    counters.images
        + counters.documents
        + counters.videos
        + counters.audio
        + counters.archives
        + counters.code
        + counters.others
}

#[test]
fn folders_and_links_are_skipped() {
    let table = build_category_map();
    assert_eq!(plan_entry(&Entry::Directory, &table, false), Step::Skip);
    assert_eq!(plan_entry(&Entry::Directory, &table, true), Step::Skip);
    assert_eq!(plan_entry(&Entry::Symlink, &table, false), Step::Skip);
    assert_eq!(plan_entry(&Entry::Symlink, &table, true), Step::Skip);
}

#[test]
fn unreadable_entries_are_errors() {
    let table = build_category_map();
    assert_eq!(plan_entry(&Entry::Unreadable, &table, false), Step::CountError);
    assert_eq!(plan_entry(&Entry::Unreadable, &table, true), Step::CountError);
}

#[test]
fn files_are_copied_in_a_real_run() {
    let table = build_category_map();
    assert_eq!(plan_entry(&file("a.jpg"), &table, false), Step::Copy(Category::Images));
    assert_eq!(plan_entry(&file("notes"), &table, false), Step::Copy(Category::Others));
    assert_eq!(plan_entry(&file("x.RS"), &table, false), Step::Copy(Category::Code));
}

#[test]
fn files_are_announced_in_a_dry_run() {
    let table = build_category_map();
    assert_eq!(plan_entry(&file("a.jpg"), &table, true), Step::Announce(Category::Images));
    assert_eq!(plan_entry(&file("notes"), &table, true), Step::Announce(Category::Others));
}

#[test]
fn steps_follow_the_table_that_is_given() {
    let table = CategoryTable {
        entries: vec![CategoryEntry { category: Category::Audio, extensions: vec!["jpg"] }],
    };
    assert_eq!(plan_entry(&file("a.JPG"), &table, false), Step::Copy(Category::Audio));
    assert_eq!(plan_entry(&file("a.png"), &table, true), Step::Announce(Category::Others));
}

#[test]
fn dry_run_never_copies() {
    let table = build_category_map();
    let mut entries = mixed_folder();
    entries.push(Entry::Symlink);
    entries.push(Entry::Unreadable);
    for entry in &entries {
        assert!(!matches!(plan_entry(entry, &table, true), Step::Copy(_)));
    }
}

#[test]
fn outcome_of_each_step() {
    assert_eq!(conclude(Step::Skip, true), Outcome::Ignored);
    assert_eq!(conclude(Step::Skip, false), Outcome::Ignored);
    assert_eq!(conclude(Step::CountError, true), Outcome::Failed);
    assert_eq!(conclude(Step::CountError, false), Outcome::Failed);
    assert_eq!(conclude(Step::Announce(Category::Audio), true), Outcome::Sorted(Category::Audio));
    assert_eq!(conclude(Step::Announce(Category::Audio), false), Outcome::Sorted(Category::Audio));
    assert_eq!(conclude(Step::Copy(Category::Videos), true), Outcome::Sorted(Category::Videos));
    assert_eq!(conclude(Step::Copy(Category::Videos), false), Outcome::Failed);
}

#[test]
fn mixed_folder_is_counted_by_category() {
    let table = build_category_map();
    let counters = organize(&visits(mixed_folder(), true), &table, false);
    assert_eq!(
        counters,
        RunCounters {
            images: 2,
            documents: 1,
            videos: 0,
            audio: 0,
            archives: 1,
            code: 0,
            others: 1,
            errors: 0,
        }
    );
}

#[test]
fn mixed_folder_is_copied_into_four_folders() {
    let table = build_category_map();
    let mut folders: Vec<&str> = Vec::new();
    let mut skipped = 0;
    for entry in &mixed_folder() {
        match plan_entry(entry, &table, false) {
            Step::Copy(category) => {
                if !folders.contains(&category.name()) {
                    folders.push(category.name());
                }
            }
            Step::Skip => skipped += 1,
            _ => panic!("the folder holds files and one subfolder"),
        }
    }
    assert_eq!(folders, vec!["Images", "Documents", "Others", "Archives"]);
    assert_eq!(skipped, 1);
}

#[test]
fn organize_of_an_empty_folder_counts_nothing() {
    let table = build_category_map();
    assert_eq!(organize(&Vec::new(), &table, false), RunCounters::new());
    assert_eq!(organize(&Vec::new(), &table, true), RunCounters::new());
}

#[test]
fn organize_is_the_tally_of_the_outcomes() {
    let table = build_category_map();
    let mut all = visits(longer_folder(), true);
    all[1].copied = false;
    let mut outcomes: Vec<Outcome> = Vec::new();
    for visit in &all {
        outcomes.push(conclude(plan_entry(&visit.entry, &table, false), visit.copied));
    }
    assert_eq!(organize(&all, &table, false), tally(&outcomes));
}

#[test]
fn dry_run_counts_are_the_same_every_time() {
    let table = build_category_map();
    let first = organize(&visits(mixed_folder(), false), &table, true);
    let second = organize(&visits(mixed_folder(), true), &table, true);
    assert_eq!(first, second);
    assert_eq!(first, organize(&visits(mixed_folder(), true), &table, false));
    let mut mixed = visits(mixed_folder(), true);
    mixed[0].copied = false;
    mixed[4].copied = false;
    assert_eq!(first, organize(&mixed, &table, true));
}

#[test]
fn category_counters_add_up_to_the_number_of_files() {
    let table = build_category_map();
    for dry_run in [true, false] {
        let counters = organize(&visits(longer_folder(), true), &table, dry_run);
        assert_eq!(category_sum(&counters), 6);
        assert_eq!(counters.errors, 1);
    }
}

#[test]
fn failed_copies_count_as_errors_and_the_run_goes_on() {
    let table = build_category_map();
    let mut all = visits(mixed_folder(), true);
    all[1].copied = false;
    all[3].copied = false;
    let counters = organize(&all, &table, false);
    assert_eq!(counters.count(Category::Images), 1);
    assert_eq!(counters.count(Category::Documents), 1);
    assert_eq!(counters.count(Category::Others), 0);
    assert_eq!(counters.count(Category::Archives), 1);
    assert_eq!(counters.errors, 2);
    assert_eq!(category_sum(&counters) + 2, 5);
}

#[test]
fn failed_copies_do_not_matter_in_a_dry_run() {
    let table = build_category_map();
    let counters = organize(&visits(mixed_folder(), false), &table, true);
    assert_eq!(category_sum(&counters), 5);
    assert_eq!(counters.errors, 0);
}
