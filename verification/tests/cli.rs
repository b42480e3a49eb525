use file_organizer::cli::{check_scan_root, exit_status, parse_args, program_name, RunError};

fn line(words: &[&str]) -> Vec<String> {
    words.iter().map(|word| word.to_string()).collect()
}

#[test]
fn missing_folder_is_an_error() {
    assert!(matches!(parse_args(&line(&["organizer"])), Err(RunError::MissingFolder)));
    assert!(matches!(parse_args(&Vec::new()), Err(RunError::MissingFolder)));
}

#[test]
fn folder_alone_asks_for_a_real_run() {
    let options = parse_args(&line(&["organizer", "/tmp/downloads"])).unwrap();
    assert_eq!(options.folder, "/tmp/downloads");
    assert!(!options.dry_run);
}

#[test]
fn dry_run_flags_are_recognised() {
    let long = parse_args(&line(&["organizer", "downloads", "--dry-run"])).unwrap();
    assert_eq!(long.folder, "downloads");
    assert!(long.dry_run);
    let short = parse_args(&line(&["organizer", "downloads", "-n"])).unwrap();
    assert_eq!(short.folder, "downloads");
    assert!(short.dry_run);
}

#[test]
fn other_flags_are_not_a_dry_run() {
    let options = parse_args(&line(&["organizer", "downloads", "--dry", "-N", "n"])).unwrap();
    assert!(!options.dry_run);
}

#[test]
fn dry_run_flag_counts_wherever_it_stands() {
    let late = parse_args(&line(&["organizer", "downloads", "x", "y", "-n"])).unwrap();
    assert!(late.dry_run);
    let early = parse_args(&line(&["organizer", "-n", "downloads"])).unwrap();
    assert_eq!(early.folder, "-n");
    assert!(early.dry_run);
}

#[test]
fn program_name_is_the_first_argument() {
    assert_eq!(program_name(&line(&["./organizer", "x"])), "./organizer");
    assert_eq!(program_name(&Vec::new()), "file_organizer");
}

#[test]
fn scan_root_must_exist_and_be_a_folder() {
    assert_eq!(check_scan_root(true, true), Ok(()));
    assert_eq!(check_scan_root(true, false), Err(RunError::NotADirectory));
    assert_eq!(check_scan_root(false, false), Err(RunError::NotADirectory));
    assert_eq!(check_scan_root(false, true), Err(RunError::NotADirectory));
}

#[test]
fn exit_status_is_zero_after_a_run_and_one_otherwise() {
    assert_eq!(exit_status(&Ok(())), 0);
    assert_eq!(exit_status(&Err(RunError::MissingFolder)), 1);
    assert_eq!(exit_status(&Err(RunError::NotADirectory)), 1);
    assert_eq!(exit_status(&Err(RunError::ListingFailed)), 1);
}

#[test]
fn path_that_does_not_exist_ends_with_status_one() {
    let options = parse_args(&line(&["organizer", "/no/such/folder"])).unwrap();
    assert_eq!(options.folder, "/no/such/folder");
    let checked = check_scan_root(false, false);
    assert_eq!(checked, Err(RunError::NotADirectory));
    assert_eq!(exit_status(&checked), 1);
}
