use file_organizer::counters::RunCounters;
use file_organizer::report::{report_line, report_lines, LABEL_WIDTH};

#[test]
fn labels_are_filled_to_nine_characters() {
    assert_eq!(LABEL_WIDTH, 9);
}

#[test]
fn report_line_lines_up_short_labels() {
    assert_eq!(report_line("Images", 2), "  - Images    : 2");
    assert_eq!(report_line("Code", 0), "  - Code      : 0");
    assert_eq!(report_line("Errors", 13), "  - Errors    : 13");
}

#[test]
fn report_line_with_a_label_of_full_width() {
    assert_eq!(report_line("Documents", 1), "  - Documents : 1");
}

#[test]
fn report_line_with_a_label_beyond_the_width() {
    assert_eq!(report_line("Spreadsheets", 4), "  - Spreadsheets : 4");
}

#[test]
fn report_of_new_counters_is_all_zero() {
    assert_eq!(
        report_lines(&RunCounters::new()),
        vec![
            "  - Images    : 0",
            "  - Documents : 0",
            "  - Videos    : 0",
            "  - Audio     : 0",
            "  - Archives  : 0",
            "  - Code      : 0",
            "  - Others    : 0",
            "  - Errors    : 0",
        ]
    );
}

#[test]
fn report_keeps_the_fixed_order() {
    let counters = RunCounters {
        images: 2,
        documents: 1,
        videos: 30,
        audio: 4,
        archives: 1,
        code: 600,
        others: 1,
        errors: 8,
    };
    assert_eq!(
        report_lines(&counters),
        vec![
            "  - Images    : 2",
            "  - Documents : 1",
            "  - Videos    : 30",
            "  - Audio     : 4",
            "  - Archives  : 1",
            "  - Code      : 600",
            "  - Others    : 1",
            "  - Errors    : 8",
        ]
    );
}
