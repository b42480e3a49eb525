use std::path::Path;

use file_organizer::destination::candidate_name;
use file_organizer::filename::{file_extension, file_extension_lowercase, file_stem, file_suffix};

const NAMES: [&str; 24] = [
    "a.jpg",
    "b.JPG",
    "report.PDF",
    "notes",
    "archive.zip",
    "archive.tar.gz",
    ".profile",
    ".config.json",
    "notes.",
    "a.b.c.d",
    "x",
    "x.",
    ".x",
    ".x.",
    "...",
    "a..b",
    "name with spaces.txt",
    "UPPER.TXT",
    "été.JPEG",
    "плёнка.МР4",
    "no_extension_",
    "trailing.dot.",
    "7z.7z",
    "_",
];

fn std_extension(name: &str) -> Option<&str> {
    Path::new(name).extension().and_then(|extension| extension.to_str())
}

fn begins_with_its_only_dot(name: &str) -> bool {
    name.starts_with('.') && !name[1..].contains('.')
}

fn std_stem(name: &str) -> &str {
    Path::new(name).file_stem().and_then(|stem| stem.to_str()).unwrap_or("")
}

#[test]
fn extension_agrees_with_std_paths_except_behind_a_leading_dot() {
    for name in NAMES {
        if begins_with_its_only_dot(name) {
            assert_eq!(std_extension(name), None, "{}", name);
            assert_eq!(file_extension(name), Some(&name[1..]), "{}", name);
        } else {
            assert_eq!(file_extension(name), std_extension(name), "{}", name);
        }
    }
}

#[test]
fn stem_for_numbering_agrees_with_std_paths() {
    for name in NAMES {
        assert_eq!(file_stem(name), std_stem(name), "{}", name);
    }
}

#[test]
fn suffix_for_numbering_is_the_dotted_std_extension() {
    for name in NAMES {
        let expected = match std_extension(name) {
            Some(extension) => format!(".{}", extension),
            None => String::new(),
        };
        assert_eq!(file_suffix(name), expected, "{}", name);
    }
}

#[test]
fn lowercase_extension_is_the_lowercase_of_what_follows_the_last_dot() {
    for name in NAMES {
        let expected = match name.rfind('.') {
            Some(at) => name[at + 1..].to_lowercase(),
            None => String::new(),
        };
        assert_eq!(file_extension_lowercase(name), expected, "{}", name);
    }
}

#[test]
fn numbered_candidates_are_stem_number_and_dotted_extension() {
    for name in NAMES {
        let dotted = match std_extension(name) {
            Some(extension) => format!(".{}", extension),
            None => String::new(),
        };
        for attempt in [1usize, 2, 9, 10, 11, 99, 100, 12345] {
            let expected = format!("{}_{}{}", std_stem(name), attempt, dotted);
            assert_eq!(candidate_name(name, attempt), expected, "{} at {}", name, attempt);
        }
    }
}
