//! File names: their extension, and where a number goes when a copy has to
//! be renamed.
//!
//! The extension of a name is what follows its last `.`, wherever that `.`
//! stands: `json` for `data.json` and for `.json` alike. A name without a
//! `.` has none.
//!
//! For renaming, a name divides into a stem and a suffix, and the number is
//! put between them. The suffix begins at the last `.`, unless that `.` is
//! the first character of the name: a name such as `.env` is all stem, so
//! that its copies are called `.env_1`, `.env_2`, and keep their leading dot.

use vstd::prelude::*;
use vstd::string::*;
use crate::text::{lowercase, lowercase_of};

verus! {

/// The extension of `name`: what follows its last `.`, be it nothing
/// (`"notes."`); none where `name` has no `.`.
pub open spec fn extension_of(name: Seq<char>) -> Option<Seq<char>> {
    match name.index_of_last('.') {
        Some(i) => Some(name.subrange(i + 1, name.len() as int)),
        None => None,
    }
}

/// The extension of `name` in lowercase; empty where `name` has none.
pub open spec fn lowercase_extension_of(name: Seq<char>) -> Seq<char> {
    match extension_of(name) {
        Some(extension) => lowercase_of(extension),
        None => Seq::empty(),
    }
}

/// The index at which `name` divides into stem and suffix when a copy is
/// numbered: that of its last `.` if there is one past the first character,
/// else the length of `name`.
pub open spec fn stem_end(name: Seq<char>) -> int {
    match name.index_of_last('.') {
        Some(i) => if i > 0 {
            i
        } else {
            name.len() as int
        },
        None => name.len() as int,
    }
}

/// The part of `name` that a copy's number follows.
pub open spec fn stem_of(name: Seq<char>) -> Seq<char> {
    name.subrange(0, stem_end(name))
}

/// The part of `name` that follows a copy's number: empty, or a `.` and the
/// extension.
pub open spec fn suffix_of(name: Seq<char>) -> Seq<char> {
    name.subrange(stem_end(name), name.len() as int)
}

/// A name whose last `.` stands at `i` has what follows `i` for its
/// extension.
pub proof fn lemma_extension_after(name: Seq<char>, i: int)
    requires
        0 <= i < name.len(),
        name[i] == '.',
        forall|j: int| i < j < name.len() ==> name[j] != '.',
    ensures
        extension_of(name) == Some(name.subrange(i + 1, name.len() as int)),
{
    name.index_of_last_ensures('.');
}

/// A name has no extension exactly where it has no `.`.
pub proof fn lemma_no_extension(name: Seq<char>)
    ensures
        extension_of(name) is None <==> forall|j: int| 0 <= j < name.len() ==> name[j] != '.',
{
    name.index_of_last_ensures('.');
}

/// What the division into stem and suffix is, said without reference to how
/// it is found.
pub proof fn lemma_stem_end(name: Seq<char>)
    ensures
        0 <= stem_end(name) <= name.len(),
        stem_end(name) < name.len() ==> stem_end(name) > 0 && name[stem_end(name)] == '.',
        forall|j: int| stem_end(name) < j < name.len() ==> name[j] != '.',
        stem_end(name) == name.len() ==> forall|j: int| 0 < j < name.len() ==> name[j] != '.',
        stem_of(name) + suffix_of(name) == name,
        stem_end(name) < name.len() ==> extension_of(name) is Some && suffix_of(name) == seq!['.']
            + extension_of(name)->0,
{
    name.index_of_last_ensures('.');
}

/// Finds the last `.` of `name`, counted in characters.
pub fn last_dot(name: &str) -> (found: Option<usize>)
    ensures
        match found {
            Some(i) => name@.index_of_last('.') == Some(i as int),
            None => name@.index_of_last('.') is None,
        },
{
    let len = name.unicode_len();
    let mut last: Option<usize> = None;
    let mut i: usize = 0;
    for c in chars: name.chars()
        invariant
            i == chars.index(),
            chars.seq() == name@,
            len == name@.len(),
            match last {
                Some(k) => k < i && name@[k as int] == '.' && forall|j: int|
                    k < j < i ==> name@[j] != '.',
                None => forall|j: int| 0 <= j < i ==> name@[j] != '.',
            },
    {
        if c == '.' {
            last = Some(i);
        }
        i = i + 1;
    }
    proof {
        name@.index_of_last_ensures('.');
    }
    last
}

/// Finds where `name` divides into stem and suffix.
pub fn stem_length(name: &str) -> (length: usize)
    ensures
        length == stem_end(name@),
{
    match last_dot(name) {
        Some(i) => if i > 0 {
            i
        } else {
            name.unicode_len()
        },
        None => name.unicode_len(),
    }
}

/// The stem of a file name: `"report"` of `"report.pdf"`, and all of
/// `".env"`.
pub fn file_stem(name: &str) -> (stem: &str)
    ensures
        stem@ == stem_of(name@),
{
    let end = stem_length(name);
    proof {
        lemma_stem_end(name@);
    }
    name.substring_char(0, end)
}

/// The suffix of a file name, dot included: `".pdf"` of `"report.pdf"`,
/// empty for `"notes"` and for `".env"`.
pub fn file_suffix(name: &str) -> (suffix: &str)
    ensures
        suffix@ == suffix_of(name@),
{
    let end = stem_length(name);
    let len = name.unicode_len();
    proof {
        lemma_stem_end(name@);
    }
    name.substring_char(end, len)
}

/// The extension of a file name as it is written: `"PDF"` of `"report.PDF"`,
/// `"json"` of `".json"`, nothing where the name has no `.`.
pub fn file_extension(name: &str) -> (extension: Option<&str>)
    ensures
        match extension {
            Some(written) => extension_of(name@) == Some(written@),
            None => extension_of(name@) is None,
        },
{
    match last_dot(name) {
        Some(i) => {
            let len = name.unicode_len();
            proof {
                name@.index_of_last_ensures('.');
            }
            Some(name.substring_char(i + 1, len))
        },
        None => None,
    }
}

/// The extension of a file name in lowercase, the form in which categories
/// list extensions; empty where the name has none.
pub fn file_extension_lowercase(name: &str) -> (extension: String)
    ensures
        extension@ == lowercase_extension_of(name@),
{
    match file_extension(name) {
        Some(written) => lowercase(written),
        None => String::new(),
    }
}

} // verus!
