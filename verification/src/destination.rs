//! Naming a copy so that it lands on no file that is already there.
//!
//! A copy keeps the name of its source. Where that name is taken, the copy
//! is called `stem_1.ext`, then `stem_2.ext`, and so on: the candidates of
//! the name, tried in order until one is free.

use vstd::prelude::*;
use vstd::string::*;
use vstd::set_lib::{lemma_int_range, lemma_len_subset, lemma_map_size, set_int_range};
use vstd::relations::injective_on;
use crate::filename::{
    extension_of, file_stem, file_suffix, lemma_extension_after, lemma_no_extension,
    lemma_stem_end, stem_end, stem_of, suffix_of,
};
use crate::text::{
    decimal, decimal_string, lemma_decimal_digits, lemma_decimal_injective,
    lemma_decimal_round_trip, same_text,
};

verus! {

/// The name tried at attempt `attempt` for a copy of the file called `name`:
/// the name itself at first, then the stem, `_`, the attempt's number and the
/// suffix.
pub open spec fn candidate(name: Seq<char>, attempt: nat) -> Seq<char> {
    if attempt == 0 {
        name
    } else {
        stem_of(name) + seq!['_'] + decimal(attempt) + suffix_of(name)
    }
}

/// Whether `attempt` is the first whose candidate is not among `taken`.
pub open spec fn is_first_free(name: Seq<char>, taken: Set<Seq<char>>, attempt: nat) -> bool {
    &&& !taken.contains(candidate(name, attempt))
    &&& forall|earlier: nat| earlier < attempt ==> taken.contains(candidate(name, earlier))
}

/// The first attempt whose candidate is not among `taken`.
pub open spec fn first_free(name: Seq<char>, taken: Set<Seq<char>>) -> nat {
    choose|attempt: nat| is_first_free(name, taken, attempt)
}

/// The name that a copy of the file called `name` gets in a folder whose
/// names are `taken`: its first candidate that is free.
pub open spec fn destination(name: Seq<char>, taken: Set<Seq<char>>) -> Seq<char> {
    candidate(name, first_free(name, taken))
}

/// The names that a folder listing holds.
pub open spec fn names_in(listing: Seq<String>) -> Set<Seq<char>> {
    listing.map_values(|entry: String| entry@).to_set()
}

/// A name that joins a listing joins its names.
pub proof fn lemma_names_in_push(listing: Seq<String>, entry: String)
    ensures
        names_in(listing.push(entry)) == names_in(listing).insert(entry@),
        names_in(listing).finite(),
{
    let texts = listing.map_values(|entry: String| entry@);
    assert(listing.push(entry).map_values(|entry: String| entry@) =~= texts.push(entry@));
    texts.lemma_push_to_set_commute(entry@);
    texts.lemma_cardinality_of_set();
}

/// Different attempts try different names.
pub proof fn lemma_candidates_differ(name: Seq<char>, a: nat, b: nat)
    requires
        a != b,
    ensures
        candidate(name, a) != candidate(name, b),
{
    lemma_stem_end(name);
    lemma_decimal_round_trip(a);
    lemma_decimal_round_trip(b);
    if a != 0 && b != 0 && candidate(name, a) == candidate(name, b) {
        let from = stem_of(name).len() + 1;
        let upto = from + decimal(a).len();
        assert(candidate(name, a).len() == candidate(name, b).len());
        assert(candidate(name, a).subrange(from as int, upto as int) =~= decimal(a));
        assert(candidate(name, b).subrange(from as int, upto as int) =~= decimal(b));
        lemma_decimal_injective(a, b);
    }
}

/// A numbered candidate keeps the suffix of the name: the number goes to the
/// end of the stem. With the suffix it keeps the extension; so does a name
/// without any `.`, which stays without. Only a name that is all stem behind
/// a leading `.` (`.env`) has the number after its last `.`, and so in the
/// extension of its copies.
pub proof fn lemma_candidate_keeps_suffix(name: Seq<char>, attempt: nat)
    requires
        attempt > 0,
    ensures
        suffix_of(candidate(name, attempt)) == suffix_of(name),
        stem_of(candidate(name, attempt)) == stem_of(name) + seq!['_'] + decimal(attempt),
        extension_of(candidate(name, attempt)) == if suffix_of(name).len() > 0 || extension_of(
            name,
        ) is None {
            extension_of(name)
        } else {
            Some(extension_of(name)->0 + seq!['_'] + decimal(attempt))
        },
{
    let numbered = candidate(name, attempt);
    let stem = stem_of(name) + seq!['_'] + decimal(attempt);
    lemma_stem_end(name);
    lemma_stem_end(numbered);
    lemma_no_extension(name);
    lemma_no_extension(numbered);
    lemma_decimal_digits(attempt);
    numbered.index_of_last_ensures('.');
    assert(numbered =~= stem + suffix_of(name));
    if suffix_of(name).len() > 0 {
        // The dot of the suffix is still the last one.
        assert(numbered[stem.len() as int] == '.');
        assert forall|j: int| stem.len() < j < numbered.len() implies numbered[j] != '.' by {
            assert(numbered[j] == name[j - stem.len() + stem_end(name)]);
        }
        assert(stem_end(numbered) == stem.len());
        assert(extension_of(numbered)->0 =~= extension_of(name)->0);
    } else {
        // No dot stood past the first character, and none has come.
        assert forall|j: int| 0 < j < numbered.len() implies numbered[j] != '.' by {
            if j < name.len() {
                assert(numbered[j] == name[j]);
            } else if j > name.len() {
                assert(numbered[j] == decimal(attempt)[j - name.len() - 1]);
            }
        }
        assert(stem_end(numbered) == numbered.len());
        if extension_of(name) is Some {
            // The one dot is the first character, of the name and of its copy.
            name.index_of_last_ensures('.');
            assert(name[0] == '.');
            assert(numbered[0] == '.');
            lemma_extension_after(name, 0);
            lemma_extension_after(numbered, 0);
            assert(extension_of(numbered)->0 =~= extension_of(name)->0 + seq!['_'] + decimal(
                attempt,
            ));
        } else {
            assert(numbered[0] != '.') by {
                if name.len() > 0 {
                    assert(numbered[0] == name[0]);
                }
            }
        }
    }
    assert(suffix_of(numbered) =~= suffix_of(name));
    assert(stem_of(numbered) =~= stem);
}

/// Among the first candidates, one more than there are taken names, one is
/// free.
pub proof fn lemma_some_candidate_free(name: Seq<char>, taken: Set<Seq<char>>)
    requires
        taken.finite(),
    ensures
        exists|attempt: nat| attempt <= taken.len() && !taken.contains(candidate(name, attempt)),
{
    if forall|attempt: nat| attempt <= taken.len() ==> taken.contains(candidate(name, attempt)) {
        let bound = taken.len() as int + 1;
        let attempts = set_int_range(0, bound);
        let tried = |attempt: int| candidate(name, attempt as nat);
        let names = attempts.map(tried);
        lemma_int_range(0, bound);
        assert(injective_on(tried, attempts)) by {
            assert forall|a: int, b: int|
                attempts.contains(a) && attempts.contains(b) && #[trigger] tried(a)
                    == #[trigger] tried(b) implies a == b by {
                if a != b {
                    lemma_candidates_differ(name, a as nat, b as nat);
                }
            }
        }
        lemma_map_size(attempts, names, tried);
        assert(names.subset_of(taken)) by {
            assert forall|text: Seq<char>| names.contains(text) implies taken.contains(text) by {
                let attempt = choose|attempt: int|
                    attempts.contains(attempt) && tried(attempt) == text;
                assert(taken.contains(candidate(name, attempt as nat)));
            }
        }
        lemma_len_subset(names, taken);
    }
}

/// Below a free attempt there is a first free one.
proof fn lemma_first_free_below(name: Seq<char>, taken: Set<Seq<char>>, free: nat)
    requires
        !taken.contains(candidate(name, free)),
    ensures
        exists|attempt: nat| attempt <= free && is_first_free(name, taken, attempt),
    decreases free,
{
    if is_first_free(name, taken, free) {
    } else {
        let earlier = choose|earlier: nat|
            earlier < free && !taken.contains(candidate(name, earlier));
        lemma_first_free_below(name, taken, earlier);
    }
}

/// In a folder of finitely many names the search always ends: the first free
/// attempt exists, there is only one, and it comes after at most as many
/// attempts as there are names.
pub proof fn lemma_first_free(name: Seq<char>, taken: Set<Seq<char>>)
    requires
        taken.finite(),
    ensures
        is_first_free(name, taken, first_free(name, taken)),
        first_free(name, taken) <= taken.len(),
        forall|attempt: nat|
            is_first_free(name, taken, attempt) ==> attempt == first_free(name, taken),
{
    lemma_some_candidate_free(name, taken);
    let free = choose|attempt: nat|
        attempt <= taken.len() && !taken.contains(candidate(name, attempt));
    lemma_first_free_below(name, taken, free);
}

/// The destination is free, and it is the source's own name wherever that
/// name is free.
pub proof fn lemma_destination(name: Seq<char>, taken: Set<Seq<char>>)
    requires
        taken.finite(),
    ensures
        !taken.contains(destination(name, taken)),
        !taken.contains(name) ==> destination(name, taken) == name,
{
    lemma_first_free(name, taken);
    if !taken.contains(name) {
        assert(is_first_free(name, taken, 0));
    }
}

/// The names that `copies` copies of the file called `name` get, one after
/// the other, in a folder whose names are `taken` at first and in which each
/// copy takes its name before the next is named.
pub open spec fn placements(name: Seq<char>, taken: Set<Seq<char>>, copies: nat) -> Seq<Seq<char>>
    decreases copies,
{
    if copies == 0 {
        Seq::empty()
    } else {
        let first = destination(name, taken);
        seq![first] + placements(name, taken.insert(first), (copies - 1) as nat)
    }
}

/// Copies never collide: however many files of one name arrive in a folder,
/// each gets a name that was not in the folder before, and no two get the
/// same.
pub proof fn lemma_placements_never_collide(name: Seq<char>, taken: Set<Seq<char>>, copies: nat)
    requires
        taken.finite(),
    ensures
        placements(name, taken, copies).len() == copies,
        forall|i: int|
            0 <= i < copies ==> !taken.contains(#[trigger] placements(name, taken, copies)[i]),
        forall|i: int, j: int|
            0 <= i < j < copies ==> placements(name, taken, copies)[i] != placements(
                name,
                taken,
                copies,
            )[j],
    decreases copies,
{
    if copies > 0 {
        // The first copy takes a free name; the others meet a folder that holds it.
        let first = destination(name, taken);
        lemma_destination(name, taken);
        lemma_placements_never_collide(name, taken.insert(first), (copies - 1) as nat);
    }
}

/// Writes the candidate of `name` at attempt `attempt`.
pub fn candidate_name(name: &str, attempt: usize) -> (text: String)
    ensures
        text@ == candidate(name@, attempt as nat),
{
    if attempt == 0 {
        String::from_str(name)
    } else {
        let mut text = String::from_str(file_stem(name));
        proof {
            reveal_strlit("_");
        }
        text.append("_");
        text.append(decimal_string(attempt).as_str());
        text.append(file_suffix(name));
        text
    }
}

/// Whether `name` is among the names of `listing`.
pub fn is_listed(listing: &Vec<String>, name: &str) -> (found: bool)
    ensures
        found == names_in(listing@).contains(name@),
{
    let ghost names = listing@.map_values(|entry: String| entry@);
    let mut i: usize = 0;
    while i < listing.len()
        invariant
            i <= listing.len(),
            names == listing@.map_values(|entry: String| entry@),
            forall|k: int| 0 <= k < i ==> names[k] != name@,
        decreases listing.len() - i,
    {
        if same_text(listing[i].as_str(), name) {
            assert(names[i as int] == name@);
            return true;
        }
        i = i + 1;
    }
    false
}

/// The search for a free name, between two looks at the folder: the file
/// that is being copied and the attempt that is to be tried next.
#[derive(Debug)]
pub struct Probe {
    pub name: String,
    pub attempt: usize,
}

/// What follows from one look at the folder.
#[derive(Debug)]
pub enum Verdict {
    /// The candidate is free: the copy gets this name.
    Use(String),
    /// The candidate is taken: look for the next one.
    Try(Probe),
    /// The candidate is taken and no attempt is left.
    GiveUp,
}

impl Probe {
    /// Begins the search for a copy of the file called `name`, at its own
    /// name.
    pub fn new(name: &str) -> (probe: Probe)
        ensures
            probe.name@ == name@,
            probe.attempt == 0,
    {
        Probe { name: String::from_str(name), attempt: 0 }
    }

    /// The name to look for in the folder.
    pub fn candidate(&self) -> (text: String)
        ensures
            text@ == candidate(self.name@, self.attempt as nat),
    {
        candidate_name(self.name.as_str(), self.attempt)
    }

    /// Takes the search one step on, `taken` being whether the folder holds
    /// the probe's candidate. A free candidate is used; after a taken one the
    /// next attempt follows, as long as attempts can be numbered.
    pub fn settle(self, taken: bool) -> (verdict: Verdict)
        ensures
            match verdict {
                Verdict::Use(text) => !taken && text@ == candidate(
                    self.name@,
                    self.attempt as nat,
                ),
                Verdict::Try(next) => taken && next.name@ == self.name@ && next.attempt
                    == self.attempt + 1,
                Verdict::GiveUp => taken && self.attempt == usize::MAX,
            },
    {
        if !taken {
            Verdict::Use(self.candidate())
        } else if self.attempt < usize::MAX {
            Verdict::Try(Probe { name: self.name, attempt: self.attempt + 1 })
        } else {
            Verdict::GiveUp
        }
    }
}

/// Names the copy of the file called `name` for a folder that holds the
/// names in `taken`: the first candidate of `name` that is not among them.
pub fn resolve_destination(name: &str, taken: &Vec<String>) -> (text: String)
    ensures
        text@ == destination(name@, names_in(taken@)),
        !names_in(taken@).contains(text@),
        !names_in(taken@).contains(name@) ==> text@ == name@,
{
    let ghost names = names_in(taken@);
    proof {
        taken@.map_values(|entry: String| entry@).lemma_cardinality_of_set();
    }
    let mut probe = Probe::new(name);
    loop
        invariant
            names == names_in(taken@),
            names.finite(),
            names.len() <= taken.len(),
            probe.name@ == name@,
            forall|earlier: nat|
                earlier < probe.attempt ==> names.contains(candidate(name@, earlier)),
        decreases taken.len() - probe.attempt,
    {
        let tried = probe.candidate();
        let found = is_listed(taken, tried.as_str());
        proof {
            lemma_first_free(name@, names);
            lemma_destination(name@, names);
        }
        match probe.settle(found) {
            Verdict::Use(text) => {
                return text;
            },
            Verdict::Try(next) => {
                probe = next;
            },
            Verdict::GiveUp => {
                // A listing cannot hold every candidate.
                return unreached();
            },
        }
    }
}

} // verus!
