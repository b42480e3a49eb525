//! The command line: which folder to organize, whether to only say what
//! would be done, and how a run that cannot start ends.

use vstd::prelude::*;
use vstd::string::*;
use crate::text::same_text;

verus! {

/// What the command line asks for.
#[derive(Debug)]
pub struct Options {
    /// The folder to organize, as it was written.
    pub folder: String,
    /// Whether to report what would be copied and copy nothing.
    pub dry_run: bool,
}

/// Why a run ended before any entry was looked at.
#[derive(Clone, Copy, PartialEq, Eq, Structural, Debug)]
pub enum RunError {
    /// The command line names no folder.
    MissingFolder,
    /// The path does not exist, or is no folder.
    NotADirectory,
    /// The folder could not be listed.
    ListingFailed,
}

/// The name that the program goes by where the command line gives none.
pub open spec fn default_program() -> Seq<char> {
    "file_organizer"@
}

/// Whether `argument` asks for a dry run.
pub open spec fn is_dry_run_flag(argument: Seq<char>) -> bool {
    argument == "--dry-run"@ || argument == "-n"@
}

/// Whether any argument asks for a dry run, wherever it stands.
pub open spec fn asks_dry_run(arguments: Seq<String>) -> bool {
    exists|i: int| 0 <= i < arguments.len() && is_dry_run_flag(#[trigger] arguments[i]@)
}

/// The name under which the program was called: the first argument, or the
/// default name where there is none.
pub fn program_name(arguments: &Vec<String>) -> (name: &str)
    ensures
        name@ == if arguments.len() > 0 {
            arguments[0]@
        } else {
            default_program()
        },
{
    if arguments.len() > 0 {
        arguments[0].as_str()
    } else {
        "file_organizer"
    }
}

/// Reads the command line. The folder is the argument after the program's
/// name; without it there is nothing to do. A dry run is asked for by
/// `--dry-run` or `-n` anywhere on the line.
pub fn parse_args(arguments: &Vec<String>) -> (parsed: Result<Options, RunError>)
    ensures
        match parsed {
            Ok(options) => arguments.len() >= 2 && options.folder@ == arguments[1]@
                && options.dry_run == asks_dry_run(arguments@),
            Err(error) => arguments.len() < 2 && error == RunError::MissingFolder,
        },
{
    if arguments.len() < 2 {
        return Err(RunError::MissingFolder);
    }
    let mut dry_run = false;
    let mut i: usize = 0;
    while i < arguments.len()
        invariant
            i <= arguments.len(),
            dry_run == exists|k: int| 0 <= k < i && is_dry_run_flag(#[trigger] arguments[k]@),
        decreases arguments.len() - i,
    {
        let argument = arguments[i].as_str();
        if same_text(argument, "--dry-run") || same_text(argument, "-n") {
            dry_run = true;
        }
        i = i + 1;
    }
    Ok(Options { folder: arguments[1].clone(), dry_run })
}

/// Checks the folder that is to be scanned: `resolved` is whether its path
/// could be resolved at all, `is_directory` whether what it resolved to is a
/// folder.
pub fn check_scan_root(resolved: bool, is_directory: bool) -> (checked: Result<(), RunError>)
    ensures
        checked == if resolved && is_directory {
            Ok::<(), RunError>(())
        } else {
            Err::<(), RunError>(RunError::NotADirectory)
        },
{
    if resolved && is_directory {
        Ok(())
    } else {
        Err(RunError::NotADirectory)
    }
}

/// The status with which the process ends: zero after a run, one where the
/// run could not start.
pub fn exit_status(run: &Result<(), RunError>) -> (status: i32)
    ensures
        status == if run is Ok {
            0int
        } else {
            1int
        },
{
    match run {
        Ok(_) => 0,
        Err(_) => 1,
    }
}

} // verus!
