//! Traversal decisions: what becomes of one pending path — scanned, recursed
//! into, or skipped — including the fixed exclusion of the tool's own
//! configuration filenames when they are named directly on the command line.

use vstd::prelude::*;
use crate::text::str_eq;

verus! {

/// The two configuration filenames that a direct file argument never scans,
/// so that the invocation configuring this tool does not trip over its own
/// target words.
pub open spec fn is_excluded_config(name: Seq<char>) -> bool {
    name == ".pre-commit-config.yaml"@ || name == ".pre-commit-config.yml"@
}

/// Whether `name` is one of the excluded configuration filenames.
pub fn excluded_config_name(name: &str) -> (r: bool)
    ensures
        r == is_excluded_config(name@),
{
    str_eq(name, ".pre-commit-config.yaml") || str_eq(name, ".pre-commit-config.yml")
}

/// What one pending path turned out to be when the walker looked at it.
#[derive(Clone, Copy, PartialEq, Eq, Structural, Debug)]
pub enum EntryKind {
    File,
    Directory,
    Other,
}

/// What the walker does with one pending path.
#[derive(Clone, Copy, PartialEq, Eq, Structural, Debug)]
pub enum PathAction {
    Include,
    Recurse,
    Skip,
}

/// The traversal decision for one pending path: a regular file is included —
/// unless it was named directly and bears an excluded configuration filename —
/// a directory is recursed into, and anything else (a dangling link, an entry
/// that cannot be examined) is skipped without failing the run.
pub open spec fn entry_action(kind: EntryKind, direct: bool, basename: Seq<char>) -> PathAction {
    match kind {
        EntryKind::File => if direct && is_excluded_config(basename) {
            PathAction::Skip
        } else {
            PathAction::Include
        },
        EntryKind::Directory => PathAction::Recurse,
        EntryKind::Other => PathAction::Skip,
    }
}

/// Decides what to do with one pending path.
pub fn classify_entry(kind: EntryKind, direct: bool, basename: &str) -> (a: PathAction)
    ensures
        a == entry_action(kind, direct, basename@),
{
    match kind {
        EntryKind::File => {
            if direct && excluded_config_name(basename) {
                PathAction::Skip
            } else {
                PathAction::Include
            }
        },
        EntryKind::Directory => PathAction::Recurse,
        EntryKind::Other => PathAction::Skip,
    }
}

/// Law: a directly named file bearing an excluded configuration filename is
/// skipped, while a file of the same name reached through directory recursion
/// is included like any other.
pub proof fn lemma_exclusion_policy(basename: Seq<char>)
    ensures
        is_excluded_config(basename) ==> entry_action(EntryKind::File, true, basename)
            == PathAction::Skip,
        entry_action(EntryKind::File, false, basename) == PathAction::Include,
        !is_excluded_config(basename) ==> entry_action(EntryKind::File, true, basename)
            == PathAction::Include,
{
}

} // verus!
