//! The decisions of extracting FB2 books from ZIP archives.

use vstd::prelude::*;

use crate::text::{chars_of, lowercase_text, str_to_lowercase};

verus! {

/// Whether `s` ends with `suffix`.
pub open spec fn ends_with(s: Seq<char>, suffix: Seq<char>) -> bool {
    suffix.len() <= s.len() && s.subrange(s.len() - suffix.len(), s.len() as int) == suffix
}

/// Whether `s` ends with `suffix`.
pub fn text_ends_with(s: &str, suffix: &str) -> (r: bool)
    ensures
        r == ends_with(s@, suffix@),
{
    let a = chars_of(s);
    let b = chars_of(suffix);
    if b.len() > a.len() {
        return false;
    }
    let off = a.len() - b.len();
    let mut i: usize = 0;
    while i < b.len()
        invariant
            i <= b.len(),
            off + b.len() == a.len(),
            a@ == s@,
            b@ == suffix@,
            forall|j: int| 0 <= j < i ==> a@[off + j] == b@[j],
        decreases b.len() - i,
    {
        let (x, y) = (a[off + i], b[i]);
        if x != y {
            assert(s@.subrange(s@.len() - suffix@.len(), s@.len() as int)[i as int] != suffix@[i as int]);
            return false;
        }
        i += 1;
    }
    assert(s@.subrange(s@.len() - suffix@.len(), s@.len() as int) =~= suffix@);
    true
}

/// Whether an archive entry named `basename` is an FB2 book: its lowercase
/// name ends with `.fb2`.
pub fn is_fb2_name(basename: &str) -> (r: bool)
    ensures
        r == ends_with(lowercase_text(basename@), ".fb2"@),
{
    let lower = str_to_lowercase(basename);
    text_ends_with(lower.as_str(), ".fb2")
}

/// What is done with an archive entry.
#[derive(Clone, Copy, Debug, PartialEq, Eq, Structural)]
pub enum EntryAction {
    /// Not an FB2 book: left alone.
    NotFb2,
    /// The target file exists and overwriting was not asked for.
    SkipExisting,
    /// A dry run: nothing is written.
    DryRun,
    /// The entry is written to the target directory.
    Extract,
}

/// What to do with an archive entry.
pub open spec fn spec_entry_action(basename: Seq<char>, target_exists: bool, force: bool, dry_run: bool) -> EntryAction {
    if !ends_with(lowercase_text(basename), ".fb2"@) {
        EntryAction::NotFb2
    } else if target_exists && !force {
        EntryAction::SkipExisting
    } else if dry_run {
        EntryAction::DryRun
    } else {
        EntryAction::Extract
    }
}

/// Decides what to do with the archive entry named `basename`, whose target
/// file exists when `target_exists` holds (see [`spec_entry_action`]).
pub fn entry_action(basename: &str, target_exists: bool, force: bool, dry_run: bool) -> (r: EntryAction)
    ensures
        r == spec_entry_action(basename@, target_exists, force, dry_run),
{
    if !is_fb2_name(basename) {
        EntryAction::NotFb2
    } else if target_exists && !force {
        EntryAction::SkipExisting
    } else if dry_run {
        EntryAction::DryRun
    } else {
        EntryAction::Extract
    }
}

/// The FB2 test of an archive entry ignores letter case: two names with the
/// same lowercase form get the same action, and an entry is left alone
/// exactly when its lowercase name does not end with `.fb2`.
pub proof fn law_entry_test_ignores_case(a: Seq<char>, b: Seq<char>, target_exists: bool, force: bool, dry_run: bool)
    requires
        lowercase_text(a) == lowercase_text(b),
    ensures
        spec_entry_action(a, target_exists, force, dry_run) == spec_entry_action(b, target_exists, force, dry_run),
        (spec_entry_action(a, target_exists, force, dry_run) == EntryAction::NotFb2) == !ends_with(
            lowercase_text(a),
            ".fb2"@,
        ),
{
}

/// An FB2 entry is written exactly when its target is free or may be
/// overwritten and the run is not a dry run; an existing target without
/// `force` is skipped; a dry run writes nothing.
pub proof fn law_entry_written_only_when_allowed(name: Seq<char>, target_exists: bool, force: bool, dry_run: bool)
    requires
        ends_with(lowercase_text(name), ".fb2"@),
    ensures
        (spec_entry_action(name, target_exists, force, dry_run) == EntryAction::Extract) == ((!target_exists || force)
            && !dry_run),
        (spec_entry_action(name, target_exists, force, dry_run) == EntryAction::SkipExisting) == (target_exists
            && !force),
        (spec_entry_action(name, target_exists, force, dry_run) == EntryAction::DryRun) == ((!target_exists || force)
            && dry_run),
{
}

} // verus!
