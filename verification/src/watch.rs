//! What the file watcher reports about a batch of debounced changes.
use vstd::prelude::*;

verus! {

/// A change under one of the two watched trees.
#[derive(Debug, Clone, Copy, PartialEq, Eq, Structural)]
pub enum FsEvent {
    /// Something under `specs/` changed.
    SpecsChanged,
    /// Something under `.specify/` changed.
    SpecifyChanged,
}

/// One debounced change as the watcher delivers it: whether it is of the
/// settled kind that counts, and the path it names.
#[derive(Debug)]
pub struct FsChange {
    pub settled: bool,
    pub path: String,
}

/// `Path::starts_with`: whether `base` is a leading run of whole components
/// of `path`. Component splitting is lexical, so the answer depends on the two
/// texts alone.
pub uninterp spec fn path_has_prefix(path: Seq<char>, base: Seq<char>) -> bool;

/// `Path::starts_with` on two paths given as text.
#[verifier::external_body]
fn path_starts_with(path: &str, base: &str) -> (r: bool)
    ensures
        r == path_has_prefix(path@, base@),
{
    std::path::Path::new(path).starts_with(base)
}

/// Whether some settled change in `changes` lies under `base`.
pub open spec fn any_under(changes: Seq<FsChange>, base: Seq<char>) -> bool {
    exists|i: int|
        0 <= i < changes.len() && (#[trigger] changes[i]).settled && path_has_prefix(
            changes[i].path@,
            base,
        )
}

/// The events one batch gives: `SpecsChanged` when a settled change lies
/// under `specs`, then `SpecifyChanged` when one lies under `specify`; each
/// at most once, whatever the number of changes.
pub open spec fn batch_events(changes: Seq<FsChange>, specs: Seq<char>, specify: Seq<char>) -> Seq<
    FsEvent,
> {
    let first: Seq<FsEvent> = if any_under(changes, specs) {
        seq![FsEvent::SpecsChanged]
    } else {
        Seq::empty()
    };
    let second: Seq<FsEvent> = if any_under(changes, specify) {
        seq![FsEvent::SpecifyChanged]
    } else {
        Seq::empty()
    };
    first + second
}

/// Whether some settled change lies under `base`.
fn some_change_under(changes: &Vec<FsChange>, base: &str) -> (r: bool)
    ensures
        r == any_under(changes@, base@),
{
    let mut i: usize = 0;
    while i < changes.len()
        invariant
            i <= changes@.len(),
            forall|k: int|
                0 <= k < i ==> !((#[trigger] changes@[k]).settled && path_has_prefix(
                    changes@[k].path@,
                    base@,
                )),
        decreases changes@.len() - i,
    {
        if changes[i].settled && path_starts_with(changes[i].path.as_str(), base) {
            assert(changes@[i as int].settled && path_has_prefix(changes@[i as int].path@, base@));
            return true;
        }
        i = i + 1;
    }
    false
}

/// The events to send for one batch of debounced changes, given the paths of
/// the `specs/` and `.specify/` directories.
pub fn fs_events(changes: &Vec<FsChange>, specs_dir: &str, specify_dir: &str) -> (r: Vec<FsEvent>)
    ensures
        r@ == batch_events(changes@, specs_dir@, specify_dir@),
{
    let mut r: Vec<FsEvent> = Vec::new();
    if some_change_under(changes, specs_dir) {
        r.push(FsEvent::SpecsChanged);
    }
    if some_change_under(changes, specify_dir) {
        r.push(FsEvent::SpecifyChanged);
    }
    r
}

} // verus!
