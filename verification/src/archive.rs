//! Where the entries of an archive land below the destination directory,
//! and how the failures of an extraction are told apart.

use crate::error::{Error, ErrorKind};
use vstd::prelude::*;

verus! {

/// The byte that separates the components of an entry's path.
pub const SLASH: u8 = 47;

/// The byte of which the components `.` and `..` are made.
pub const DOT: u8 = 46;

/// The component that stands for the directory itself.
pub open spec fn is_current(part: Seq<u8>) -> bool {
    part =~= seq![DOT]
}

/// The component that stands for the directory above.
pub open spec fn is_parent(part: Seq<u8>) -> bool {
    part =~= seq![DOT, DOT]
}

/// A component that names a file or a directory: not empty, without a
/// separator, and neither `.` nor `..`.
pub open spec fn is_plain(part: Seq<u8>) -> bool {
    &&& part.len() > 0
    &&& !part.contains(SLASH)
    &&& !is_current(part)
    &&& !is_parent(part)
}

/// The components of a path: the stretches of bytes between its separators,
/// empty ones included. A path without a separator is one component.
pub open spec fn components(path: Seq<u8>) -> Seq<Seq<u8>>
    decreases path.len(),
{
    if path.len() == 0 {
        seq![Seq::<u8>::empty()]
    } else {
        let before = components(path.drop_last());
        if path.last() == SLASH {
            before.push(Seq::<u8>::empty())
        } else {
            before.drop_last().push(before.last().push(path.last()))
        }
    }
}

/// Follows one component from the place `below`, given as the names that
/// lead to it from the destination. Empty components and `.` stay in place,
/// a name goes one level down, and `..` goes one level up; from the
/// destination itself `..` leads outside, which is `None`.
pub open spec fn follow(below: Seq<Seq<u8>>, part: Seq<u8>) -> Option<Seq<Seq<u8>>> {
    if part.len() == 0 || is_current(part) {
        Some(below)
    } else if is_parent(part) {
        if below.len() == 0 {
            None
        } else {
            Some(below.drop_last())
        }
    } else {
        Some(below.push(part))
    }
}

/// Follows components one after the other from the place `below`. `None`
/// as soon as one of them leads outside the destination.
pub open spec fn follow_all(below: Seq<Seq<u8>>, parts: Seq<Seq<u8>>) -> Option<Seq<Seq<u8>>>
    decreases parts.len(),
{
    if parts.len() == 0 {
        Some(below)
    } else {
        match follow_all(below, parts.drop_last()) {
            Some(place) => follow(place, parts.last()),
            None => None,
        }
    }
}

/// Follows components one after the other, starting at the destination.
pub open spec fn resolve(parts: Seq<Seq<u8>>) -> Option<Seq<Seq<u8>>> {
    follow_all(Seq::empty(), parts)
}

/// The path that names the given components: they are joined by
/// separators.
pub open spec fn join(parts: Seq<Seq<u8>>) -> Seq<u8>
    decreases parts.len(),
{
    if parts.len() == 0 {
        Seq::empty()
    } else if parts.len() == 1 {
        parts[0]
    } else {
        join(parts.drop_last()) + seq![SLASH] + parts.last()
    }
}

/// Where an entry with the given path lands: the names that lead to it from
/// the destination, or `None` where the path leaves the destination on its
/// way. A leading separator is dropped, so that every entry is taken
/// relative to the destination.
pub open spec fn landing(path: Seq<u8>) -> Option<Seq<Seq<u8>>> {
    resolve(components(path))
}

/// The byte strings of a list of buffers, in order.
pub open spec fn names(parts: Seq<Vec<u8>>) -> Seq<Seq<u8>> {
    Seq::new(parts.len(), |i: int| parts[i]@)
}

/// The names of a landing place are all plain.
pub open spec fn all_plain(parts: Seq<Seq<u8>>) -> bool {
    forall|i: int| 0 <= i < parts.len() ==> is_plain(#[trigger] parts[i])
}

/// The components of a path hold no separator.
pub proof fn lemma_components_hold_no_separator(path: Seq<u8>)
    ensures
        components(path).len() > 0,
        forall|i: int|
            0 <= i < components(path).len() ==> !(#[trigger] components(path)[i]).contains(SLASH),
    decreases path.len(),
{
    if path.len() > 0 {
        lemma_components_hold_no_separator(path.drop_last());
        let before = components(path.drop_last());
        if path.last() != SLASH {
            let grown = before.last().push(path.last());
            assert forall|k: int| 0 <= k < grown.len() implies grown[k] != SLASH by {
                if k < before.last().len() {
                    assert(before.last().contains(before.last()[k]));
                }
            }
        }
    }
}

/// Wherever components lead that hold no separator, the names on the way
/// are plain, if those of the starting place are.
pub proof fn lemma_follow_gives_plain_names(below: Seq<Seq<u8>>, parts: Seq<Seq<u8>>)
    requires
        all_plain(below),
        forall|i: int| 0 <= i < parts.len() ==> !(#[trigger] parts[i]).contains(SLASH),
    ensures
        follow_all(below, parts) matches Some(place) ==> all_plain(place),
    decreases parts.len(),
{
    if parts.len() > 0 {
        lemma_follow_gives_plain_names(below, parts.drop_last());
    }
}

/// Following two lists of components in a row is following the first and,
/// from where it leads, the second.
pub proof fn lemma_follow_in_a_row(below: Seq<Seq<u8>>, first: Seq<Seq<u8>>, second: Seq<Seq<u8>>)
    ensures
        follow_all(below, first + second) == match follow_all(below, first) {
            Some(place) => follow_all(place, second),
            None => None,
        },
    decreases second.len(),
{
    if second.len() == 0 {
        assert(first + second =~= first);
    } else {
        assert((first + second).drop_last() =~= first + second.drop_last());
        assert((first + second).last() == second.last());
        lemma_follow_in_a_row(below, first, second.drop_last());
    }
}

/// A separator between two stretches of bytes parts their components: the
/// components of the whole are those of the first stretch and then those of
/// the second.
pub proof fn lemma_components_of_two(first: Seq<u8>, second: Seq<u8>)
    ensures
        components(first + seq![SLASH] + second) == components(first) + components(second),
    decreases second.len(),
{
    let whole = first + seq![SLASH] + second;
    lemma_components_hold_no_separator(second);
    if second.len() == 0 {
        assert(whole.drop_last() =~= first);
        assert(components(first).push(Seq::<u8>::empty()) =~= components(first) + components(
            second,
        ));
    } else {
        let shorter = second.drop_last();
        assert(whole.drop_last() =~= first + seq![SLASH] + shorter);
        assert(whole.last() == second.last());
        lemma_components_of_two(first, shorter);
        lemma_components_hold_no_separator(shorter);
        let before = components(first) + components(shorter);
        assert(before.last() == components(shorter).last());
        if second.last() == SLASH {
            assert(before.push(Seq::<u8>::empty()) =~= components(first) + components(second));
        } else {
            assert(before.drop_last() =~= components(first) + components(shorter).drop_last());
            assert(before.drop_last().push(before.last().push(second.last())) =~= components(
                first,
            ) + components(second));
        }
    }
}

/// A stretch of bytes without a separator is one component.
pub proof fn lemma_one_component(part: Seq<u8>)
    requires
        !part.contains(SLASH),
    ensures
        components(part) == seq![part],
    decreases part.len(),
{
    if part.len() == 0 {
        assert(part =~= Seq::<u8>::empty());
    } else {
        let shorter = part.drop_last();
        assert forall|k: int| 0 <= k < shorter.len() implies shorter[k] != SLASH by {
            assert(part.contains(part[k]));
        }
        lemma_one_component(shorter);
        assert(part.contains(part.last()));
        assert(shorter.push(part.last()) =~= part);
        assert(seq![shorter].drop_last().push(part) =~= seq![part]);
    }
}

/// A path that was joined from components without separators has exactly
/// those components.
pub proof fn lemma_components_of_join(parts: Seq<Seq<u8>>)
    requires
        parts.len() > 0,
        forall|i: int| 0 <= i < parts.len() ==> !(#[trigger] parts[i]).contains(SLASH),
    ensures
        components(join(parts)) == parts,
    decreases parts.len(),
{
    if parts.len() == 1 {
        lemma_one_component(parts[0]);
        assert(seq![parts[0]] =~= parts);
    } else {
        lemma_components_of_join(parts.drop_last());
        lemma_components_of_two(join(parts.drop_last()), parts.last());
        lemma_one_component(parts.last());
        assert(parts.drop_last() + seq![parts.last()] =~= parts);
    }
}

/// Plain names lead down, one level each.
pub proof fn lemma_plain_names_lead_down(below: Seq<Seq<u8>>, parts: Seq<Seq<u8>>)
    requires
        all_plain(parts),
    ensures
        follow_all(below, parts) == Some(below + parts),
    decreases parts.len(),
{
    if parts.len() == 0 {
        assert(below + parts =~= below);
    } else {
        lemma_plain_names_lead_down(below, parts.drop_last());
        assert(is_plain(parts.last()));
        assert((below + parts.drop_last()).push(parts.last()) =~= below + parts);
    }
}

/// An entry whose path is made of plain names lands exactly there: the
/// relative path of the archive is kept as it is.
pub proof fn lemma_plain_path_is_kept(parts: Seq<Seq<u8>>)
    requires
        parts.len() > 0,
        all_plain(parts),
    ensures
        landing(join(parts)) == Some(parts),
{
    lemma_components_of_join(parts);
    lemma_plain_names_lead_down(Seq::empty(), parts);
    assert(Seq::<Seq<u8>>::empty() + parts =~= parts);
}

/// Components that have led outside stay outside, whatever comes behind
/// them.
pub proof fn lemma_outside_stays_outside(first: Seq<Seq<u8>>, second: Seq<Seq<u8>>)
    requires
        resolve(first) is None,
    ensures
        resolve(first + second) is None,
{
    lemma_follow_in_a_row(Seq::empty(), first, second);
}

/// An entry whose path goes up more often than down before some separator,
/// as `../../evil` does, is refused: if the path up to a separator leaves
/// the destination, so does the whole path.
pub proof fn lemma_escaping_prefix_is_refused(first: Seq<u8>, second: Seq<u8>)
    requires
        landing(first) is None,
    ensures
        landing(first + seq![SLASH] + second) is None,
{
    lemma_components_of_two(first, second);
    lemma_outside_stays_outside(components(first), components(second));
}

/// A path that begins with `..` leaves the destination.
pub proof fn lemma_parent_first_is_refused(rest: Seq<u8>)
    ensures
        landing(seq![DOT, DOT]) is None,
        landing(seq![DOT, DOT, SLASH] + rest) is None,
{
    let up = seq![DOT, DOT];
    assert(!up.contains(SLASH));
    lemma_one_component(up);
    assert(seq![up].drop_last() =~= Seq::<Seq<u8>>::empty());
    assert(follow_all(Seq::empty(), seq![up].drop_last()) == Some(Seq::<Seq<u8>>::empty()));
    assert(landing(up) is None);
    lemma_escaping_prefix_is_refused(up, rest);
    assert(up + seq![SLASH] + rest =~= seq![DOT, DOT, SLASH] + rest);
}

/// Takes one finished component into account. `false` where it leads
/// outside the destination.
fn follow_part(below: &mut Vec<Vec<u8>>, part: Vec<u8>) -> (inside: bool)
    ensures
        match follow(names(old(below)@), part@) {
            Some(place) => inside && names(final(below)@) == place,
            None => !inside,
        },
{
    if part.len() == 0 || (part.len() == 1 && part[0] == DOT) {
        true
    } else if part.len() == 2 && part[0] == DOT && part[1] == DOT {
        if below.len() == 0 {
            false
        } else {
            below.pop();
            assert(names(below@) =~= names(old(below)@).drop_last());
            true
        }
    } else {
        below.push(part);
        assert(names(below@) =~= names(old(below)@).push(part@));
        true
    }
}

/// The failure reported for an entry that would land outside the
/// destination.
pub fn traversal_failure() -> (error: Error)
    ensures
        error.kind == ErrorKind::Archive,
        error.field is None,
        error.cause@ == "entry path leaves the destination directory"@,
{
    Error::new(ErrorKind::Archive, "entry path leaves the destination directory")
}

/// Decides where an archive entry lands.
///
/// Returns the names that lead from the destination to the entry: the
/// path's components with empty ones and `.` left out and each `..` undone
/// together with the name before it. An entry whose path leaves the
/// destination on its way is refused with a failure of kind `Archive`;
/// the extraction it belongs to must then stop.
pub fn resolve_entry_path(path: &[u8]) -> (outcome: Result<Vec<Vec<u8>>, Error>)
    ensures
        match landing(path@) {
            Some(place) => outcome is Ok && names(outcome->Ok_0@) == place,
            None => {
                &&& outcome is Err
                &&& outcome->Err_0.kind == ErrorKind::Archive
                &&& outcome->Err_0.field is None
                &&& outcome->Err_0.cause@ == "entry path leaves the destination directory"@
            },
        },
        outcome matches Ok(place) ==> all_plain(names(place@)),
{
    let mut below: Vec<Vec<u8>> = Vec::new();
    let mut current: Vec<u8> = Vec::new();
    let mut i: usize = 0;
    proof {
        assert(path@.subrange(0, 0) =~= Seq::<u8>::empty());
        assert(components(path@.subrange(0, 0)).drop_last() =~= Seq::<Seq<u8>>::empty());
        assert(names(below@) =~= Seq::<Seq<u8>>::empty());
    }
    while i < path.len()
        invariant
            i <= path.len(),
            components(path@.subrange(0, i as int)).len() > 0,
            resolve(components(path@.subrange(0, i as int)).drop_last()) == Some(names(below@)),
            components(path@.subrange(0, i as int)).last() == current@,
        decreases path.len() - i,
    {
        let ghost seen = path@.subrange(0, i as int);
        let ghost next = path@.subrange(0, i + 1);
        proof {
            assert(next.drop_last() =~= seen);
            assert(next.last() == path@[i as int]);
        }
        if path[i] == SLASH {
            let part = current;
            current = Vec::new();
            proof {
                assert(components(next) == components(seen).push(Seq::<u8>::empty()));
                assert(components(next).drop_last() =~= components(seen));
                assert(components(seen) =~= components(seen).drop_last().push(part@));
                assert(components(seen).drop_last() == components(next).drop_last().drop_last());
            }
            if !follow_part(&mut below, part) {
                proof {
                    lemma_escape_is_final(components(next).drop_last(), path@, i + 1);
                }
                return Err(traversal_failure());
            }
        } else {
            current.push(path[i]);
            proof {
                assert(components(next).drop_last() =~= components(seen).drop_last());
            }
        }
        i += 1;
    }
    proof {
        assert(path@.subrange(0, i as int) =~= path@);
        assert(components(path@) =~= components(path@).drop_last().push(current@));
    }
    if !follow_part(&mut below, current) {
        return Err(traversal_failure());
    }
    proof {
        lemma_components_hold_no_separator(path@);
        lemma_follow_gives_plain_names(Seq::empty(), components(path@));
    }
    Ok(below)
}

/// Components that have led outside stay outside, whatever follows: once
/// the components of the first `seen` bytes, the unfinished last one apart,
/// leave the destination, so does the whole path.
proof fn lemma_escape_is_final(parts: Seq<Seq<u8>>, path: Seq<u8>, seen: int)
    requires
        0 <= seen <= path.len(),
        parts == components(path.subrange(0, seen)).drop_last(),
        resolve(parts) is None,
    ensures
        landing(path) is None,
    decreases path.len() - seen,
{
    lemma_components_hold_no_separator(path.subrange(0, seen));
    if seen == path.len() {
        assert(path.subrange(0, seen) =~= path);
        assert(components(path).drop_last() == parts);
    } else {
        let here = path.subrange(0, seen);
        let next = path.subrange(0, seen + 1);
        assert(next.drop_last() =~= here);
        if next.last() == SLASH {
            assert(components(next).drop_last() =~= components(here));
            assert(components(here).drop_last() == parts);
        } else {
            assert(components(next).drop_last() =~= parts);
        }
        lemma_escape_is_final(components(next).drop_last(), path, seen + 1);
    }
}

/// The step of an extraction at which something can go wrong.
#[derive(Clone, Copy, Debug, PartialEq, Eq, Structural)]
pub enum ExtractStep {
    /// The bytes of the archive are received from the service.
    Receive,
    /// The gzip framing is taken off.
    Inflate,
    /// The next entry of the tar archive is read.
    ReadEntry,
    /// The place of an entry below the destination is decided.
    PlaceEntry,
    /// An entry is written to the file system.
    WriteEntry,
}

/// The kind of failure that belongs to a step of an extraction.
pub open spec fn failure_kind(step: ExtractStep) -> ErrorKind {
    match step {
        ExtractStep::Receive => ErrorKind::Transport,
        ExtractStep::Inflate => ErrorKind::Decode,
        ExtractStep::ReadEntry => ErrorKind::Archive,
        ExtractStep::PlaceEntry => ErrorKind::Archive,
        ExtractStep::WriteEntry => ErrorKind::Io,
    }
}

/// The step to which a failure of reading or writing is laid, from what
/// was seen of the extraction: a failed transfer comes first, then
/// framing that never was valid gzip; what is left is laid to the tar
/// archive, or to the file system where an entry was being written.
pub open spec fn step_at_fault(transfer_failed: bool, gzip_valid: bool, writing: bool) -> ExtractStep {
    if transfer_failed {
        ExtractStep::Receive
    } else if !gzip_valid {
        ExtractStep::Inflate
    } else if writing {
        ExtractStep::WriteEntry
    } else {
        ExtractStep::ReadEntry
    }
}

impl ExtractStep {
    /// The step to which a failure of reading or writing is laid.
    pub fn at_fault(transfer_failed: bool, gzip_valid: bool, writing: bool) -> (step: ExtractStep)
        ensures
            step == step_at_fault(transfer_failed, gzip_valid, writing),
    {
        if transfer_failed {
            ExtractStep::Receive
        } else if !gzip_valid {
            ExtractStep::Inflate
        } else if writing {
            ExtractStep::WriteEntry
        } else {
            ExtractStep::ReadEntry
        }
    }

    /// The kind of failure that belongs to this step.
    pub fn kind(self) -> (kind: ErrorKind)
        ensures
            kind == failure_kind(self),
    {
        match self {
            ExtractStep::Receive => ErrorKind::Transport,
            ExtractStep::Inflate => ErrorKind::Decode,
            ExtractStep::ReadEntry => ErrorKind::Archive,
            ExtractStep::PlaceEntry => ErrorKind::Archive,
            ExtractStep::WriteEntry => ErrorKind::Io,
        }
    }

    /// The failure of an extraction at this step.
    pub fn failure(self, cause: &str) -> (error: Error)
        ensures
            error.kind == failure_kind(self),
            error.field is None,
            error.cause@ == cause@,
    {
        Error::new(self.kind(), cause)
    }
}

} // verus!
