//! The state of one cleanup run: the worklist of paths still to visit, the
//! bytes reclaimed so far, and whether a fatal failure stopped the run.
//!
//! The caller drives the run: it takes the next path, looks at the file
//! system, and reports back what a directory holds or what became of a file.
use vstd::prelude::*;
use std::collections::VecDeque;
use crate::paths::{file_name_of, path_file_name};
use crate::rules::{admits_file, is_admitted, is_snapshot_folder, LOCAL_METADATA_FILE, SNAPSHOT_SUFFIX};
use crate::text::str_ends_with;
use crate::size::{format_size, size_text};

verus! {

/// An entry found while listing a directory.
pub struct Child {
    /// The entry's full path.
    pub path: String,
    /// Whether the entry is a regular file; anything else is visited as a directory.
    pub is_file: bool,
}

/// What a run knows of a listed entry.
pub struct ChildView {
    pub path: Seq<char>,
    pub is_file: bool,
}

impl View for Child {
    type V = ChildView;

    open spec fn view(&self) -> ChildView {
        ChildView { path: self.path@, is_file: self.is_file }
    }
}

/// A listed entry of a folder named `folder` is queued: directories always,
/// files when the folder or the file's own name admits them.
pub open spec fn is_queued(folder: Seq<char>, child: ChildView) -> bool {
    !child.is_file || match file_name_of(child.path) {
        Some(name) => is_admitted(folder, name),
        None => is_snapshot_folder(folder),
    }
}

/// The paths of the entries of a folder named `folder` that are queued, in order.
pub open spec fn queued_paths(folder: Seq<char>, children: Seq<ChildView>) -> Seq<Seq<char>>
    decreases children.len(),
{
    if children.len() == 0 {
        Seq::empty()
    } else {
        let rest = queued_paths(folder, children.drop_last());
        if is_queued(folder, children.last()) {
            rest.push(children.last().path)
        } else {
            rest
        }
    }
}

/// The abstract state of a run.
pub struct CleanupView {
    /// Paths waiting to be visited, front first.
    pub pending: Seq<Seq<char>>,
    /// Bytes of the files removed so far.
    pub deleted: nat,
    /// A fatal failure has stopped the run.
    pub halted: bool,
}

impl CleanupView {
    /// The state after a removed file of `size` bytes is counted.
    pub open spec fn after_deletion(self, size: nat) -> CleanupView {
        CleanupView { deleted: self.deleted + size, ..self }
    }

    /// The state after removed files of the given sizes are counted in turn.
    pub open spec fn after_deletions(self, sizes: Seq<nat>) -> CleanupView
        decreases sizes.len(),
    {
        if sizes.len() == 0 {
            self
        } else {
            self.after_deletions(sizes.drop_last()).after_deletion(sizes.last())
        }
    }
}

/// The sum of a sequence of sizes.
pub open spec fn total(sizes: Seq<nat>) -> nat
    decreases sizes.len(),
{
    if sizes.len() == 0 {
        0
    } else {
        total(sizes.drop_last()) + sizes.last()
    }
}

/// One cleanup run.
pub struct Cleanup {
    queue: VecDeque<String>,
    deleted: usize,
    halted: bool,
}

impl View for Cleanup {
    type V = CleanupView;

    closed spec fn view(&self) -> CleanupView {
        CleanupView {
            pending: self.queue@.map_values(|p: String| p@),
            deleted: self.deleted as nat,
            halted: self.halted,
        }
    }
}

impl Cleanup {
    /// A run whose worklist holds the repository root alone.
    pub fn new(root: String) -> (r: Cleanup)
        ensures
            r@ == (CleanupView { pending: seq![root@], deleted: 0, halted: false }),
    {
        let mut queue = VecDeque::new();
        queue.push_back(root);
        let r = Cleanup { queue, deleted: 0, halted: false };
        assert(r@.pending =~= seq![root@]);
        r
    }

    /// Takes the next path to visit: the front of the worklist, or `None`
    /// once the worklist is empty or the run has halted.
    pub fn next_path(&mut self) -> (r: Option<String>)
        ensures
            old(self)@.halted || old(self)@.pending.len() == 0 ==> r is None && final(self)@ == old(self)@,
            !old(self)@.halted && old(self)@.pending.len() > 0 ==> {
                &&& r is Some
                &&& r.unwrap()@ == old(self)@.pending[0]
                &&& final(self)@ == (CleanupView { pending: old(self)@.pending.drop_first(), ..old(self)@ })
            },
    {
        if self.halted {
            return None;
        }
        let r = self.queue.pop_front();
        assert(self@.pending =~= old(self)@.pending.drop_first() || r is None);
        r
    }

    /// Queues the entries listed in a directory named `folder_name`:
    /// every subdirectory, and the files that the folder or their own names admit.
    pub fn expand_dir(&mut self, folder_name: &str, children: Vec<Child>)
        ensures
            final(self)@ == (CleanupView {
                pending: old(self)@.pending + queued_paths(folder_name@, children@.map_values(|c: Child| c@)),
                ..old(self)@
            }),
    {
        let ghost kids = children@.map_values(|c: Child| c@);
        let mut i: usize = 0;
        while i < children.len()
            invariant
                kids == children@.map_values(|c: Child| c@),
                i <= children.len(),
                self@ == (CleanupView {
                    pending: old(self)@.pending + queued_paths(folder_name@, kids.subrange(0, i as int)),
                    ..old(self)@
                }),
            decreases children.len() - i,
        {
            let child = &children[i];
            let queue_it = if child.is_file {
                match path_file_name(child.path.as_str()) {
                    Some(name) => admits_file(folder_name, name.as_str()),
                    None => str_ends_with(folder_name, SNAPSHOT_SUFFIX),
                }
            } else {
                true
            };
            let ghost before = self@.pending;
            if queue_it {
                self.queue.push_back(child.path.clone());
            }
            proof {
                assert(kids.subrange(0, i + 1).drop_last() =~= kids.subrange(0, i as int));
                assert(kids.subrange(0, i + 1).last() == child@);
                if queue_it {
                    assert(self@.pending =~= before.push(child.path@));
                } else {
                    assert(self@.pending =~= before);
                }
                assert(self@.pending =~= old(self)@.pending + queued_paths(
                    folder_name@,
                    kids.subrange(0, i + 1),
                ));
            }
            i = i + 1;
        }
        assert(kids.subrange(0, i as int) =~= kids);
    }

    /// Counts a removed file of `size` bytes.
    pub fn record_deleted(&mut self, size: usize)
        requires
            old(self)@.deleted + size <= usize::MAX,
        ensures
            final(self)@ == old(self)@.after_deletion(size as nat),
    {
        self.deleted = self.deleted + size;
        assert(self@.pending =~= old(self)@.pending);
    }

    /// Stops the run: no further path is handed out.
    pub fn halt(&mut self)
        ensures
            final(self)@ == (CleanupView { halted: true, ..old(self)@ }),
    {
        self.halted = true;
        assert(self@.pending =~= old(self)@.pending);
    }

    /// Bytes of the files removed so far.
    pub fn deleted_size(&self) -> (r: usize)
        ensures
            r == self@.deleted,
    {
        self.deleted
    }

    /// The bytes removed so far, in the largest unit that they reach.
    pub fn summary(&self) -> (r: String)
        ensures
            r@ == size_text(self@.deleted),
    {
        format_size(self.deleted)
    }
}

/// `p` is the path of an entry of a folder named `folder` that is queued.
pub open spec fn is_queued_entry(folder: Seq<char>, children: Seq<ChildView>, p: Seq<char>) -> bool {
    exists|i: int| 0 <= i < children.len() && #[trigger] children[i].path == p && is_queued(folder, children[i])
}

/// Every path that listing a folder queues is that of a queued entry; in a
/// folder that does not mark a snapshot, a file other than the local-metadata
/// descriptor is never queued, so it is neither evaluated nor deleted.
pub proof fn law_only_admitted_files_queued(folder: Seq<char>, children: Seq<ChildView>)
    ensures
        forall|j: int|
            0 <= j < queued_paths(folder, children).len() ==> is_queued_entry(
                folder,
                children,
                #[trigger] queued_paths(folder, children)[j],
            ),
        forall|i: int|
            0 <= i < children.len() && children[i].is_file && !is_snapshot_folder(folder)
                && file_name_of(children[i].path) != Some(LOCAL_METADATA_FILE@) ==> !is_queued(
                folder,
                #[trigger] children[i],
            ),
    decreases children.len(),
{
    if children.len() > 0 {
        let init = children.drop_last();
        law_only_admitted_files_queued(folder, init);
        let q = queued_paths(folder, children);
        assert forall|j: int| 0 <= j < q.len() implies is_queued_entry(folder, children, #[trigger] q[j]) by {
            if j < queued_paths(folder, init).len() {
                assert(is_queued_entry(folder, init, queued_paths(folder, init)[j]));
                let i = choose|i: int|
                    0 <= i < init.len() && #[trigger] init[i].path == queued_paths(folder, init)[j]
                        && is_queued(folder, init[i]);
                assert(children[i] == init[i]);
            } else {
                assert(children[children.len() - 1] == children.last());
            }
        }
    }
}

/// Counting removed files of the given sizes adds exactly their sum to the
/// total, leaves the worklist alone, and the report then formats that total;
/// from a fresh run, the report is the sum formatted.
pub proof fn law_reported_total(start: CleanupView, sizes: Seq<nat>)
    ensures
        start.after_deletions(sizes).deleted == start.deleted + total(sizes),
        start.after_deletions(sizes).pending == start.pending,
        start.after_deletions(sizes).halted == start.halted,
        start.deleted == 0 ==> size_text(start.after_deletions(sizes).deleted) == size_text(total(sizes)),
    decreases sizes.len(),
{
    if sizes.len() > 0 {
        law_reported_total(start, sizes.drop_last());
    }
}

} // verus!
