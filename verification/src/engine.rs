//! Step-function traversals that drive the real filesystem.
//!
//! A driver owns the blocking filesystem calls and nothing else: it asks the
//! traversal for the next action (`FsAction`), performs it, and hands the
//! outcome back as an event (`FsEvent`).  Every decision of the copy and
//! move algorithms — file versus directory versus entry of other kind, the
//! order of target creation, listing and recursion, the atomic rename first
//! and the per-entry fallback after, fail-fast on the first error, the final
//! removal of the emptied source — is taken inside the verified `step`
//! functions here, and the contracts pin each such decision: which action
//! answers which state and event, and with which paths.  What a completed
//! run leaves on a whole tree is stated and proved of the model operations
//! in `ops`, which take the same decisions on the tree model.  Paths travel
//! as byte strings; child paths are built by `path_join`.

use vstd::prelude::*;
use crate::model::FsError;

verus! {

/// The classification a directory listing gives each entry.
#[derive(Debug, Clone, Copy, PartialEq, Eq, Structural)]
pub enum EntryKind {
    RegularFile,
    Directory,
    OtherKind,
}

/// One entry of a directory listing, as the driver reports it.
#[derive(Debug, PartialEq, Eq)]
pub struct ListedEntry {
    pub name: Vec<u8>,
    pub kind: EntryKind,
}

/// What the traversal asks the driver to do next.
///
/// `Pass` asks for nothing: the driver answers with `Completed` and the
/// traversal goes on — it is what an entry of other kind earns, and how a
/// finished frame hands control back to its parent.  `Finish` ends the run.
#[derive(Debug, PartialEq, Eq)]
pub enum FsAction {
    Probe { path: Vec<u8> },
    MakeDirAll { path: Vec<u8> },
    ListDir { path: Vec<u8> },
    CopyFile { src: Vec<u8>, dst: Vec<u8> },
    Rename { src: Vec<u8>, dst: Vec<u8> },
    RemoveFile { path: Vec<u8> },
    RemoveDirAll { path: Vec<u8> },
    Pass,
    Finish { result: Result<(), FsError> },
}

/// What the driver reports back about the last action.
#[derive(Debug, PartialEq, Eq)]
pub enum FsEvent {
    Begin,
    IsFile { yes: bool },
    Listed { entries: Vec<ListedEntry> },
    Completed,
    Failed { err: FsError },
}

/// `dir`, a separator, `name`.
pub open spec fn spec_path_join(dir: Seq<u8>, name: Seq<u8>) -> Seq<u8> {
    dir + seq![47u8] + name
}

/// Joins a directory path and a child name with the path separator.
pub fn path_join(dir: &Vec<u8>, name: &Vec<u8>) -> (r: Vec<u8>)
    ensures
        r@ == spec_path_join(dir@, name@),
{
    let mut r = crate::ops::clone_bytes(dir);
    r.push(47u8);
    let mut i: usize = 0;
    while i < name.len()
        invariant
            i <= name@.len(),
            r@ == dir@ + seq![47u8] + name@.subrange(0, i as int),
        decreases name@.len() - i,
    {
        r.push(name[i]);
        proof {
            assert(dir@ + seq![47u8] + name@.subrange(0, i as int).push(name@[i as int]) =~= dir@
                + seq![47u8] + name@.subrange(0, i + 1));
        }
        i += 1;
    }
    proof {
        assert(name@.subrange(0, name@.len() as int) =~= name@);
    }
    r
}

/// Which action a copy frame is waiting on.
#[derive(Debug, Clone, Copy, PartialEq, Eq, Structural)]
pub enum CopyPhase {
    Probing,
    SelfCopying,
    Creating,
    Listing,
    EntryCopying,
    Stepping,
}

/// One level of an in-progress copy: the source directory, its target, the
/// listing, and how far the entries have been processed.
#[derive(Debug, PartialEq, Eq)]
pub struct CopyFrame {
    pub src: Vec<u8>,
    pub target: Vec<u8>,
    pub entries: Vec<ListedEntry>,
    pub next: usize,
    pub phase: CopyPhase,
}

/// The verified copy traversal: a work stack of frames plus the final
/// result once the run has ended.  A driver performs each returned action
/// and feeds the outcome back through `step`.
#[derive(Debug, PartialEq, Eq)]
pub struct CopyTraversal {
    pub stack: Vec<CopyFrame>,
    pub finished: Option<Result<(), FsError>>,
}

impl CopyTraversal {
    /// The traversal is consistent: while running the stack is never empty,
    /// and no frame has processed more entries than its listing holds.
    pub open spec fn wf(self) -> bool {
        &&& (self.finished is None ==> self.stack@.len() > 0)
        &&& forall|i: int|
            0 <= i < self.stack@.len() ==> (#[trigger] self.stack@[i]).next
                <= self.stack@[i].entries@.len()
    }

    /// The innermost frame, the one every event answers.
    pub open spec fn top(self) -> CopyFrame {
        self.stack@.last()
    }

    /// Starts a copy of `src` into the directory `dst` under `name` (the
    /// source's base name).  A source without a base name is rejected
    /// before any action is emitted.
    pub fn begin(src: Vec<u8>, dst: Vec<u8>, name: Option<Vec<u8>>) -> (t: CopyTraversal)
        ensures
            t.wf(),
            name is None ==> t.finished == Some(Err::<(), FsError>(FsError::InvalidInput)),
            (match name {
                Some(n) => {
                    &&& t.finished is None
                    &&& t.stack@.len() == 1
                    &&& t.top().phase is Probing
                    &&& t.top().src@ == src@
                    &&& t.top().target@ == spec_path_join(dst@, n@)
                },
                None => true,
            }),
    {
        match name {
            None => CopyTraversal {
                stack: Vec::new(),
                finished: Some(Err(FsError::InvalidInput)),
            },
            Some(n) => {
                let target = path_join(&dst, &n);
                let mut stack: Vec<CopyFrame> = Vec::new();
                stack.push(
                    CopyFrame {
                        src,
                        target,
                        entries: Vec::new(),
                        next: 0,
                        phase: CopyPhase::Probing,
                    },
                );
                CopyTraversal { stack, finished: None }
            },
        }
    }

    /// Ends the run with a driver-protocol fault: the event did not answer
    /// the action this traversal last emitted.
    fn fault(&mut self) -> (a: FsAction)
        requires
            forall|i: int|
                0 <= i < old(self).stack@.len() ==> (#[trigger] old(self).stack@[i]).next <= old(
                    self,
                ).stack@[i].entries@.len(),
        ensures
            final(self).finished == Some(Err::<(), FsError>(FsError::Io)),
            final(self).wf(),
            a == (FsAction::Finish { result: Err::<(), FsError>(FsError::Io) }),
    {
        self.finished = Some(Err(FsError::Io));
        FsAction::Finish { result: Err(FsError::Io) }
    }

    /// One decision of the copy algorithm.
    ///
    /// The driver performs the returned action and calls again with its
    /// outcome.  A regular-file source is copied straight to the target
    /// path; a directory target is created before anything inside it is
    /// listed or copied; entries of other kind earn no filesystem action;
    /// the first failure the driver reports ends the whole run with that
    /// error.  Once a `Finish` has been returned the traversal only repeats
    /// it.
    pub fn step(&mut self, ev: FsEvent) -> (a: FsAction)
        requires
            old(self).wf(),
        ensures
            final(self).wf(),
            (match old(self).finished {
                Some(r) => a == (FsAction::Finish { result: r }) && *final(self) == *old(self),
                None => true,
            }),
            (match ev {
                FsEvent::Failed { err } => old(self).finished is None ==> (a == (FsAction::Finish {
                    result: Err::<(), FsError>(err),
                }) && final(self).finished == Some(Err::<(), FsError>(err))),
                _ => true,
            }),
            (match a {
                FsAction::Finish { result } => final(self).finished == Some(result),
                _ => final(self).finished is None,
            }),
            old(self).finished is None && old(self).top().phase is Probing && ev is Begin ==> (a
                matches FsAction::Probe { path: p } && p@ == old(self).top().src@
                && final(self).top().phase is Probing),
            old(self).finished is None && old(self).top().phase is Probing && ev == (
            FsEvent::IsFile { yes: true }) ==> (a matches FsAction::CopyFile { src: s, dst: d }
                && s@ == old(self).top().src@ && d@ == old(self).top().target@),
            old(self).finished is None && old(self).top().phase is Probing && ev == (
            FsEvent::IsFile { yes: false }) ==> (a matches FsAction::MakeDirAll { path: p } && p@
                == old(self).top().target@ && final(self).top().phase is Creating),
            old(self).finished is None && old(self).top().phase is Creating && ev is Completed
                ==> (a matches FsAction::ListDir { path: p } && p@ == old(self).top().src@
                && final(self).top().phase is Listing),
            old(self).finished is None && old(self).top().phase is Stepping && ev is Completed
                && old(self).top().next < old(self).top().entries@.len() ==> ({
                let e = old(self).top().entries@[old(self).top().next as int];
                &&& (e.kind is OtherKind ==> a == FsAction::Pass)
                &&& (e.kind is RegularFile ==> (a matches FsAction::CopyFile { src: s, dst: d }
                    && s@ == spec_path_join(old(self).top().src@, e.name@) && d@ == spec_path_join(
                    old(self).top().target@,
                    e.name@,
                )))
                &&& (e.kind is Directory ==> (a matches FsAction::MakeDirAll { path: p } && p@
                    == spec_path_join(old(self).top().target@, e.name@) && final(self).top().phase
                    is Creating && final(self).top().src@ == spec_path_join(
                    old(self).top().src@,
                    e.name@,
                )))
                &&& !(a matches FsAction::Finish { .. })
            }),
            old(self).finished is None && old(self).top().phase is Stepping && ev is Completed
                && old(self).top().next >= old(self).top().entries@.len() ==> ({
                &&& (old(self).stack@.len() == 1 ==> a == (FsAction::Finish {
                    result: Ok::<(), FsError>(()),
                }))
                &&& (old(self).stack@.len() > 1 ==> a == FsAction::Pass && final(self).stack@
                    == old(self).stack@.drop_last())
            }),
    {
        match &self.finished {
            Some(r) => {
                return FsAction::Finish { result: *r };
            },
            None => {},
        }
        match ev {
            FsEvent::Failed { err } => {
                self.finished = Some(Err(err));
                return FsAction::Finish { result: Err(err) };
            },
            _ => {},
        }
        let mut f = match self.stack.pop() {
            Some(f) => f,
            None => {
                return self.fault();
            },
        };
        match f.phase {
            CopyPhase::Probing => match ev {
                FsEvent::Begin => {
                    let a = FsAction::Probe { path: crate::ops::clone_bytes(&f.src) };
                    self.stack.push(f);
                    a
                },
                FsEvent::IsFile { yes } => {
                    if yes {
                        let a = FsAction::CopyFile {
                            src: crate::ops::clone_bytes(&f.src),
                            dst: crate::ops::clone_bytes(&f.target),
                        };
                        f.phase = CopyPhase::SelfCopying;
                        self.stack.push(f);
                        a
                    } else {
                        let a = FsAction::MakeDirAll { path: crate::ops::clone_bytes(&f.target) };
                        f.phase = CopyPhase::Creating;
                        self.stack.push(f);
                        a
                    }
                },
                _ => self.fault(),
            },
            CopyPhase::SelfCopying => match ev {
                FsEvent::Completed => {
                    if self.stack.len() == 0 {
                        self.finished = Some(Ok(()));
                        FsAction::Finish { result: Ok(()) }
                    } else {
                        FsAction::Pass
                    }
                },
                _ => self.fault(),
            },
            CopyPhase::Creating => match ev {
                FsEvent::Completed => {
                    let a = FsAction::ListDir { path: crate::ops::clone_bytes(&f.src) };
                    f.phase = CopyPhase::Listing;
                    self.stack.push(f);
                    a
                },
                _ => self.fault(),
            },
            CopyPhase::Listing => match ev {
                FsEvent::Listed { entries } => {
                    f.entries = entries;
                    f.next = 0;
                    f.phase = CopyPhase::Stepping;
                    self.stack.push(f);
                    FsAction::Pass
                },
                _ => self.fault(),
            },
            CopyPhase::EntryCopying => match ev {
                FsEvent::Completed => {
                    f.phase = CopyPhase::Stepping;
                    self.stack.push(f);
                    FsAction::Pass
                },
                _ => self.fault(),
            },
            CopyPhase::Stepping => match ev {
                FsEvent::Completed => {
                    if f.next < f.entries.len() {
                        match f.entries[f.next].kind {
                            EntryKind::OtherKind => {
                                f.next = f.next + 1;
                                self.stack.push(f);
                                FsAction::Pass
                            },
                            EntryKind::RegularFile => {
                                let s = path_join(&f.src, &f.entries[f.next].name);
                                let d = path_join(&f.target, &f.entries[f.next].name);
                                f.next = f.next + 1;
                                f.phase = CopyPhase::EntryCopying;
                                self.stack.push(f);
                                FsAction::CopyFile { src: s, dst: d }
                            },
                            EntryKind::Directory => {
                                let csrc = path_join(&f.src, &f.entries[f.next].name);
                                let ctgt = path_join(&f.target, &f.entries[f.next].name);
                                let a = FsAction::MakeDirAll {
                                    path: crate::ops::clone_bytes(&ctgt),
                                };
                                f.next = f.next + 1;
                                self.stack.push(f);
                                self.stack.push(
                                    CopyFrame {
                                        src: csrc,
                                        target: ctgt,
                                        entries: Vec::new(),
                                        next: 0,
                                        phase: CopyPhase::Creating,
                                    },
                                );
                                a
                            },
                        }
                    } else {
                        if self.stack.len() == 0 {
                            self.finished = Some(Ok(()));
                            FsAction::Finish { result: Ok(()) }
                        } else {
                            FsAction::Pass
                        }
                    }
                },
                _ => self.fault(),
            },
        }
    }
}

/// Which action a move frame is waiting on.
#[derive(Debug, Clone, Copy, PartialEq, Eq, Structural)]
pub enum MovePhase {
    Probing,
    FileRenaming,
    FileCopying,
    FileRemoving,
    DirRenaming,
    Creating,
    Listing,
    Stepping,
    EntryRenaming,
    EntryCopying,
    EntryRemoving,
    Cleaning,
}

/// One level of an in-progress move.  `pend_src`/`pend_dst` hold the paths
/// of the file entry currently being renamed, for the copy-and-delete
/// fallback should the rename fail.
#[derive(Debug, PartialEq, Eq)]
pub struct MoveFrame {
    pub src: Vec<u8>,
    pub target: Vec<u8>,
    pub entries: Vec<ListedEntry>,
    pub next: usize,
    pub pend_src: Vec<u8>,
    pub pend_dst: Vec<u8>,
    pub phase: MovePhase,
}

/// The verified move traversal: one atomic rename of the whole tree first,
/// and only when the driver reports that it failed the per-entry fallback —
/// rename or copy-and-delete for files, recursion for directories, entries
/// of other kind skipped — followed by removal of the emptied source.
#[derive(Debug, PartialEq, Eq)]
pub struct MoveTraversal {
    pub stack: Vec<MoveFrame>,
    pub finished: Option<Result<(), FsError>>,
}

impl MoveTraversal {
    /// The traversal is consistent: while running the stack is never empty,
    /// and no frame has processed more entries than its listing holds.
    pub open spec fn wf(self) -> bool {
        &&& (self.finished is None ==> self.stack@.len() > 0)
        &&& forall|i: int|
            0 <= i < self.stack@.len() ==> (#[trigger] self.stack@[i]).next
                <= self.stack@[i].entries@.len()
    }

    /// The innermost frame, the one every event answers.
    pub open spec fn top(self) -> MoveFrame {
        self.stack@.last()
    }

    /// A failure answering this phase triggers a fallback action rather
    /// than ending the run: the rename attempts do.
    pub open spec fn phase_has_fallback(p: MovePhase) -> bool {
        p is FileRenaming || p is DirRenaming || p is EntryRenaming
    }

    /// Starts a move of `src` into the directory `dst` under `name` (the
    /// source's base name).
    pub fn begin(src: Vec<u8>, dst: Vec<u8>, name: Option<Vec<u8>>) -> (t: MoveTraversal)
        ensures
            t.wf(),
            name is None ==> t.finished == Some(Err::<(), FsError>(FsError::InvalidInput)),
            (match name {
                Some(n) => {
                    &&& t.finished is None
                    &&& t.stack@.len() == 1
                    &&& t.top().phase is Probing
                    &&& t.top().src@ == src@
                    &&& t.top().target@ == spec_path_join(dst@, n@)
                },
                None => true,
            }),
    {
        match name {
            None => MoveTraversal {
                stack: Vec::new(),
                finished: Some(Err(FsError::InvalidInput)),
            },
            Some(n) => {
                let target = path_join(&dst, &n);
                let mut stack: Vec<MoveFrame> = Vec::new();
                stack.push(
                    MoveFrame {
                        src,
                        target,
                        entries: Vec::new(),
                        next: 0,
                        pend_src: Vec::new(),
                        pend_dst: Vec::new(),
                        phase: MovePhase::Probing,
                    },
                );
                MoveTraversal { stack, finished: None }
            },
        }
    }

    /// Ends the run with a driver-protocol fault.
    fn fault(&mut self) -> (a: FsAction)
        requires
            forall|i: int|
                0 <= i < old(self).stack@.len() ==> (#[trigger] old(self).stack@[i]).next <= old(
                    self,
                ).stack@[i].entries@.len(),
        ensures
            final(self).finished == Some(Err::<(), FsError>(FsError::Io)),
            final(self).wf(),
            a == (FsAction::Finish { result: Err::<(), FsError>(FsError::Io) }),
    {
        self.finished = Some(Err(FsError::Io));
        FsAction::Finish { result: Err(FsError::Io) }
    }

    /// Ends the run with the first error the driver reported.
    fn abort(&mut self, err: FsError) -> (a: FsAction)
        requires
            forall|i: int|
                0 <= i < old(self).stack@.len() ==> (#[trigger] old(self).stack@[i]).next <= old(
                    self,
                ).stack@[i].entries@.len(),
        ensures
            final(self).finished == Some(Err::<(), FsError>(err)),
            final(self).wf(),
            a == (FsAction::Finish { result: Err::<(), FsError>(err) }),
    {
        self.finished = Some(Err(err));
        FsAction::Finish { result: Err(err) }
    }

    /// One decision of the move algorithm.
    ///
    /// Whatever the probe says, the whole tree is first renamed atomically.
    /// Only a reported rename failure starts the fallback: target creation
    /// before listing, then per entry a rename with copy-and-delete behind
    /// it for files, a child frame for directories, no action at all for
    /// entries of other kind, and the removal of the emptied source only
    /// after every entry is handled.  Any other reported failure ends the
    /// run with that error.  Once a `Finish` has been returned the
    /// traversal only repeats it.
    pub fn step(&mut self, ev: FsEvent) -> (a: FsAction)
        requires
            old(self).wf(),
        ensures
            final(self).wf(),
            (match old(self).finished {
                Some(r) => a == (FsAction::Finish { result: r }) && *final(self) == *old(self),
                None => true,
            }),
            (match ev {
                FsEvent::Failed { err } => old(self).finished is None && !Self::phase_has_fallback(
                    old(self).top().phase,
                ) ==> (a == (FsAction::Finish { result: Err::<(), FsError>(err) }) && final(self).finished == Some(Err::<(), FsError>(err))),
                _ => true,
            }),
            (match a {
                FsAction::Finish { result } => final(self).finished == Some(result),
                _ => final(self).finished is None,
            }),
            old(self).finished is None && old(self).top().phase is Probing && ev is Begin ==> (a
                matches FsAction::Probe { path: p } && p@ == old(self).top().src@
                && final(self).top().phase is Probing),
            old(self).finished is None && old(self).top().phase is Probing && ev is IsFile ==> (a matches FsAction::Rename { src: s, dst: d } && s@ == old(
                self,
            ).top().src@ && d@ == old(self).top().target@),
            old(self).finished is None && old(self).top().phase is FileRenaming && ev is Failed ==> (a matches FsAction::CopyFile { src: s, dst: d } && s@
                == old(self).top().src@ && d@ == old(self).top().target@ && final(self).top().phase
                is FileCopying),
            old(self).finished is None && old(self).top().phase is DirRenaming && ev is Failed ==> (a matches FsAction::MakeDirAll { path: p } && p@ == old(
                self,
            ).top().target@ && final(self).top().phase is Creating),
            old(self).finished is None && old(self).top().phase is EntryRenaming && ev is Failed ==> (a matches FsAction::CopyFile { src: s, dst: d } && s@
                == old(self).top().pend_src@ && d@ == old(self).top().pend_dst@ && final(self).top().phase is EntryCopying),
            old(self).finished is None && old(self).top().phase is Creating && ev is Completed
                ==> (a matches FsAction::ListDir { path: p } && p@ == old(self).top().src@
                && final(self).top().phase is Listing),
            old(self).finished is None && old(self).top().phase is Stepping && ev is Completed
                && old(self).top().next < old(self).top().entries@.len() ==> ({
                let e = old(self).top().entries@[old(self).top().next as int];
                &&& (e.kind is OtherKind ==> a == FsAction::Pass)
                &&& (e.kind is RegularFile ==> (a matches FsAction::Rename { src: s, dst: d } && s@
                    == spec_path_join(old(self).top().src@, e.name@) && d@ == spec_path_join(
                    old(self).top().target@,
                    e.name@,
                ) && final(self).top().phase is EntryRenaming))
                &&& (e.kind is Directory ==> (a matches FsAction::Rename { src: s, dst: d } && s@
                    == spec_path_join(old(self).top().src@, e.name@) && d@ == spec_path_join(
                    old(self).top().target@,
                    e.name@,
                ) && final(self).top().phase is DirRenaming))
                &&& !(a matches FsAction::Finish { .. })
            }),
            old(self).finished is None && old(self).top().phase is Stepping && ev is Completed
                && old(self).top().next >= old(self).top().entries@.len() ==> (a matches
                FsAction::RemoveDirAll { path: p } && p@ == old(self).top().src@ && final(self).top().phase is Cleaning),
    {
        match &self.finished {
            Some(r) => {
                return FsAction::Finish { result: *r };
            },
            None => {},
        }
        let mut f = match self.stack.pop() {
            Some(f) => f,
            None => {
                return self.fault();
            },
        };
        match f.phase {
            MovePhase::Probing => match ev {
                FsEvent::Begin => {
                    let a = FsAction::Probe { path: crate::ops::clone_bytes(&f.src) };
                    self.stack.push(f);
                    a
                },
                FsEvent::IsFile { yes } => {
                    let a = FsAction::Rename {
                        src: crate::ops::clone_bytes(&f.src),
                        dst: crate::ops::clone_bytes(&f.target),
                    };
                    f.phase = if yes {
                        MovePhase::FileRenaming
                    } else {
                        MovePhase::DirRenaming
                    };
                    self.stack.push(f);
                    a
                },
                FsEvent::Failed { err } => self.abort(err),
                _ => self.fault(),
            },
            MovePhase::FileRenaming => match ev {
                FsEvent::Completed => {
                    if self.stack.len() == 0 {
                        self.finished = Some(Ok(()));
                        FsAction::Finish { result: Ok(()) }
                    } else {
                        FsAction::Pass
                    }
                },
                FsEvent::Failed { .. } => {
                    let a = FsAction::CopyFile {
                        src: crate::ops::clone_bytes(&f.src),
                        dst: crate::ops::clone_bytes(&f.target),
                    };
                    f.phase = MovePhase::FileCopying;
                    self.stack.push(f);
                    a
                },
                _ => self.fault(),
            },
            MovePhase::FileCopying => match ev {
                FsEvent::Completed => {
                    let a = FsAction::RemoveFile { path: crate::ops::clone_bytes(&f.src) };
                    f.phase = MovePhase::FileRemoving;
                    self.stack.push(f);
                    a
                },
                FsEvent::Failed { err } => self.abort(err),
                _ => self.fault(),
            },
            MovePhase::FileRemoving => match ev {
                FsEvent::Completed => {
                    if self.stack.len() == 0 {
                        self.finished = Some(Ok(()));
                        FsAction::Finish { result: Ok(()) }
                    } else {
                        FsAction::Pass
                    }
                },
                FsEvent::Failed { err } => self.abort(err),
                _ => self.fault(),
            },
            MovePhase::DirRenaming => match ev {
                FsEvent::Completed => {
                    if self.stack.len() == 0 {
                        self.finished = Some(Ok(()));
                        FsAction::Finish { result: Ok(()) }
                    } else {
                        FsAction::Pass
                    }
                },
                FsEvent::Failed { .. } => {
                    let a = FsAction::MakeDirAll { path: crate::ops::clone_bytes(&f.target) };
                    f.phase = MovePhase::Creating;
                    self.stack.push(f);
                    a
                },
                _ => self.fault(),
            },
            MovePhase::Creating => match ev {
                FsEvent::Completed => {
                    let a = FsAction::ListDir { path: crate::ops::clone_bytes(&f.src) };
                    f.phase = MovePhase::Listing;
                    self.stack.push(f);
                    a
                },
                FsEvent::Failed { err } => self.abort(err),
                _ => self.fault(),
            },
            MovePhase::Listing => match ev {
                FsEvent::Listed { entries } => {
                    f.entries = entries;
                    f.next = 0;
                    f.phase = MovePhase::Stepping;
                    self.stack.push(f);
                    FsAction::Pass
                },
                FsEvent::Failed { err } => self.abort(err),
                _ => self.fault(),
            },
            MovePhase::EntryRenaming => match ev {
                FsEvent::Completed => {
                    f.phase = MovePhase::Stepping;
                    self.stack.push(f);
                    FsAction::Pass
                },
                FsEvent::Failed { .. } => {
                    let a = FsAction::CopyFile {
                        src: crate::ops::clone_bytes(&f.pend_src),
                        dst: crate::ops::clone_bytes(&f.pend_dst),
                    };
                    f.phase = MovePhase::EntryCopying;
                    self.stack.push(f);
                    a
                },
                _ => self.fault(),
            },
            MovePhase::EntryCopying => match ev {
                FsEvent::Completed => {
                    let a = FsAction::RemoveFile { path: crate::ops::clone_bytes(&f.pend_src) };
                    f.phase = MovePhase::EntryRemoving;
                    self.stack.push(f);
                    a
                },
                FsEvent::Failed { err } => self.abort(err),
                _ => self.fault(),
            },
            MovePhase::EntryRemoving => match ev {
                FsEvent::Completed => {
                    f.phase = MovePhase::Stepping;
                    self.stack.push(f);
                    FsAction::Pass
                },
                FsEvent::Failed { err } => self.abort(err),
                _ => self.fault(),
            },
            MovePhase::Stepping => match ev {
                FsEvent::Completed => {
                    if f.next < f.entries.len() {
                        match f.entries[f.next].kind {
                            EntryKind::OtherKind => {
                                f.next = f.next + 1;
                                self.stack.push(f);
                                FsAction::Pass
                            },
                            EntryKind::RegularFile => {
                                let s = path_join(&f.src, &f.entries[f.next].name);
                                let d = path_join(&f.target, &f.entries[f.next].name);
                                let a = FsAction::Rename {
                                    src: crate::ops::clone_bytes(&s),
                                    dst: crate::ops::clone_bytes(&d),
                                };
                                f.pend_src = s;
                                f.pend_dst = d;
                                f.next = f.next + 1;
                                f.phase = MovePhase::EntryRenaming;
                                self.stack.push(f);
                                a
                            },
                            EntryKind::Directory => {
                                let csrc = path_join(&f.src, &f.entries[f.next].name);
                                let ctgt = path_join(&f.target, &f.entries[f.next].name);
                                let a = FsAction::Rename {
                                    src: crate::ops::clone_bytes(&csrc),
                                    dst: crate::ops::clone_bytes(&ctgt),
                                };
                                f.next = f.next + 1;
                                self.stack.push(f);
                                self.stack.push(
                                    MoveFrame {
                                        src: csrc,
                                        target: ctgt,
                                        entries: Vec::new(),
                                        next: 0,
                                        pend_src: Vec::new(),
                                        pend_dst: Vec::new(),
                                        phase: MovePhase::DirRenaming,
                                    },
                                );
                                a
                            },
                        }
                    } else {
                        let a = FsAction::RemoveDirAll { path: crate::ops::clone_bytes(&f.src) };
                        f.phase = MovePhase::Cleaning;
                        self.stack.push(f);
                        a
                    }
                },
                FsEvent::Failed { err } => self.abort(err),
                _ => self.fault(),
            },
            MovePhase::Cleaning => match ev {
                FsEvent::Completed => {
                    if self.stack.len() == 0 {
                        self.finished = Some(Ok(()));
                        FsAction::Finish { result: Ok(()) }
                    } else {
                        FsAction::Pass
                    }
                },
                FsEvent::Failed { err } => self.abort(err),
                _ => self.fault(),
            },
        }
    }
}

} // verus!
