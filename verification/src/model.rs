//! The tree model of a filesystem and the spec-level relations that the
//! copy and move contracts are stated over.

use vstd::prelude::*;

verus! {

/// One entry of a directory tree.
///
/// A regular file holds the volume it lives on, whether the caller may read
/// it, and its bytes.  A directory holds its volume and its child entries in
/// directory-iteration order.  `Other` stands for every remaining kind of
/// filesystem object (symlink, socket, device): the operations classify such
/// entries but never copy them.
#[derive(Debug, PartialEq, Eq)]
pub enum Node {
    File { vol: u64, readable: bool, data: Vec<u8> },
    Dir { vol: u64, entries: Vec<Entry> },
    Other { vol: u64 },
}

/// A named child of a directory.
#[derive(Debug, PartialEq, Eq)]
pub struct Entry {
    pub name: Vec<u8>,
    pub node: Node,
}

/// The errors an operation can report.
///
/// `InvalidInput` is the naming error: the source has no base name under
/// which it could be placed in the destination directory.  The remaining
/// variants model the underlying filesystem failures: a file that may not be
/// read, a non-directory standing where a directory is needed (also reported
/// when the entries of a non-directory source are listed), and a directory
/// standing where a file is to be written.  `Io` is any other filesystem
/// failure, carried through from a traversal driver; the model operations
/// themselves never raise it.
#[derive(Debug, Clone, Copy, PartialEq, Eq, Structural)]
pub enum FsError {
    InvalidInput,
    PermissionDenied,
    NotADirectory,
    IsADirectory,
    Io,
}

impl FsError {
    /// A short description of the error.
    pub fn describe(&self) -> (r: &'static str)
        ensures
            r@ == match *self {
                FsError::InvalidInput => "source path has no base name"@,
                FsError::PermissionDenied => "permission denied"@,
                FsError::NotADirectory => "not a directory"@,
                FsError::IsADirectory => "is a directory"@,
                FsError::Io => "filesystem error"@,
            },
    {
        match self {
            FsError::InvalidInput => "source path has no base name",
            FsError::PermissionDenied => "permission denied",
            FsError::NotADirectory => "not a directory",
            FsError::IsADirectory => "is a directory",
            FsError::Io => "filesystem error",
        }
    }
}

/// Every file and directory of `n` lies on volume `v`.
///
/// An atomic rename of `n` into a directory on volume `v` succeeds exactly
/// when this holds of `n` and the target name is free.
pub open spec fn on_vol(n: Node, v: u64) -> bool
    decreases n,
{
    match n {
        Node::File { vol, .. } => vol == v,
        Node::Dir { vol, entries } => {
            &&& vol == v
            &&& forall|i: int|
                0 <= i < entries@.len() ==> on_vol(#[trigger] entries@[i].node, v)
        },
        Node::Other { vol } => vol == v,
    }
}

/// Some entry of `s` carries the name `name`.
pub open spec fn has_name(s: Seq<Entry>, name: Seq<u8>) -> bool {
    exists|i: int| 0 <= i < s.len() && s[i].name@ == name
}

/// No two entries of `s` share a name.
pub open spec fn distinct_names(s: Seq<Entry>) -> bool {
    forall|i: int, j: int|
        0 <= i < j < s.len() ==> s[i].name@ != s[j].name@
}

/// The tree is a valid directory tree: within every directory the entry
/// names are pairwise distinct, as they are on a real filesystem.
pub open spec fn node_wf(n: Node) -> bool
    decreases n,
{
    match n {
        Node::Dir { entries, .. } => {
            &&& distinct_names(entries@)
            &&& forall|i: int|
                0 <= i < entries@.len() ==> node_wf(#[trigger] entries@[i].node)
        },
        _ => true,
    }
}

/// What copying `n` into a fresh slot reports: `None` for success, otherwise
/// the first error the traversal meets.
///
/// A file must be readable; a directory succeeds when every entry does,
/// entries of other kind being skipped; a source that is itself of other
/// kind is treated as a directory whose entries cannot be listed.
pub open spec fn copy_node_res(n: Node) -> Option<FsError>
    decreases n,
{
    match n {
        Node::File { readable, .. } => if readable {
            None
        } else {
            Some(FsError::PermissionDenied)
        },
        Node::Dir { entries, .. } => copy_seq_res(entries@),
        Node::Other { .. } => Some(FsError::NotADirectory),
    }
}

/// The first error met while copying the entries `s` in order, skipping
/// entries of other kind; `None` when every entry succeeds.
pub open spec fn copy_seq_res(s: Seq<Entry>) -> Option<FsError>
    decreases s,
{
    if s.len() == 0 {
        None
    } else if s[0].node is Other {
        copy_seq_res(s.drop_first())
    } else {
        match copy_node_res(s[0].node) {
            Some(e) => Some(e),
            None => copy_seq_res(s.drop_first()),
        }
    }
}

/// `out` is exactly what copying `src` onto volume `v` produces: files keep
/// their bytes and become readable files on `v`, directories mirror their
/// entries in order with entries of other kind dropped.
pub open spec fn is_copy_of(src: Node, out: Node, v: u64) -> bool
    decreases src,
{
    match src {
        Node::File { readable, data, .. } => {
            &&& readable
            &&& out matches Node::File { vol: ov, readable: ord, data: od }
            &&& ov == v
            &&& ord == true
            &&& od@ == data@
        },
        Node::Dir { entries, .. } => {
            &&& out matches Node::Dir { vol: ov, entries: oe }
            &&& ov == v
            &&& seq_copy(entries@, oe@, v)
        },
        Node::Other { .. } => false,
    }
}

/// `o` is the copy of the entry sequence `s` onto volume `v`: the entries of
/// other kind are dropped, every remaining entry keeps its name and position
/// and its node satisfies `is_copy_of`.
pub open spec fn seq_copy(s: Seq<Entry>, o: Seq<Entry>, v: u64) -> bool
    decreases s,
{
    if s.len() == 0 {
        o.len() == 0
    } else if s[0].node is Other {
        seq_copy(s.drop_first(), o, v)
    } else {
        &&& o.len() > 0
        &&& o[0].name@ == s[0].name@
        &&& is_copy_of(s[0].node, o[0].node, v)
        &&& seq_copy(s.drop_first(), o.drop_first(), v)
    }
}

/// What moving `n` into a fresh slot of a directory on volume `v` reports.
///
/// A tree lying wholly on `v` is renamed and always succeeds.  Otherwise the
/// per-entry strategy runs: a file is copied and must be readable, a
/// directory succeeds when every entry does (entries of other kind being
/// skipped), and a source of other kind fails once its entries are listed.
pub open spec fn move_node_res(n: Node, v: u64) -> Option<FsError>
    decreases n,
{
    if on_vol(n, v) {
        None
    } else {
        match n {
            Node::File { readable, .. } => if readable {
                None
            } else {
                Some(FsError::PermissionDenied)
            },
            Node::Dir { entries, .. } => move_seq_res(entries@, v),
            Node::Other { .. } => Some(FsError::NotADirectory),
        }
    }
}

/// The first error met while moving the entries `s` in order to volume `v`,
/// skipping entries of other kind; `None` when every entry succeeds.
pub open spec fn move_seq_res(s: Seq<Entry>, v: u64) -> Option<FsError>
    decreases s,
{
    if s.len() == 0 {
        None
    } else if s[0].node is Other {
        move_seq_res(s.drop_first(), v)
    } else {
        match move_node_res(s[0].node, v) {
            Some(e) => Some(e),
            None => move_seq_res(s.drop_first(), v),
        }
    }
}

/// `out` is exactly what moving `src` into a directory on volume `v`
/// produces.  A tree wholly on `v` arrives unchanged, by one atomic rename.
/// Otherwise files are copied byte for byte onto `v` and directories are
/// rebuilt entry by entry, entries of other kind being dropped.
pub open spec fn is_move_of(src: Node, out: Node, v: u64) -> bool
    decreases src,
{
    if on_vol(src, v) {
        out == src
    } else {
        match src {
            Node::File { readable, data, .. } => {
                &&& readable
                &&& out matches Node::File { vol: ov, readable: ord, data: od }
                &&& ov == v
                &&& ord == true
                &&& od@ == data@
            },
            Node::Dir { entries, .. } => {
                &&& out matches Node::Dir { vol: ov, entries: oe }
                &&& ov == v
                &&& seq_move(entries@, oe@, v)
            },
            Node::Other { .. } => false,
        }
    }
}

/// `o` is what moving the entry sequence `s` to volume `v` leaves in the
/// target directory: entries of other kind are dropped, every remaining
/// entry keeps its name and position and its node satisfies `is_move_of`.
pub open spec fn seq_move(s: Seq<Entry>, o: Seq<Entry>, v: u64) -> bool
    decreases s,
{
    if s.len() == 0 {
        o.len() == 0
    } else if s[0].node is Other {
        seq_move(s.drop_first(), o, v)
    } else {
        &&& o.len() > 0
        &&& o[0].name@ == s[0].name@
        &&& is_move_of(s[0].node, o[0].node, v)
        &&& seq_move(s.drop_first(), o.drop_first(), v)
    }
}

/// The entries of other kind of `s`, in order.
pub open spec fn others_of(s: Seq<Entry>) -> Seq<Entry>
    decreases s,
{
    if s.len() == 0 {
        s
    } else if s[0].node is Other {
        seq![s[0]] + others_of(s.drop_first())
    } else {
        others_of(s.drop_first())
    }
}

/// The observable residue of a directory copy that failed partway: the
/// target directory exists on the destination volume and holds, in order,
/// the copies of the entries that preceded the first failing one — possibly
/// followed by the partial content of the failing entry itself, under its
/// name.
pub open spec fn partial_copy_of(src: Node, out: Node, e: FsError, v: u64) -> bool {
    match (src, out) {
        (Node::Dir { entries: se, .. }, Node::Dir { vol: ov, entries: oe }) => {
            &&& ov == v
            &&& exists|k: int, m: int|
                #![trigger se@.subrange(0, k), oe@.subrange(0, m)]
                {
                    &&& 0 <= k < se@.len()
                    &&& !(se@[k].node is Other)
                    &&& copy_node_res(se@[k].node) == Some(e)
                    &&& copy_seq_res(se@.subrange(0, k)) is None
                    &&& 0 <= m <= oe@.len()
                    &&& oe@.len() <= m + 1
                    &&& seq_copy(se@.subrange(0, k), oe@.subrange(0, m), v)
                    &&& (oe@.len() == m + 1 ==> oe@[m].name@ == se@[k].name@)
                }
        },
        _ => false,
    }
}

/// The observable residue on the destination side of a directory move that
/// failed partway: the target directory exists on the destination volume
/// and holds, in order, the moved images of the entries that preceded the
/// first failing one — possibly followed by the partial content of the
/// failing entry itself, under its name.
pub open spec fn partial_move_of(src: Node, out: Node, e: FsError, v: u64) -> bool {
    match (src, out) {
        (Node::Dir { entries: se, .. }, Node::Dir { vol: ov, entries: oe }) => {
            &&& ov == v
            &&& exists|k: int, m: int|
                #![trigger se@.subrange(0, k), oe@.subrange(0, m)]
                {
                    &&& 0 <= k < se@.len()
                    &&& !(se@[k].node is Other)
                    &&& move_node_res(se@[k].node, v) == Some(e)
                    &&& move_seq_res(se@.subrange(0, k), v) is None
                    &&& 0 <= m <= oe@.len()
                    &&& oe@.len() <= m + 1
                    &&& seq_move(se@.subrange(0, k), oe@.subrange(0, m), v)
                    &&& (oe@.len() == m + 1 ==> oe@[m].name@ == se@[k].name@)
                }
        },
        _ => false,
    }
}

/// What remains of a directory source whose move failed partway: the
/// source directory still stands on its own volume and holds, in order, the
/// entries of other kind skipped before the first failing entry, then what
/// remains of the failing entry under its name, then every entry that was
/// never reached.
pub open spec fn move_leftover_of(src: Node, l: Node, e: FsError, v: u64) -> bool {
    match (src, l) {
        (Node::Dir { vol: sv, entries: se }, Node::Dir { vol: lv, entries: le }) => {
            &&& lv == sv
            &&& exists|k: int|
                #![trigger se@.subrange(0, k)]
                {
                    let pre = others_of(se@.subrange(0, k));
                    &&& 0 <= k < se@.len()
                    &&& !(se@[k].node is Other)
                    &&& move_node_res(se@[k].node, v) == Some(e)
                    &&& move_seq_res(se@.subrange(0, k), v) is None
                    &&& le@.len() == pre.len() + 1 + (se@.len() - k - 1)
                    &&& le@.subrange(0, pre.len() as int) == pre
                    &&& le@[pre.len() as int].name@ == se@[k].name@
                    &&& le@.subrange(pre.len() + 1 as int, le@.len() as int) == se@.skip(k + 1)
                }
        },
        _ => false,
    }
}

/// The name space a directory merge produces: every source entry that is
/// not of other kind stands in the result under its name, every entry that
/// was already there survives, and no other name appears.
pub open spec fn merged_names(s: Seq<Entry>, before: Seq<Entry>, after: Seq<Entry>) -> bool {
    &&& forall|k: int|
        0 <= k < s.len() && !(s[k].node is Other) ==> has_name(after, (#[trigger] s[k]).name@)
    &&& forall|k: int| 0 <= k < before.len() ==> has_name(after, (#[trigger] before[k]).name@)
    &&& forall|k: int|
        0 <= k < after.len() ==> (has_name(before, (#[trigger] after[k]).name@) || has_name(
            s,
            after[k].name@,
        ))
}

/// Appending an entry that is skipped or succeeds keeps a copy of the
/// sequence successful.
pub(crate) proof fn lemma_copy_seq_res_push_ok(s: Seq<Entry>, e: Entry)
    requires
        copy_seq_res(s) is None,
        e.node is Other || copy_node_res(e.node) is None,
    ensures
        copy_seq_res(s.push(e)) is None,
    decreases s.len(),
{
    if s.len() == 0 {
        assert(s.push(e).drop_first() =~= s);
    } else {
        lemma_copy_seq_res_push_ok(s.drop_first(), e);
        assert(s.push(e).drop_first() =~= s.drop_first().push(e));
    }
}

/// Appending an entry that is skipped or succeeds keeps a move of the
/// sequence successful.
pub(crate) proof fn lemma_move_seq_res_push_ok(s: Seq<Entry>, e: Entry, v: u64)
    requires
        move_seq_res(s, v) is None,
        e.node is Other || move_node_res(e.node, v) is None,
    ensures
        move_seq_res(s.push(e), v) is None,
    decreases s.len(),
{
    if s.len() == 0 {
        assert(s.push(e).drop_first() =~= s);
    } else {
        lemma_move_seq_res_push_ok(s.drop_first(), e, v);
        assert(s.push(e).drop_first() =~= s.drop_first().push(e));
    }
}

/// Appending an entry extends the other-kind entries exactly when it is one
/// of them.
pub(crate) proof fn lemma_others_of_push(s: Seq<Entry>, e: Entry)
    ensures
        others_of(s.push(e)) == if e.node is Other {
            others_of(s).push(e)
        } else {
            others_of(s)
        },
    decreases s.len(),
{
    if s.len() == 0 {
        assert(s.push(e).drop_first() =~= s);
        if e.node is Other {
            assert(seq![s.push(e)[0]] + others_of(s) =~= others_of(s).push(e));
        }
    } else {
        lemma_others_of_push(s.drop_first(), e);
        assert(s.push(e).drop_first() =~= s.drop_first().push(e));
        if s[0].node is Other {
            if e.node is Other {
                assert(seq![s[0]] + others_of(s.drop_first()).push(e) =~= (seq![s[0]]
                    + others_of(s.drop_first())).push(e));
            }
        }
    }
}

/// Appending a source entry of other kind leaves the copy of the sequence
/// unchanged: such entries are skipped.
pub(crate) proof fn lemma_seq_copy_push_other(s: Seq<Entry>, o: Seq<Entry>, v: u64, e: Entry)
    requires
        seq_copy(s, o, v),
        e.node is Other,
    ensures
        seq_copy(s.push(e), o, v),
    decreases s.len(),
{
    if s.len() == 0 {
        assert(s.push(e).drop_first() =~= s);
    } else if s[0].node is Other {
        lemma_seq_copy_push_other(s.drop_first(), o, v, e);
        assert(s.push(e).drop_first() =~= s.drop_first().push(e));
    } else {
        lemma_seq_copy_push_other(s.drop_first(), o.drop_first(), v, e);
        assert(s.push(e).drop_first() =~= s.drop_first().push(e));
    }
}

/// Appending a copied entry to both sequences preserves the copy relation.
pub(crate) proof fn lemma_seq_copy_push(s: Seq<Entry>, o: Seq<Entry>, v: u64, e: Entry, oe: Entry)
    requires
        seq_copy(s, o, v),
        !(e.node is Other),
        oe.name@ == e.name@,
        is_copy_of(e.node, oe.node, v),
    ensures
        seq_copy(s.push(e), o.push(oe), v),
    decreases s.len(),
{
    if s.len() == 0 {
        assert(s.push(e).drop_first() =~= s);
        assert(o.push(oe).drop_first() =~= o);
    } else if s[0].node is Other {
        lemma_seq_copy_push(s.drop_first(), o, v, e, oe);
        assert(s.push(e).drop_first() =~= s.drop_first().push(e));
    } else {
        lemma_seq_copy_push(s.drop_first(), o.drop_first(), v, e, oe);
        assert(s.push(e).drop_first() =~= s.drop_first().push(e));
        assert(o.push(oe).drop_first() =~= o.drop_first().push(oe));
    }
}

/// Appending a source entry of other kind leaves the move image of the
/// sequence unchanged: such entries are skipped.
pub(crate) proof fn lemma_seq_move_push_other(s: Seq<Entry>, o: Seq<Entry>, v: u64, e: Entry)
    requires
        seq_move(s, o, v),
        e.node is Other,
    ensures
        seq_move(s.push(e), o, v),
    decreases s.len(),
{
    if s.len() == 0 {
        assert(s.push(e).drop_first() =~= s);
    } else if s[0].node is Other {
        lemma_seq_move_push_other(s.drop_first(), o, v, e);
        assert(s.push(e).drop_first() =~= s.drop_first().push(e));
    } else {
        lemma_seq_move_push_other(s.drop_first(), o.drop_first(), v, e);
        assert(s.push(e).drop_first() =~= s.drop_first().push(e));
    }
}

/// Appending a moved entry to both sequences preserves the move relation.
pub(crate) proof fn lemma_seq_move_push(s: Seq<Entry>, o: Seq<Entry>, v: u64, e: Entry, oe: Entry)
    requires
        seq_move(s, o, v),
        !(e.node is Other),
        oe.name@ == e.name@,
        is_move_of(e.node, oe.node, v),
    ensures
        seq_move(s.push(e), o.push(oe), v),
    decreases s.len(),
{
    if s.len() == 0 {
        assert(s.push(e).drop_first() =~= s);
        assert(o.push(oe).drop_first() =~= o);
    } else if s[0].node is Other {
        lemma_seq_move_push(s.drop_first(), o, v, e, oe);
        assert(s.push(e).drop_first() =~= s.drop_first().push(e));
    } else {
        lemma_seq_move_push(s.drop_first(), o.drop_first(), v, e, oe);
        assert(s.push(e).drop_first() =~= s.drop_first().push(e));
        assert(o.push(oe).drop_first() =~= o.drop_first().push(oe));
    }
}

} // verus!
