//! The executable copy and move operations over the tree model.

use vstd::prelude::*;
use crate::model::{Node, Entry, FsError, on_vol, has_name, distinct_names, node_wf};
use crate::model::{copy_node_res, copy_seq_res, is_copy_of, seq_copy, partial_copy_of};
use crate::model::merged_names;
use crate::model::{move_node_res, move_seq_res, is_move_of, seq_move, move_leftover_of, others_of,
    partial_move_of};
use crate::model::{lemma_seq_copy_push, lemma_seq_copy_push_other, lemma_copy_seq_res_push_ok};
use crate::model::{lemma_seq_move_push, lemma_seq_move_push_other, lemma_move_seq_res_push_ok};
use crate::model::lemma_others_of_push;

verus! {

/// Byte-for-byte comparison of two names.
fn bytes_eq(a: &Vec<u8>, b: &Vec<u8>) -> (r: bool)
    ensures
        r == (a@ == b@),
{
    if a.len() != b.len() {
        return false;
    }
    let mut i: usize = 0;
    while i < a.len()
        invariant
            i <= a@.len(),
            a@.len() == b@.len(),
            forall|k: int| 0 <= k < i ==> a@[k] == b@[k],
        decreases a@.len() - i,
    {
        if a[i] != b[i] {
            return false;
        }
        i += 1;
    }
    proof {
        assert(a@ =~= b@);
    }
    true
}

/// A fresh vector with the same bytes.
pub(crate) fn clone_bytes(a: &Vec<u8>) -> (r: Vec<u8>)
    ensures
        r@ == a@,
{
    let mut r: Vec<u8> = Vec::new();
    let mut i: usize = 0;
    while i < a.len()
        invariant
            i <= a@.len(),
            r@ == a@.subrange(0, i as int),
        decreases a@.len() - i,
    {
        r.push(a[i]);
        proof {
            assert(r@ =~= a@.subrange(0, i + 1 as int));
        }
        i += 1;
    }
    proof {
        assert(r@ =~= a@);
    }
    r
}

/// The first entry of `es` named `name`, if any.
fn find_entry(es: &Vec<Entry>, name: &Vec<u8>) -> (r: Option<usize>)
    ensures
        match r {
            Some(i) => {
                &&& i < es@.len()
                &&& es@[i as int].name@ == name@
                &&& forall|k: int| 0 <= k < i ==> es@[k].name@ != name@
            },
            None => !has_name(es@, name@),
        },
{
    let mut i: usize = 0;
    while i < es.len()
        invariant
            i <= es@.len(),
            forall|k: int| 0 <= k < i ==> es@[k].name@ != name@,
        decreases es@.len() - i,
    {
        if bytes_eq(&es[i].name, name) {
            return Some(i);
        }
        i += 1;
    }
    None
}

/// Whether the whole tree lies on volume `v`; decides the atomic rename.
fn node_on_vol(n: &Node, v: u64) -> (r: bool)
    ensures
        r == on_vol(*n, v),
    decreases *n,
{
    match n {
        Node::File { vol, .. } => *vol == v,
        Node::Other { vol } => *vol == v,
        Node::Dir { vol, entries } => {
            if *vol != v {
                return false;
            }
            let mut i: usize = 0;
            while i < entries.len()
                invariant
                    i <= entries@.len(),
                    *n matches Node::Dir { vol: nv, entries: ne } && nv == v && ne == *entries,
                    forall|k: int| 0 <= k < i ==> on_vol(#[trigger] entries@[k].node, v),
                decreases entries@.len() - i,
            {
                if !node_on_vol(&entries[i].node, v) {
                    return false;
                }
                i += 1;
            }
            true
        },
    }
}

/// Copies `src` into the slot of a destination directory on volume `v` that
/// currently holds `existing` (`None` for a free slot), and returns the new
/// content of the slot together with the first error met, if any.
///
/// With a free slot this is exact: the error is `copy_node_res(src)` and on
/// success the slot holds a node satisfying `is_copy_of`.  A copied directory
/// is created before its entries are visited, so a failing directory copy
/// leaves the partially filled directory in the slot; a failing file copy
/// into a free slot leaves it free.  When the slot is occupied the operation
/// behaves as the filesystem would: a file overwrites a file, a directory
/// merges into a directory, and every other combination fails.
#[verifier::loop_isolation(false)]
fn copy_into(src: &Node, existing: Option<Node>, v: u64) -> (res: (Option<Node>, Option<FsError>))
    requires
        node_wf(*src),
    ensures
        existing is None ==> res.1 == copy_node_res(*src),
        existing is None && res.1 is None ==> (res.0 matches Some(o) && is_copy_of(*src, o, v)),
        existing is None && src is File && res.1 is Some ==> res.0 is None,
        existing is None && !(src is File) ==> (res.0 matches Some(o) && o matches Node::Dir {
            vol: ov,
            ..
        } && ov == v),
        existing is None && src is Other ==> (res.0 matches Some(o) && o matches Node::Dir {
            entries: oe,
            ..
        } && oe@.len() == 0),
        (match res.1 {
            Some(e) => existing is None && src is Dir ==> (res.0 matches Some(o)
                && partial_copy_of(*src, o, e, v)),
            None => true,
        }),
        (match existing {
            None => true,
            Some(ex) => {
                &&& (src is File && ex is File ==> (res.1 == copy_node_res(*src) && (res.1
                    is None ==> (res.0 matches Some(o) && is_copy_of(*src, o, v))) && (res.1
                    is Some ==> res.0 == existing)))
                &&& (src is File && ex is Dir ==> (res.0 == existing && res.1 == Some(
                    FsError::IsADirectory,
                )))
                &&& (src is File && ex is Other ==> (res.0 == existing && res.1 == Some(
                    FsError::NotADirectory,
                )))
                &&& (!(src is File) && !(ex is Dir) ==> res == (
                    existing,
                    Some(FsError::NotADirectory),
                ))
                &&& (src is Other && ex is Dir ==> res == (existing, Some(FsError::NotADirectory)))
                &&& (src is Dir && ex is Dir ==> (res.0 matches Some(o) && o matches Node::Dir {
                    vol: ov,
                    ..
                } && ov == ex->Dir_vol))
                &&& (src is Dir && ex is Dir && res.1 is None ==> (res.0 matches Some(o) && (o
                    matches Node::Dir { entries: oe, .. } && merged_names(
                    src->Dir_entries@,
                    ex->Dir_entries@,
                    oe@,
                ))))
            },
        }),
    decreases *src,
{
    match src {
        Node::File { readable, data, .. } => {
            match existing {
                Some(Node::Dir { vol, entries }) => (
                    Some(Node::Dir { vol, entries }),
                    Some(FsError::IsADirectory),
                ),
                Some(Node::Other { vol }) => (
                    Some(Node::Other { vol }),
                    Some(FsError::NotADirectory),
                ),
                ex => {
                    if !*readable {
                        (ex, Some(FsError::PermissionDenied))
                    } else {
                        (Some(Node::File { vol: v, readable: true, data: clone_bytes(data) }), None)
                    }
                },
            }
        },
        Node::Other { .. } => {
            match existing {
                Some(Node::Dir { vol, entries }) => (
                    Some(Node::Dir { vol, entries }),
                    Some(FsError::NotADirectory),
                ),
                Some(Node::File { vol, readable, data }) => (
                    Some(Node::File { vol, readable, data }),
                    Some(FsError::NotADirectory),
                ),
                Some(Node::Other { vol }) => (
                    Some(Node::Other { vol }),
                    Some(FsError::NotADirectory),
                ),
                None => (Some(Node::Dir { vol: v, entries: Vec::new() }), Some(
                    FsError::NotADirectory,
                )),
            }
        },
        Node::Dir { entries, .. } => {
            let ghost was_fresh = existing is None;
            let (mut acc, tvol): (Vec<Entry>, u64) = match existing {
                Some(Node::File { vol, readable, data }) => {
                    return (Some(Node::File { vol, readable, data }), Some(
                        FsError::NotADirectory,
                    ));
                },
                Some(Node::Other { vol }) => {
                    return (Some(Node::Other { vol }), Some(FsError::NotADirectory));
                },
                Some(Node::Dir { vol, entries: start }) => (start, vol),
                None => (Vec::new(), v),
            };
            let n = entries.len();
            let mut i: usize = 0;
            let ghost acc_start = acc@;
            proof {
                assert(entries@.skip(0) =~= entries@);
            }
            while i < n
                invariant
                    i <= n,
                    forall|k: int|
                        0 <= k < i && !(entries@[k].node is Other) ==> has_name(
                            acc@,
                            (#[trigger] entries@[k]).name@,
                        ),
                    forall|k: int|
                        0 <= k < acc_start.len() ==> has_name(
                            acc@,
                            (#[trigger] acc_start[k]).name@,
                        ),
                    forall|k: int|
                        0 <= k < acc@.len() ==> (has_name(acc_start, (#[trigger] acc@[k]).name@)
                            || exists|m: int| 0 <= m < i && acc@[k].name@ == entries@[m].name@),
                    was_fresh ==> seq_copy(entries@.subrange(0, i as int), acc@, v),
                    was_fresh ==> copy_seq_res(entries@) == copy_seq_res(entries@.skip(i as int)),
                    was_fresh ==> copy_seq_res(entries@.subrange(0, i as int)) is None,
                    was_fresh ==> forall|k: int|
                        0 <= k < acc@.len() ==> exists|m: int|
                            0 <= m < i && (#[trigger] acc@[k].name@) == entries@[m].name@,
                decreases n - i,
            {
                let ent = &entries[i];
                proof {
                    assert(node_wf(entries@[i as int].node));
                    assert(entries@.skip(i as int)[0] == entries@[i as int]);
                    assert(entries@.skip(i as int).drop_first() =~= entries@.skip(i + 1));
                }
                match &ent.node {
                    Node::Other { .. } => {
                        proof {
                            if was_fresh {
                                lemma_seq_copy_push_other(
                                    entries@.subrange(0, i as int),
                                    acc@,
                                    v,
                                    entries@[i as int],
                                );
                                lemma_copy_seq_res_push_ok(
                                    entries@.subrange(0, i as int),
                                    entries@[i as int],
                                );
                                assert(entries@.subrange(0, i as int).push(entries@[i as int])
                                    =~= entries@.subrange(0, i + 1));
                            }
                        }
                    },
                    _ => {
                        let ghost acc_top = acc@;
                        let idx = find_entry(&acc, &ent.name);
                        let child_ex: Option<Node> = match idx {
                            Some(j) => {
                                proof {
                                    if was_fresh {
                                        let k = j as int;
                                        let m = choose|m: int|
                                            0 <= m < i && acc@[k].name@ == entries@[m].name@;
                                        assert(entries@[m].name@ != entries@[i as int].name@);
                                        assert(false);
                                    }
                                }
                                let e = acc.remove(j);
                                Some(e.node)
                            },
                            None => None,
                        };
                        let (child_out, child_err) = copy_into(&ent.node, child_ex, v);
                        let nm = clone_bytes(&ent.name);
                        let ghost acc_before = acc@;
                        match child_out {
                            Some(o) => {
                                match idx {
                                    Some(j) => {
                                        acc.insert(j, Entry { name: nm, node: o });
                                    },
                                    None => {
                                        acc.push(Entry { name: nm, node: o });
                                    },
                                }
                            },
                            None => {},
                        }
                        match child_err {
                            Some(e) => {
                                proof {
                                    if was_fresh {
                                        assert(copy_seq_res(entries@.skip(i as int)) == Some(e));
                                        let m = acc_before.len() as int;
                                        assert(acc@.subrange(0, m) =~= acc_before);
                                    }
                                }
                                return (Some(Node::Dir { vol: tvol, entries: acc }), Some(e));
                            },
                            None => {
                                proof {
                                    if was_fresh {
                                        let oe = Entry {
                                            name: nm,
                                            node: child_out->0,
                                        };
                                        lemma_seq_copy_push(
                                            entries@.subrange(0, i as int),
                                            acc_before,
                                            v,
                                            entries@[i as int],
                                            oe,
                                        );
                                        lemma_copy_seq_res_push_ok(
                                            entries@.subrange(0, i as int),
                                            entries@[i as int],
                                        );
                                        assert(entries@.subrange(0, i as int).push(
                                            entries@[i as int],
                                        ) =~= entries@.subrange(0, i + 1));
                                        assert(acc@ == acc_before.push(oe));
                                    }
                                    // names bookkeeping: the slot named like the
                                    // current entry was filled or refreshed, every
                                    // other name stays where it was
                                    let i0 = i as int;
                                    match idx {
                                        Some(ju) => {
                                            let j = ju as int;
                                            assert(acc@.len() == acc_top.len());
                                            assert forall|k: int|
                                                0 <= k < acc@.len() implies acc@[k].name@
                                                == acc_top[k].name@ by {
                                                if k < j {
                                                    assert(acc@[k] == acc_before[k]);
                                                    assert(acc_before[k] == acc_top[k]);
                                                } else if k == j {
                                                    assert(acc@[k].name@ == nm@);
                                                } else {
                                                    assert(acc@[k] == acc_before[k - 1]);
                                                    assert(acc_before[k - 1] == acc_top[k]);
                                                }
                                            }
                                        },
                                        None => {
                                            assert(acc_before == acc_top);
                                            assert(acc@.len() == acc_top.len() + 1);
                                            assert(forall|k: int|
                                                0 <= k < acc_top.len() ==> acc@[k]
                                                    == acc_top[k]);
                                            assert(acc@[acc_top.len() as int].name@ == nm@);
                                        },
                                    }
                                    assert forall|k: int|
                                        0 <= k < i0 + 1 && !(entries@[k].node is Other)
                                            implies has_name(
                                        acc@,
                                        entries@[k].name@,
                                    ) by {
                                        if k < i0 {
                                            let w = choose|w: int|
                                                0 <= w < acc_top.len() && acc_top[w].name@
                                                    == entries@[k].name@;
                                            assert(acc@[w].name@ == entries@[k].name@);
                                        } else {
                                            let w = choose|w: int|
                                                0 <= w < acc@.len() && acc@[w].name@ == nm@;
                                            assert(acc@[w].name@ == entries@[i0].name@);
                                        }
                                    }
                                    assert forall|k: int|
                                        0 <= k < acc_start.len() implies has_name(
                                        acc@,
                                        acc_start[k].name@,
                                    ) by {
                                        let w = choose|w: int|
                                            0 <= w < acc_top.len() && acc_top[w].name@
                                                == acc_start[k].name@;
                                        assert(acc@[w].name@ == acc_start[k].name@);
                                    }
                                    assert forall|k: int|
                                        0 <= k < acc@.len() implies (has_name(
                                        acc_start,
                                        acc@[k].name@,
                                    ) || exists|m: int|
                                        0 <= m < i0 + 1 && acc@[k].name@
                                            == entries@[m].name@) by {
                                        if acc@[k].name@ == nm@ {
                                            assert(acc@[k].name@ == entries@[i0].name@);
                                        } else {
                                            assert(k < acc_top.len() && acc@[k].name@
                                                == acc_top[k].name@);
                                        }
                                    }
                                }
                            },
                        }
                    },
                }
                i += 1;
            }
            proof {
                if was_fresh {
                    assert(entries@.subrange(0, n as int) =~= entries@);
                    assert(entries@.skip(n as int) =~= Seq::<Entry>::empty());
                }
                assert forall|k: int|
                    0 <= k < acc@.len() implies (has_name(acc_start, acc@[k].name@) || has_name(
                    entries@,
                    acc@[k].name@,
                )) by {
                    if !has_name(acc_start, acc@[k].name@) {
                        let m = choose|m: int| 0 <= m < i && acc@[k].name@ == entries@[m].name@;
                        assert(entries@[m].name@ == acc@[k].name@);
                    }
                }
            }
            (Some(Node::Dir { vol: tvol, entries: acc }), None)
        },
    }
}

/// Recursively copies the tree `src` into the directory `dst`, placing the
/// result at the entry named `src_name` (the source's base name).
///
/// The destination is always treated as a parent directory, for regular
/// files as well as for directory trees: this is the one consistent
/// path-joining convention, chosen and documented here deliberately.  A
/// source without a base name is rejected with `InvalidInput` before the
/// destination is touched.  The source is only read, never altered.
///
/// With a free target name the outcome is exact: the call succeeds if and
/// only if `copy_node_res(src)` reports no error, and on success the
/// destination gains exactly one entry, named `src_name`, that `is_copy_of`
/// relates to the source.  On failure the entries copied before the first
/// error remain (no rollback).  An occupied target name behaves as the
/// filesystem would: a file overwrites a file, a directory merges into a
/// directory, every other combination fails; only the occupied entry is
/// affected, and its name keeps its position.
pub fn rust_copy(src_name: &Option<Vec<u8>>, src: &Node, dst: &mut Node) -> (r: Result<
    (),
    FsError,
>)
    requires
        node_wf(*src),
        *old(dst) is Dir,
    ensures
        *final(dst) is Dir,
        final(dst)->Dir_vol == old(dst)->Dir_vol,
        (match *src_name {
            None => r == Err::<(), FsError>(FsError::InvalidInput) && *final(dst) == *old(dst),
            Some(nm) => {
                let v = old(dst)->Dir_vol;
                if !has_name(old(dst)->Dir_entries@, nm@) {
                    &&& (r is Ok <==> copy_node_res(*src) is None)
                    &&& (r matches Err(e) ==> copy_node_res(*src) == Some(e))
                    &&& (r is Ok ==> exists|e: Entry|
                        {
                            &&& final(dst)->Dir_entries@ == old(dst)->Dir_entries@.push(e)
                            &&& e.name@ == nm@
                            &&& is_copy_of(*src, e.node, v)
                        })
                    &&& (r is Err && src is File ==> *final(dst) == *old(dst))
                    &&& (match r {
                        Err(e) => !(src is File) ==> exists|en: Entry|
                            {
                                &&& (#[trigger] old(dst)->Dir_entries@.push(en))
                                    == final(dst)->Dir_entries@
                                &&& en.name@ == nm@
                                &&& (src is Dir ==> partial_copy_of(*src, en.node, e, v))
                                &&& (src is Other ==> (en.node matches Node::Dir {
                                    vol: ov,
                                    entries: oe,
                                } && ov == v && oe@.len() == 0))
                            },
                        Ok(_) => true,
                    })
                    &&& old(dst)->Dir_entries@.is_prefix_of(final(dst)->Dir_entries@)
                    &&& final(dst)->Dir_entries@.len() <= old(dst)->Dir_entries@.len() + 1
                } else {
                    &&& final(dst)->Dir_entries@.len() == old(dst)->Dir_entries@.len()
                    &&& exists|j: int|
                        #![trigger old(dst)->Dir_entries@[j]]
                        {
                            let ex = old(dst)->Dir_entries@[j].node;
                            &&& 0 <= j < old(dst)->Dir_entries@.len()
                            &&& old(dst)->Dir_entries@[j].name@ == nm@
                            &&& forall|k: int|
                                0 <= k < j ==> old(dst)->Dir_entries@[k].name@ != nm@
                            &&& final(dst)->Dir_entries@ == old(dst)->Dir_entries@.update(
                                j,
                                final(dst)->Dir_entries@[j],
                            )
                            &&& final(dst)->Dir_entries@[j].name@ == nm@
                            &&& (src is File && ex is File ==> ((r is Ok <==> copy_node_res(*src)
                                is None) && (r matches Err(e) ==> copy_node_res(*src) == Some(e))))
                            &&& (r is Ok && src is File ==> is_copy_of(
                                *src,
                                final(dst)->Dir_entries@[j].node,
                                old(dst)->Dir_vol,
                            ))
                            &&& (src is File && ex is Dir ==> r == Err::<(), FsError>(
                                FsError::IsADirectory,
                            ))
                            &&& (src is File && ex is Other ==> r == Err::<(), FsError>(
                                FsError::NotADirectory,
                            ))
                            &&& (!(src is File) && !(ex is Dir) ==> r == Err::<(), FsError>(
                                FsError::NotADirectory,
                            ))
                            &&& (src is Other && ex is Dir ==> r == Err::<(), FsError>(
                                FsError::NotADirectory,
                            ))
                            &&& (r is Err && !(src is Dir && ex is Dir)
                                ==> final(dst)->Dir_entries@[j] == old(dst)->Dir_entries@[j])
                            &&& (src is Dir && ex is Dir ==> (final(dst)->Dir_entries@[j].node
                                matches Node::Dir { vol: ov, .. } && ov == ex->Dir_vol))
                            &&& (src is Dir && ex is Dir && r is Ok
                                ==> (final(dst)->Dir_entries@[j].node matches Node::Dir {
                                entries: oe,
                                ..
                            } && merged_names(src->Dir_entries@, ex->Dir_entries@, oe@)))
                        }
                }
            },
        }),
{
    let nm = match src_name {
        None => {
            return Err(FsError::InvalidInput);
        },
        Some(nm) => nm,
    };
    let mut taken = Node::Other { vol: 0 };
    core::mem::swap(dst, &mut taken);
    match taken {
        Node::Dir { vol, mut entries } => {
            let ghost entries0 = entries@;
            let idx = find_entry(&entries, nm);
            match idx {
                Some(j) => {
                    let e = entries.remove(j);
                    let held = e.name;
                    let (out, err) = copy_into(src, Some(e.node), vol);
                    match out {
                        Some(o) => {
                            entries.insert(j, Entry { name: held, node: o });
                        },
                        None => {
                            proof {
                                assert(false);
                            }
                        },
                    }
                    proof {
                        assert(entries@ =~= entries0.update(j as int, entries@[j as int]));
                    }
                    *dst = Node::Dir { vol, entries };
                    match err {
                        None => Ok(()),
                        Some(e) => Err(e),
                    }
                },
                None => {
                    let (out, err) = copy_into(src, None, vol);
                    match out {
                        Some(o) => {
                            entries.push(Entry { name: clone_bytes(nm), node: o });
                        },
                        None => {},
                    }
                    proof {
                        assert(entries0.is_prefix_of(entries@));
                    }
                    *dst = Node::Dir { vol, entries };
                    match err {
                        None => Ok(()),
                        Some(e) => Err(e),
                    }
                },
            }
        },
        taken => {
            proof {
                assert(false);
            }
            *dst = taken;
            Err(FsError::InvalidInput)
        },
    }
}

/// Why a move failed, together with what is left of the source.
///
/// A failing move is not atomic: entries relocated before the first error
/// stay relocated, and `leftover` holds what still remains of the source
/// tree (for a failing move of a single file, the whole file).
#[derive(Debug, PartialEq, Eq)]
pub struct MoveFailure {
    pub err: FsError,
    pub leftover: Option<Node>,
}

/// Moves `src` into the slot of a destination directory on volume `v` that
/// currently holds `existing` (`None` for a free slot).  Returns the new
/// slot content, what remains of the source, and the first error met.
///
/// The whole tree is first renamed atomically, which succeeds exactly when
/// the slot is free (or holds a file overwritten by a file) and the tree
/// lies wholly on `v`; the source then arrives unchanged.  Otherwise the
/// per-entry strategy runs: files are copied and deleted, directories are
/// rebuilt entry by entry and the emptied source directory is removed at
/// the end, dropping the entries of other kind that were skipped.
#[verifier::loop_isolation(false)]
fn move_into(src: Node, existing: Option<Node>, v: u64) -> (res: (
    Option<Node>,
    Option<Node>,
    Option<FsError>,
))
    requires
        node_wf(src),
    ensures
        existing is None ==> res.2 == move_node_res(src, v),
        existing is None && res.2 is None ==> (res.0 matches Some(o) && is_move_of(src, o, v)),
        res.2 is None ==> res.1 is None,
        res.2 is Some ==> res.1 is Some,
        existing is None && src is File && res.2 is Some ==> (res.0 is None && res.1 == Some(src)),
        existing is None && !(src is File) && res.2 is Some ==> (res.0 matches Some(o) && o matches
            Node::Dir { vol: ov, .. } && ov == v),
        existing is None && src is Other && res.2 is Some ==> (res.1 == Some(src) && (res.0 matches
            Some(o) && (o matches Node::Dir { entries: oe, .. } && oe@.len() == 0))),
        (match res.2 {
            Some(e) => existing is None && src is Dir ==> ((res.1 matches Some(l)
                && move_leftover_of(src, l, e, v)) && (res.0 matches Some(o) && partial_move_of(
                src,
                o,
                e,
                v,
            ))),
            None => true,
        }),
        (match existing {
            None => true,
            Some(ex) => {
                &&& (src is File && ex is File ==> (((src->File_vol == v || src->File_readable)
                    ==> (res.2 is None && (res.0 matches Some(o) && is_move_of(src, o, v)))) && (!(
                src->File_vol == v || src->File_readable) ==> res == (
                    existing,
                    Some(src),
                    Some(FsError::PermissionDenied),
                ))))
                &&& (src is File && ex is Dir ==> res == (
                    existing,
                    Some(src),
                    Some(FsError::IsADirectory),
                ))
                &&& (src is File && ex is Other ==> res == (
                    existing,
                    Some(src),
                    Some(FsError::NotADirectory),
                ))
                &&& (!(src is File) && !(ex is Dir) ==> res == (
                    existing,
                    Some(src),
                    Some(FsError::NotADirectory),
                ))
                &&& (src is Other && ex is Dir ==> res == (
                    existing,
                    Some(src),
                    Some(FsError::NotADirectory),
                ))
                &&& (src is Dir && ex is Dir ==> (res.0 matches Some(o) && o matches Node::Dir {
                    vol: ov,
                    ..
                } && ov == ex->Dir_vol))
                &&& (src is Dir && ex is Dir && res.2 is None ==> (res.0 matches Some(o) && (o
                    matches Node::Dir { entries: oe, .. } && merged_names(
                    src->Dir_entries@,
                    ex->Dir_entries@,
                    oe@,
                ))))
            },
        }),
    decreases src,
{
    let src_is_file: bool = match &src {
        Node::File { .. } => true,
        _ => false,
    };
    let ex_blocks: bool = match &existing {
        None => false,
        Some(Node::File { .. }) => !src_is_file,
        Some(_) => true,
    };
    if !ex_blocks && node_on_vol(&src, v) {
        return (Some(src), None, None);
    }
    match src {
        Node::File { vol, readable, data } => {
            match existing {
                Some(Node::Dir { vol: xv, entries: xe }) => (
                    Some(Node::Dir { vol: xv, entries: xe }),
                    Some(Node::File { vol, readable, data }),
                    Some(FsError::IsADirectory),
                ),
                Some(Node::Other { vol: xv }) => (
                    Some(Node::Other { vol: xv }),
                    Some(Node::File { vol, readable, data }),
                    Some(FsError::NotADirectory),
                ),
                ex => {
                    if readable {
                        (Some(Node::File { vol: v, readable: true, data }), None, None)
                    } else {
                        (ex, Some(Node::File { vol, readable, data }), Some(
                            FsError::PermissionDenied,
                        ))
                    }
                },
            }
        },
        Node::Other { vol } => {
            match existing {
                Some(Node::Dir { vol: xv, entries: xe }) => (
                    Some(Node::Dir { vol: xv, entries: xe }),
                    Some(Node::Other { vol }),
                    Some(FsError::NotADirectory),
                ),
                Some(Node::File { vol: xv, readable: xr, data: xd }) => (
                    Some(Node::File { vol: xv, readable: xr, data: xd }),
                    Some(Node::Other { vol }),
                    Some(FsError::NotADirectory),
                ),
                Some(Node::Other { vol: xv }) => (
                    Some(Node::Other { vol: xv }),
                    Some(Node::Other { vol }),
                    Some(FsError::NotADirectory),
                ),
                None => (Some(Node::Dir { vol: v, entries: Vec::new() }), Some(
                    Node::Other { vol },
                ), Some(FsError::NotADirectory)),
            }
        },
        Node::Dir { vol, entries } => {
            let ghost was_fresh = existing is None;
            let (mut acc, tvol): (Vec<Entry>, u64) = match existing {
                Some(Node::File { vol: xv, readable: xr, data: xd }) => {
                    return (Some(Node::File { vol: xv, readable: xr, data: xd }), Some(
                        Node::Dir { vol, entries },
                    ), Some(FsError::NotADirectory));
                },
                Some(Node::Other { vol: xv }) => {
                    return (Some(Node::Other { vol: xv }), Some(Node::Dir { vol, entries }), Some(
                        FsError::NotADirectory,
                    ));
                },
                Some(Node::Dir { vol: xv, entries: start }) => (start, xv),
                None => (Vec::new(), v),
            };
            let ghost orig = entries@;
            let ghost acc_start = acc@;
            proof {
                assert(distinct_names(orig));
                assert(orig.skip(0) =~= orig);
                assert(orig.subrange(0, 0) =~= Seq::<Entry>::empty());
            }
            let mut remaining = entries;
            let mut skipped: Vec<Entry> = Vec::new();
            let ghost mut i: int = 0;
            while remaining.len() > 0
                invariant
                    0 <= i <= orig.len(),
                    remaining@ == orig.skip(i),
                    skipped@ == others_of(orig.subrange(0, i)),
                    forall|k: int|
                        0 <= k < i && !(orig[k].node is Other) ==> has_name(
                            acc@,
                            (#[trigger] orig[k]).name@,
                        ),
                    forall|k: int|
                        0 <= k < acc_start.len() ==> has_name(
                            acc@,
                            (#[trigger] acc_start[k]).name@,
                        ),
                    forall|k: int|
                        0 <= k < acc@.len() ==> (has_name(acc_start, (#[trigger] acc@[k]).name@)
                            || exists|m: int| 0 <= m < i && acc@[k].name@ == orig[m].name@),
                    was_fresh ==> tvol == v,
                    was_fresh ==> seq_move(orig.subrange(0, i), acc@, v),
                    was_fresh ==> move_seq_res(orig, v) == move_seq_res(orig.skip(i), v),
                    was_fresh ==> move_seq_res(orig.subrange(0, i), v) is None,
                    was_fresh ==> forall|k: int|
                        0 <= k < acc@.len() ==> exists|m: int|
                            0 <= m < i && (#[trigger] acc@[k].name@) == orig[m].name@,
                decreases remaining@.len(),
            {
                proof {
                    assert(orig.skip(i)[0] == orig[i]);
                    assert(orig.skip(i).drop_first() =~= orig.skip(i + 1));
                    assert(node_wf(orig[i].node));
                }
                let ent = remaining.remove(0);
                proof {
                    assert(remaining@ =~= orig.skip(i + 1));
                }
                let Entry { name: cname, node: cnode } = ent;
                let child_is_other: bool = match &cnode {
                    Node::Other { .. } => true,
                    _ => false,
                };
                if child_is_other {
                    skipped.push(Entry { name: cname, node: cnode });
                    proof {
                        lemma_others_of_push(orig.subrange(0, i), orig[i]);
                        assert(orig.subrange(0, i).push(orig[i]) =~= orig.subrange(0, i + 1));
                        assert(skipped@.last() == orig[i]);
                        if was_fresh {
                            lemma_seq_move_push_other(orig.subrange(0, i), acc@, v, orig[i]);
                            lemma_move_seq_res_push_ok(orig.subrange(0, i), orig[i], v);
                        }
                        i = i + 1;
                    }
                } else {
                    let ghost acc_top = acc@;
                    let idx = find_entry(&acc, &cname);
                    let child_ex: Option<Node> = match idx {
                        Some(j) => {
                            proof {
                                if was_fresh {
                                    let k = j as int;
                                    let m = choose|m: int|
                                        0 <= m < i && acc@[k].name@ == orig[m].name@;
                                    assert(orig[m].name@ != orig[i].name@);
                                    assert(false);
                                }
                            }
                            let e = acc.remove(j);
                            Some(e.node)
                        },
                        None => None,
                    };
                    let name_for_left = clone_bytes(&cname);
                    let ghost acc_before = acc@;
                    let (child_out, child_left, child_err) = move_into(cnode, child_ex, v);
                    match child_out {
                        Some(o) => {
                            match idx {
                                Some(j) => {
                                    acc.insert(j, Entry { name: cname, node: o });
                                },
                                None => {
                                    acc.push(Entry { name: cname, node: o });
                                },
                            }
                        },
                        None => {},
                    }
                    match child_err {
                        Some(er) => {
                            let ghost skipped0 = skipped@;
                            let mut rest = skipped;
                            match child_left {
                                Some(l) => {
                                    rest.push(Entry { name: name_for_left, node: l });
                                },
                                None => {
                                    proof {
                                        assert(false);
                                    }
                                },
                            }
                            rest.append(&mut remaining);
                            proof {
                                if was_fresh {
                                    assert(move_seq_res(orig.skip(i), v) == Some(er));
                                    let m = acc_before.len() as int;
                                    assert(acc@.subrange(0, m) =~= acc_before);
                                    let p = skipped0.len() as int;
                                    assert(rest@.subrange(0, p) =~= skipped0);
                                    assert(rest@[p].name@ == orig[i].name@);
                                    assert(rest@.subrange(p + 1, rest@.len() as int) =~= orig.skip(
                                        i + 1,
                                    ));
                                }
                            }
                            return (Some(Node::Dir { vol: tvol, entries: acc }), Some(
                                Node::Dir { vol, entries: rest },
                            ), Some(er));
                        },
                        None => {
                            proof {
                                lemma_others_of_push(orig.subrange(0, i), orig[i]);
                                assert(orig.subrange(0, i).push(orig[i]) =~= orig.subrange(
                                    0,
                                    i + 1,
                                ));
                                if was_fresh {
                                    lemma_seq_move_push(
                                        orig.subrange(0, i),
                                        acc_before,
                                        v,
                                        orig[i],
                                        acc@.last(),
                                    );
                                    lemma_move_seq_res_push_ok(orig.subrange(0, i), orig[i], v);
                                    assert(acc@ =~= acc_before.push(acc@.last()));
                                }
                                // names bookkeeping for the merged directory
                                match idx {
                                    Some(ju) => {
                                        let j = ju as int;
                                        assert(acc@.len() == acc_top.len());
                                        assert forall|k: int|
                                            0 <= k < acc@.len() implies acc@[k].name@
                                            == acc_top[k].name@ by {
                                            if k < j {
                                                assert(acc@[k] == acc_before[k]);
                                                assert(acc_before[k] == acc_top[k]);
                                            } else if k == j {
                                                assert(acc@[k].name@ == cname@);
                                            } else {
                                                assert(acc@[k] == acc_before[k - 1]);
                                                assert(acc_before[k - 1] == acc_top[k]);
                                            }
                                        }
                                        assert(acc@[j].name@ == cname@);
                                        assert(has_name(acc@, cname@));
                                    },
                                    None => {
                                        assert(acc_before == acc_top);
                                        assert(acc@.len() == acc_top.len() + 1);
                                        assert(forall|k: int|
                                            0 <= k < acc_top.len() ==> acc@[k] == acc_top[k]);
                                        assert(acc@[acc_top.len() as int].name@ == cname@);
                                        assert(has_name(acc@, cname@));
                                    },
                                }
                                assert forall|k: int|
                                    0 <= k < i + 1 && !(orig[k].node is Other) implies has_name(
                                    acc@,
                                    orig[k].name@,
                                ) by {
                                    if k < i {
                                        let w = choose|w: int|
                                            0 <= w < acc_top.len() && acc_top[w].name@
                                                == orig[k].name@;
                                        assert(acc@[w].name@ == orig[k].name@);
                                    } else {
                                        assert(cname@ == orig[i].name@);
                                    }
                                }
                                assert forall|k: int|
                                    0 <= k < acc_start.len() implies has_name(
                                    acc@,
                                    acc_start[k].name@,
                                ) by {
                                    let w = choose|w: int|
                                        0 <= w < acc_top.len() && acc_top[w].name@
                                            == acc_start[k].name@;
                                    assert(acc@[w].name@ == acc_start[k].name@);
                                }
                                assert forall|k: int|
                                    0 <= k < acc@.len() implies (has_name(
                                    acc_start,
                                    acc@[k].name@,
                                ) || exists|m: int|
                                    0 <= m < i + 1 && acc@[k].name@ == orig[m].name@) by {
                                    if acc@[k].name@ == cname@ {
                                        assert(acc@[k].name@ == orig[i].name@);
                                    } else {
                                        assert(k < acc_top.len() && acc@[k].name@
                                            == acc_top[k].name@);
                                    }
                                }
                                i = i + 1;
                            }
                        },
                    }
                }
            }
            proof {
                if was_fresh {
                    assert(orig.subrange(0, orig.len() as int) =~= orig);
                    assert(orig.skip(orig.len() as int) =~= Seq::<Entry>::empty());
                }
                assert forall|k: int|
                    0 <= k < acc@.len() implies (has_name(acc_start, acc@[k].name@) || has_name(
                    orig,
                    acc@[k].name@,
                )) by {
                    if !has_name(acc_start, acc@[k].name@) {
                        let m = choose|m: int| 0 <= m < i && acc@[k].name@ == orig[m].name@;
                        assert(orig[m].name@ == acc@[k].name@);
                    }
                }
            }
            (Some(Node::Dir { vol: tvol, entries: acc }), None, None)
        },
    }
}

/// Relocates the tree `src` into the directory `dst` under the entry name
/// `src_name` (the source's base name), preferring one atomic rename of the
/// whole tree and falling back to a per-entry strategy when the rename is
/// not possible (source and destination on different volumes).
///
/// The destination is always treated as a parent directory, for regular
/// files as well as for directory trees — the same deliberate convention as
/// for `rust_copy`.  A source without a base name is rejected with
/// `InvalidInput` before anything is touched, and the source is handed back
/// unchanged in the failure's `leftover`.
///
/// With a free target name the outcome is exact: the call succeeds if and
/// only if `move_node_res(src, v)` reports no error (`v` the destination's
/// volume), and on success the destination gains exactly one entry, named
/// `src_name`, that `is_move_of` relates to the source; nothing of the
/// source remains.  In particular a tree lying wholly on the destination's
/// volume arrives entirely unchanged — the atomic rename path, which never
/// drops entries of other kind and never rebuilds anything.  A failing move
/// is not atomic: what was already relocated stays, and the failure carries
/// what remains of the source.
pub fn rust_move(src_name: &Option<Vec<u8>>, src: Node, dst: &mut Node) -> (r: Result<
    (),
    MoveFailure,
>)
    requires
        node_wf(src),
        *old(dst) is Dir,
    ensures
        *final(dst) is Dir,
        final(dst)->Dir_vol == old(dst)->Dir_vol,
        (match *src_name {
            None => (r matches Err(f) && f.err == FsError::InvalidInput && f.leftover == Some(src)
                && *final(dst) == *old(dst)),
            Some(nm) => {
                let v = old(dst)->Dir_vol;
                if !has_name(old(dst)->Dir_entries@, nm@) {
                    &&& (r is Ok <==> move_node_res(src, v) is None)
                    &&& (r matches Err(f) ==> move_node_res(src, v) == Some(f.err) && f.leftover
                        is Some)
                    &&& (r is Ok ==> exists|e: Entry|
                        {
                            &&& final(dst)->Dir_entries@ == old(dst)->Dir_entries@.push(e)
                            &&& e.name@ == nm@
                            &&& is_move_of(src, e.node, v)
                        })
                    &&& (r is Err && src is File ==> *final(dst) == *old(dst))
                    &&& (match r {
                        Err(f) => {
                            &&& ((src is File || src is Other) ==> f.leftover == Some(src))
                            &&& (src is Dir ==> (f.leftover matches Some(l) && move_leftover_of(
                                src,
                                l,
                                f.err,
                                v,
                            )))
                            &&& (!(src is File) ==> exists|en: Entry|
                                {
                                    &&& (#[trigger] old(dst)->Dir_entries@.push(en))
                                        == final(dst)->Dir_entries@
                                    &&& en.name@ == nm@
                                    &&& (src is Dir ==> partial_move_of(src, en.node, f.err, v))
                                    &&& (src is Other ==> (en.node matches Node::Dir {
                                        vol: ov,
                                        entries: oe,
                                    } && ov == v && oe@.len() == 0))
                                })
                        },
                        Ok(_) => true,
                    })
                    &&& old(dst)->Dir_entries@.is_prefix_of(final(dst)->Dir_entries@)
                    &&& final(dst)->Dir_entries@.len() <= old(dst)->Dir_entries@.len() + 1
                } else {
                    &&& final(dst)->Dir_entries@.len() == old(dst)->Dir_entries@.len()
                    &&& (r matches Err(f) ==> f.leftover is Some)
                    &&& exists|j: int|
                        #![trigger old(dst)->Dir_entries@[j]]
                        {
                            let ex = old(dst)->Dir_entries@[j].node;
                            &&& 0 <= j < old(dst)->Dir_entries@.len()
                            &&& old(dst)->Dir_entries@[j].name@ == nm@
                            &&& forall|k: int|
                                0 <= k < j ==> old(dst)->Dir_entries@[k].name@ != nm@
                            &&& final(dst)->Dir_entries@ == old(dst)->Dir_entries@.update(
                                j,
                                final(dst)->Dir_entries@[j],
                            )
                            &&& final(dst)->Dir_entries@[j].name@ == nm@
                            &&& (r is Ok && src is File ==> is_move_of(
                                src,
                                final(dst)->Dir_entries@[j].node,
                                v,
                            ))
                            &&& (src is File && ex is File ==> ((r is Ok <==> (src->File_vol == v
                                || src->File_readable)) && (r matches Err(f) ==> (f.err
                                == FsError::PermissionDenied && f.leftover == Some(src)))))
                            &&& (src is File && ex is Dir ==> (r matches Err(f) && f.err
                                == FsError::IsADirectory && f.leftover == Some(src)))
                            &&& (src is File && ex is Other ==> (r matches Err(f) && f.err
                                == FsError::NotADirectory && f.leftover == Some(src)))
                            &&& (!(src is File) && !(ex is Dir) ==> (r matches Err(f) && f.err
                                == FsError::NotADirectory && f.leftover == Some(src)))
                            &&& (src is Other && ex is Dir ==> (r matches Err(f) && f.err
                                == FsError::NotADirectory && f.leftover == Some(src)))
                            &&& (r is Err && !(src is Dir && ex is Dir)
                                ==> final(dst)->Dir_entries@[j] == old(dst)->Dir_entries@[j])
                            &&& (src is Dir && ex is Dir ==> (final(dst)->Dir_entries@[j].node
                                matches Node::Dir { vol: ov, .. } && ov == ex->Dir_vol))
                            &&& (src is Dir && ex is Dir && r is Ok
                                ==> (final(dst)->Dir_entries@[j].node matches Node::Dir {
                                entries: oe,
                                ..
                            } && merged_names(src->Dir_entries@, ex->Dir_entries@, oe@)))
                        }
                }
            },
        }),
{
    let nm = match src_name {
        None => {
            return Err(MoveFailure { err: FsError::InvalidInput, leftover: Some(src) });
        },
        Some(nm) => nm,
    };
    let mut taken = Node::Other { vol: 0 };
    core::mem::swap(dst, &mut taken);
    match taken {
        Node::Dir { vol, mut entries } => {
            let ghost entries0 = entries@;
            let idx = find_entry(&entries, nm);
            match idx {
                Some(j) => {
                    let e = entries.remove(j);
                    let held = e.name;
                    let (out, left, err) = move_into(src, Some(e.node), vol);
                    match out {
                        Some(o) => {
                            entries.insert(j, Entry { name: held, node: o });
                        },
                        None => {
                            proof {
                                assert(false);
                            }
                        },
                    }
                    proof {
                        assert(entries@ =~= entries0.update(j as int, entries@[j as int]));
                    }
                    *dst = Node::Dir { vol, entries };
                    match err {
                        None => Ok(()),
                        Some(er) => Err(MoveFailure { err: er, leftover: left }),
                    }
                },
                None => {
                    let (out, left, err) = move_into(src, None, vol);
                    match out {
                        Some(o) => {
                            entries.push(Entry { name: clone_bytes(nm), node: o });
                        },
                        None => {},
                    }
                    proof {
                        assert(entries0.is_prefix_of(entries@));
                    }
                    *dst = Node::Dir { vol, entries };
                    match err {
                        None => Ok(()),
                        Some(er) => Err(MoveFailure { err: er, leftover: left }),
                    }
                },
            }
        },
        taken => {
            proof {
                assert(false);
            }
            *dst = taken;
            Err(MoveFailure { err: FsError::InvalidInput, leftover: None })
        },
    }
}

} // verus!
