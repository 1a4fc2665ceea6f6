//! Proved properties that relate the copy and move relations, beyond what
//! the operations' own contracts state.

use vstd::prelude::*;
use crate::model::{Node, Entry, on_vol, has_name, distinct_names, node_wf};
use crate::model::{is_copy_of, seq_copy, is_move_of, seq_move, move_node_res};

verus! {

/// A copy of a regular file holds byte-identical content to the original,
/// and the original is untouched: `rust_copy` only ever borrows its source.
pub proof fn lemma_copy_preserves_file_bytes(src: Node, out: Node, v: u64)
    requires
        src is File,
        is_copy_of(src, out, v),
    ensures
        out matches Node::File { data: od, .. } && od@ == src->File_data@,
{
}

/// Everything a copy produces lies on the destination's volume.
pub proof fn lemma_copy_lands_on_volume(src: Node, out: Node, v: u64)
    requires
        is_copy_of(src, out, v),
    ensures
        on_vol(out, v),
    decreases src,
{
    match src {
        Node::Dir { entries, .. } => {
            lemma_seq_copy_lands_on_volume(entries@, out->Dir_entries@, v);
        },
        _ => {},
    }
}

/// Every entry of a copied entry sequence lies on the destination's volume.
pub proof fn lemma_seq_copy_lands_on_volume(s: Seq<Entry>, o: Seq<Entry>, v: u64)
    requires
        seq_copy(s, o, v),
    ensures
        forall|k: int| 0 <= k < o.len() ==> on_vol(#[trigger] o[k].node, v),
    decreases s,
{
    if s.len() == 0 {
    } else if s[0].node is Other {
        lemma_seq_copy_lands_on_volume(s.drop_first(), o, v);
    } else {
        lemma_copy_lands_on_volume(s[0].node, o[0].node, v);
        lemma_seq_copy_lands_on_volume(s.drop_first(), o.drop_first(), v);
        assert forall|k: int| 0 <= k < o.len() implies on_vol(#[trigger] o[k].node, v) by {
            if k > 0 {
                assert(o[k] == o.drop_first()[k - 1]);
            }
        }
    }
}

/// Everything a move delivers lies on the destination's volume.
pub proof fn lemma_move_lands_on_volume(src: Node, out: Node, v: u64)
    requires
        is_move_of(src, out, v),
    ensures
        on_vol(out, v),
    decreases src,
{
    if on_vol(src, v) {
    } else {
        match src {
            Node::Dir { entries, .. } => {
                lemma_seq_move_lands_on_volume(entries@, out->Dir_entries@, v);
            },
            _ => {},
        }
    }
}

/// Every entry of a moved entry sequence lies on the destination's volume.
pub proof fn lemma_seq_move_lands_on_volume(s: Seq<Entry>, o: Seq<Entry>, v: u64)
    requires
        seq_move(s, o, v),
    ensures
        forall|k: int| 0 <= k < o.len() ==> on_vol(#[trigger] o[k].node, v),
    decreases s,
{
    if s.len() == 0 {
    } else if s[0].node is Other {
        lemma_seq_move_lands_on_volume(s.drop_first(), o, v);
    } else {
        lemma_move_lands_on_volume(s[0].node, o[0].node, v);
        lemma_seq_move_lands_on_volume(s.drop_first(), o.drop_first(), v);
        assert forall|k: int| 0 <= k < o.len() implies on_vol(#[trigger] o[k].node, v) by {
            if k > 0 {
                assert(o[k] == o.drop_first()[k - 1]);
            }
        }
    }
}

/// A copy of a valid directory tree is itself a valid directory tree: entry
/// names stay pairwise distinct in every directory.
pub proof fn lemma_copy_preserves_wf(src: Node, out: Node, v: u64)
    requires
        node_wf(src),
        is_copy_of(src, out, v),
    ensures
        node_wf(out),
    decreases src,
{
    match src {
        Node::Dir { entries, .. } => {
            lemma_seq_copy_preserves_wf(entries@, out->Dir_entries@, v);
        },
        _ => {},
    }
}

/// Entry names of a copied entry sequence come from the source and stay
/// pairwise distinct; the copied children are valid trees.
pub proof fn lemma_seq_copy_preserves_wf(s: Seq<Entry>, o: Seq<Entry>, v: u64)
    requires
        seq_copy(s, o, v),
        distinct_names(s),
        forall|k: int| 0 <= k < s.len() ==> node_wf(#[trigger] s[k].node),
    ensures
        distinct_names(o),
        forall|k: int| 0 <= k < o.len() ==> node_wf(#[trigger] o[k].node),
        forall|k: int| 0 <= k < o.len() ==> has_name(s, #[trigger] o[k].name@),
    decreases s,
{
    if s.len() == 0 {
    } else {
        let tail = s.drop_first();
        assert forall|i: int, j: int| 0 <= i < j < tail.len() implies tail[i].name@
            != tail[j].name@ by {
            assert(tail[i] == s[i + 1]);
            assert(tail[j] == s[j + 1]);
        }
        assert(forall|k: int| 0 <= k < tail.len() ==> node_wf(#[trigger] tail[k].node));
        if s[0].node is Other {
            lemma_seq_copy_preserves_wf(tail, o, v);
            assert forall|k: int| 0 <= k < o.len() implies has_name(s, #[trigger] o[k].name@) by {
                let m = choose|m: int| 0 <= m < tail.len() && tail[m].name@ == o[k].name@;
                assert(s[m + 1].name@ == o[k].name@);
            }
        } else {
            lemma_copy_preserves_wf(s[0].node, o[0].node, v);
            lemma_seq_copy_preserves_wf(tail, o.drop_first(), v);
            assert forall|k: int| 0 <= k < o.len() implies has_name(s, #[trigger] o[k].name@) by {
                if k == 0 {
                    assert(s[0].name@ == o[0].name@);
                } else {
                    assert(o.drop_first()[k - 1] == o[k]);
                    let m = choose|m: int|
                        0 <= m < tail.len() && tail[m].name@ == o.drop_first()[k - 1].name@;
                    assert(s[m + 1].name@ == o[k].name@);
                }
            }
            assert forall|k: int| 0 <= k < o.len() implies node_wf(#[trigger] o[k].node) by {
                if k > 0 {
                    assert(o.drop_first()[k - 1] == o[k]);
                }
            }
            assert forall|i: int, j: int| 0 <= i < j < o.len() implies o[i].name@
                != o[j].name@ by {
                if i == 0 {
                    assert(o.drop_first()[j - 1] == o[j]);
                    let m = choose|m: int|
                        0 <= m < tail.len() && tail[m].name@ == o.drop_first()[j - 1].name@;
                    assert(s[m + 1].name@ == o[j].name@);
                    assert(s[0].name@ != s[m + 1].name@);
                } else {
                    assert(o.drop_first()[i - 1] == o[i]);
                    assert(o.drop_first()[j - 1] == o[j]);
                }
            }
        }
    }
}

/// A move delivers a valid directory tree: entry names stay pairwise
/// distinct in every directory.
pub proof fn lemma_move_preserves_wf(src: Node, out: Node, v: u64)
    requires
        node_wf(src),
        is_move_of(src, out, v),
    ensures
        node_wf(out),
    decreases src,
{
    if on_vol(src, v) {
    } else {
        match src {
            Node::Dir { entries, .. } => {
                lemma_seq_move_preserves_wf(entries@, out->Dir_entries@, v);
            },
            _ => {},
        }
    }
}

/// Entry names of a moved entry sequence come from the source and stay
/// pairwise distinct; the delivered children are valid trees.
pub proof fn lemma_seq_move_preserves_wf(s: Seq<Entry>, o: Seq<Entry>, v: u64)
    requires
        seq_move(s, o, v),
        distinct_names(s),
        forall|k: int| 0 <= k < s.len() ==> node_wf(#[trigger] s[k].node),
    ensures
        distinct_names(o),
        forall|k: int| 0 <= k < o.len() ==> node_wf(#[trigger] o[k].node),
        forall|k: int| 0 <= k < o.len() ==> has_name(s, #[trigger] o[k].name@),
    decreases s,
{
    if s.len() == 0 {
    } else {
        let tail = s.drop_first();
        assert forall|i: int, j: int| 0 <= i < j < tail.len() implies tail[i].name@
            != tail[j].name@ by {
            assert(tail[i] == s[i + 1]);
            assert(tail[j] == s[j + 1]);
        }
        assert(forall|k: int| 0 <= k < tail.len() ==> node_wf(#[trigger] tail[k].node));
        if s[0].node is Other {
            lemma_seq_move_preserves_wf(tail, o, v);
            assert forall|k: int| 0 <= k < o.len() implies has_name(s, #[trigger] o[k].name@) by {
                let m = choose|m: int| 0 <= m < tail.len() && tail[m].name@ == o[k].name@;
                assert(s[m + 1].name@ == o[k].name@);
            }
        } else {
            lemma_move_preserves_wf(s[0].node, o[0].node, v);
            lemma_seq_move_preserves_wf(tail, o.drop_first(), v);
            assert forall|k: int| 0 <= k < o.len() implies has_name(s, #[trigger] o[k].name@) by {
                if k == 0 {
                    assert(s[0].name@ == o[0].name@);
                } else {
                    assert(o.drop_first()[k - 1] == o[k]);
                    let m = choose|m: int|
                        0 <= m < tail.len() && tail[m].name@ == o.drop_first()[k - 1].name@;
                    assert(s[m + 1].name@ == o[k].name@);
                }
            }
            assert forall|k: int| 0 <= k < o.len() implies node_wf(#[trigger] o[k].node) by {
                if k > 0 {
                    assert(o.drop_first()[k - 1] == o[k]);
                }
            }
            assert forall|i: int, j: int| 0 <= i < j < o.len() implies o[i].name@
                != o[j].name@ by {
                if i == 0 {
                    assert(o.drop_first()[j - 1] == o[j]);
                    let m = choose|m: int|
                        0 <= m < tail.len() && tail[m].name@ == o.drop_first()[j - 1].name@;
                    assert(s[m + 1].name@ == o[j].name@);
                    assert(s[0].name@ != s[m + 1].name@);
                } else {
                    assert(o.drop_first()[i - 1] == o[i]);
                    assert(o.drop_first()[j - 1] == o[j]);
                }
            }
        }
    }
}

/// No file or directory of `n`, and no entry of other kind, lies on volume
/// `v`: every rename into a directory on `v` would fail.
pub open spec fn off_vol(n: Node, v: u64) -> bool
    decreases n,
{
    match n {
        Node::File { vol, .. } => vol != v,
        Node::Dir { vol, entries } => {
            &&& vol != v
            &&& forall|i: int|
                0 <= i < entries@.len() ==> off_vol(#[trigger] entries@[i].node, v)
        },
        Node::Other { vol } => vol != v,
    }
}

/// For a tree lying entirely off the destination's volume, a move delivers
/// exactly what a copy would: the fallback of the mover is copy-then-delete,
/// so the delivered trees coincide — only the fate of the source differs.
pub proof fn lemma_cross_volume_move_delivers_a_copy(src: Node, out: Node, v: u64)
    requires
        off_vol(src, v),
    ensures
        is_move_of(src, out, v) <==> is_copy_of(src, out, v),
    decreases src,
{
    match src {
        Node::Dir { entries, .. } => {
            if out is Dir {
                lemma_cross_volume_seq_move_delivers_a_copy(entries@, out->Dir_entries@, v);
            }
        },
        _ => {},
    }
}

/// The entry-sequence form of `lemma_cross_volume_move_delivers_a_copy`.
pub proof fn lemma_cross_volume_seq_move_delivers_a_copy(s: Seq<Entry>, o: Seq<Entry>, v: u64)
    requires
        forall|k: int| 0 <= k < s.len() ==> off_vol(#[trigger] s[k].node, v),
    ensures
        seq_move(s, o, v) <==> seq_copy(s, o, v),
    decreases s,
{
    if s.len() == 0 {
    } else {
        let tail = s.drop_first();
        assert forall|k: int| 0 <= k < tail.len() implies off_vol(#[trigger] tail[k].node, v) by {
            assert(tail[k] == s[k + 1]);
        }
        if s[0].node is Other {
            lemma_cross_volume_seq_move_delivers_a_copy(tail, o, v);
        } else {
            if o.len() > 0 {
                lemma_cross_volume_move_delivers_a_copy(s[0].node, o[0].node, v);
                lemma_cross_volume_seq_move_delivers_a_copy(tail, o.drop_first(), v);
            }
        }
    }
}

/// Moving a tree that already lies wholly on the destination's volume takes
/// the atomic rename path: it always succeeds and the tree arrives entirely
/// unchanged — nothing is rebuilt, no entry of other kind is dropped, no
/// per-entry fallback work is observable.
pub proof fn lemma_same_volume_move_is_rename(src: Node, out: Node, v: u64)
    requires
        on_vol(src, v),
        is_move_of(src, out, v),
    ensures
        out == src,
        move_node_res(src, v) is None,
{
}

} // verus!
