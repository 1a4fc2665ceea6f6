use treemove::model::{Entry, FsError, Node};
use treemove::ops::{rust_copy, rust_move};

fn file(vol: u64, readable: bool, data: &[u8]) -> Node {
    Node::File { vol, readable, data: data.to_vec() }
}

fn dir(vol: u64, entries: Vec<Entry>) -> Node {
    Node::Dir { vol, entries }
}

fn ent(name: &str, node: Node) -> Entry {
    Entry { name: name.as_bytes().to_vec(), node }
}

fn name_of(s: &str) -> Option<Vec<u8>> {
    Some(s.as_bytes().to_vec())
}

fn child<'a>(n: &'a Node, name: &str) -> &'a Node {
    match n {
        Node::Dir { entries, .. } => {
            for e in entries {
                if e.name == name.as_bytes() {
                    return &e.node;
                }
            }
            panic!("no entry named {}", name);
        }
        _ => panic!("not a directory"),
    }
}

fn entry_count(n: &Node) -> usize {
    match n {
        Node::Dir { entries, .. } => entries.len(),
        _ => panic!("not a directory"),
    }
}

#[test]
fn copy_file_is_byte_identical() {
    let src = file(1, true, b"hello");
    let mut dst = dir(2, vec![]);
    assert_eq!(rust_copy(&name_of("x.txt"), &src, &mut dst), Ok(()));
    // the copy holds the same bytes, on the destination's volume
    assert_eq!(child(&dst, "x.txt"), &file(2, true, b"hello"));
    // the original still exists, untouched
    assert_eq!(src, file(1, true, b"hello"));
}

#[test]
fn copy_tree_mirrors_structure() {
    let a = dir(
        1,
        vec![
            ent("x.txt", file(1, true, b"one")),
            ent("sub", dir(1, vec![ent("y.txt", file(1, true, b"two"))])),
        ],
    );
    let mut b = dir(1, vec![]);
    assert_eq!(rust_copy(&name_of("A"), &a, &mut b), Ok(()));
    let copied = child(&b, "A");
    assert_eq!(child(copied, "x.txt"), &file(1, true, b"one"));
    assert_eq!(child(child(copied, "sub"), "y.txt"), &file(1, true, b"two"));
    // the source tree is untouched
    assert_eq!(
        a,
        dir(
            1,
            vec![
                ent("x.txt", file(1, true, b"one")),
                ent("sub", dir(1, vec![ent("y.txt", file(1, true, b"two"))])),
            ],
        )
    );
}

#[test]
fn copy_skips_entries_of_other_kind() {
    let a = dir(
        1,
        vec![ent("sock", Node::Other { vol: 1 }), ent("f", file(1, true, b"d"))],
    );
    let mut b = dir(5, vec![]);
    assert_eq!(rust_copy(&name_of("A"), &a, &mut b), Ok(()));
    let copied = child(&b, "A");
    assert_eq!(entry_count(copied), 1);
    assert_eq!(child(copied, "f"), &file(5, true, b"d"));
}

#[test]
fn copy_unreadable_file_aborts_the_call() {
    // a regular file that cannot be read is a hard error, never silently
    // dropped; the entry copied before it stays (no rollback)
    let a = dir(
        1,
        vec![
            ent("good", file(1, true, b"g")),
            ent("secret", file(1, false, b"s")),
            ent("later", file(1, true, b"l")),
        ],
    );
    let mut b = dir(1, vec![]);
    assert_eq!(
        rust_copy(&name_of("A"), &a, &mut b),
        Err(FsError::PermissionDenied)
    );
    let partial = child(&b, "A");
    assert_eq!(entry_count(partial), 1);
    assert_eq!(child(partial, "good"), &file(1, true, b"g"));
}

#[test]
fn copy_without_base_name_is_rejected() {
    let src = file(1, true, b"hello");
    let mut dst = dir(1, vec![]);
    assert_eq!(rust_copy(&None, &src, &mut dst), Err(FsError::InvalidInput));
    assert_eq!(dst, dir(1, vec![]));
}

#[test]
fn copy_directory_onto_file_fails() {
    let a = dir(1, vec![]);
    let mut b = dir(1, vec![ent("A", file(1, true, b"old"))]);
    assert_eq!(rust_copy(&name_of("A"), &a, &mut b), Err(FsError::NotADirectory));
    assert_eq!(child(&b, "A"), &file(1, true, b"old"));
}

#[test]
fn copy_file_onto_directory_fails() {
    let src = file(1, true, b"new");
    let mut b = dir(1, vec![ent("A", dir(1, vec![]))]);
    assert_eq!(rust_copy(&name_of("A"), &src, &mut b), Err(FsError::IsADirectory));
    assert_eq!(child(&b, "A"), &dir(1, vec![]));
}

#[test]
fn copy_file_overwrites_file() {
    let src = file(2, true, b"new");
    let mut b = dir(1, vec![ent("x", file(1, true, b"old"))]);
    assert_eq!(rust_copy(&name_of("x"), &src, &mut b), Ok(()));
    assert_eq!(child(&b, "x"), &file(1, true, b"new"));
}

#[test]
fn move_on_same_volume_is_one_atomic_rename() {
    // everything lies on the destination's volume: the whole tree is renamed
    // and arrives entirely unchanged — even the socket, which the per-entry
    // fallback would have dropped; no stray rebuilt artifacts
    let t = dir(
        1,
        vec![
            ent("sock", Node::Other { vol: 1 }),
            ent("f", file(1, true, b"d")),
        ],
    );
    let mut b = dir(1, vec![]);
    assert_eq!(rust_move(&name_of("T"), t, &mut b), Ok(()));
    assert_eq!(
        child(&b, "T"),
        &dir(
            1,
            vec![
                ent("sock", Node::Other { vol: 1 }),
                ent("f", file(1, true, b"d")),
            ],
        )
    );
}

#[test]
fn move_across_volumes_rebuilds_the_tree() {
    // the whole-tree rename fails across volumes; the per-entry fallback
    // copies files onto the destination's volume, drops entries of other
    // kind, and removes the source
    let t = dir(
        2,
        vec![
            ent("x.txt", file(2, true, b"one")),
            ent("sock", Node::Other { vol: 2 }),
            ent("sub", dir(2, vec![ent("y.txt", file(2, true, b"two"))])),
        ],
    );
    let mut b = dir(1, vec![]);
    assert_eq!(rust_move(&name_of("T"), t, &mut b), Ok(()));
    let moved = child(&b, "T");
    assert_eq!(entry_count(moved), 2);
    assert_eq!(child(moved, "x.txt"), &file(1, true, b"one"));
    assert_eq!(child(child(moved, "sub"), "y.txt"), &file(1, true, b"two"));
}

#[test]
fn move_unreadable_file_across_volumes_fails() {
    let t = file(2, false, b"s");
    let mut b = dir(1, vec![]);
    let failure = rust_move(&name_of("s"), t, &mut b).unwrap_err();
    assert_eq!(failure.err, FsError::PermissionDenied);
    // the source still exists in full
    assert_eq!(failure.leftover, Some(file(2, false, b"s")));
    assert_eq!(b, dir(1, vec![]));
}

#[test]
fn move_without_base_name_is_rejected() {
    let t = file(1, true, b"d");
    let mut b = dir(1, vec![]);
    let failure = rust_move(&None, t, &mut b).unwrap_err();
    assert_eq!(failure.err, FsError::InvalidInput);
    assert_eq!(failure.leftover, Some(file(1, true, b"d")));
    assert_eq!(b, dir(1, vec![]));
}

#[test]
fn move_file_onto_directory_fails() {
    let t = file(1, true, b"d");
    let mut b = dir(1, vec![ent("A", dir(1, vec![]))]);
    let failure = rust_move(&name_of("A"), t, &mut b).unwrap_err();
    assert_eq!(failure.err, FsError::IsADirectory);
    assert_eq!(failure.leftover, Some(file(1, true, b"d")));
    assert_eq!(child(&b, "A"), &dir(1, vec![]));
}

#[test]
fn copy_directory_merges_into_existing_directory() {
    // an occupied target name of directory kind merges: the new entry
    // arrives, the pre-existing one survives, a same-named file is
    // overwritten, and nothing else appears
    let a = dir(
        1,
        vec![
            ent("new.txt", file(1, true, b"n")),
            ent("shared.txt", file(1, true, b"after")),
        ],
    );
    let mut b = dir(
        1,
        vec![ent(
            "A",
            dir(
                1,
                vec![
                    ent("old.txt", file(1, true, b"o")),
                    ent("shared.txt", file(1, true, b"before")),
                ],
            ),
        )],
    );
    assert_eq!(rust_copy(&name_of("A"), &a, &mut b), Ok(()));
    let merged = child(&b, "A");
    assert_eq!(entry_count(merged), 3);
    assert_eq!(child(merged, "old.txt"), &file(1, true, b"o"));
    assert_eq!(child(merged, "new.txt"), &file(1, true, b"n"));
    assert_eq!(child(merged, "shared.txt"), &file(1, true, b"after"));
}

#[test]
fn move_directory_merges_into_existing_directory() {
    // an occupied target name blocks the whole-tree rename; the fallback
    // then relocates entry by entry into the directory that is already there
    let t = dir(1, vec![ent("new.txt", file(1, true, b"n"))]);
    let mut b = dir(
        1,
        vec![ent("T", dir(1, vec![ent("old.txt", file(1, true, b"o"))]))],
    );
    assert_eq!(rust_move(&name_of("T"), t, &mut b), Ok(()));
    let merged = child(&b, "T");
    assert_eq!(entry_count(merged), 2);
    assert_eq!(child(merged, "old.txt"), &file(1, true, b"o"));
    assert_eq!(child(merged, "new.txt"), &file(1, true, b"n"));
}

#[test]
fn mixed_volume_move_renames_the_matching_subtree() {
    // the tree as a whole spans two volumes, so the top-level rename fails;
    // inside the fallback, the subtree that already lies on the destination's
    // volume is renamed atomically and arrives unchanged, socket included
    let t = dir(
        2,
        vec![
            ent("far.txt", file(2, true, b"far")),
            ent(
                "near",
                dir(1, vec![ent("sock", Node::Other { vol: 1 }), ent("n.txt", file(1, true, b"n"))]),
            ),
        ],
    );
    let mut b = dir(1, vec![]);
    assert_eq!(rust_move(&name_of("T"), t, &mut b), Ok(()));
    let moved = child(&b, "T");
    assert_eq!(entry_count(moved), 2);
    assert_eq!(child(moved, "far.txt"), &file(1, true, b"far"));
    assert_eq!(
        child(moved, "near"),
        &dir(
            1,
            vec![ent("sock", Node::Other { vol: 1 }), ent("n.txt", file(1, true, b"n"))],
        )
    );
}

#[test]
fn failed_cross_volume_move_leaves_the_rest_of_the_source() {
    // the unreadable file aborts the fallback partway: the skipped socket,
    // the failing file itself and the never-reached entry all remain in the
    // source, in order; the created target directory stands, still empty
    let t = dir(
        2,
        vec![
            ent("sock", Node::Other { vol: 2 }),
            ent("bad", file(2, false, b"b")),
            ent("tail.txt", file(2, true, b"t")),
        ],
    );
    let mut b = dir(1, vec![]);
    let failure = rust_move(&name_of("T"), t, &mut b).unwrap_err();
    assert_eq!(failure.err, FsError::PermissionDenied);
    assert_eq!(
        failure.leftover,
        Some(dir(
            2,
            vec![
                ent("sock", Node::Other { vol: 2 }),
                ent("bad", file(2, false, b"b")),
                ent("tail.txt", file(2, true, b"t")),
            ],
        ))
    );
    assert_eq!(child(&b, "T"), &dir(1, vec![]));
}

#[test]
fn failed_directory_copy_leaves_the_prefix_of_copies() {
    // the target directory is created before any child is visited, and the
    // copies made before the first error stay in it
    let a = dir(
        2,
        vec![
            ent("first", file(2, true, b"f")),
            ent("bad", file(2, false, b"b")),
        ],
    );
    let mut b = dir(1, vec![]);
    assert_eq!(
        rust_copy(&name_of("A"), &a, &mut b),
        Err(FsError::PermissionDenied)
    );
    assert_eq!(
        child(&b, "A"),
        &dir(1, vec![ent("first", file(1, true, b"f"))])
    );
}

#[test]
fn error_descriptions() {
    assert_eq!(FsError::InvalidInput.describe(), "source path has no base name");
    assert_eq!(FsError::PermissionDenied.describe(), "permission denied");
    assert_eq!(FsError::NotADirectory.describe(), "not a directory");
    assert_eq!(FsError::IsADirectory.describe(), "is a directory");
    assert_eq!(FsError::Io.describe(), "filesystem error");
}

fn build_a() -> Node {
    dir(
        1,
        vec![
            ent("x.txt", file(1, true, b"first")),
            ent("sub", dir(1, vec![ent("y.txt", file(1, true, b"second"))])),
        ],
    )
}

#[test]
fn scenario_copy_then_move() {
    // source A holds A/x.txt and A/sub/y.txt; destination B exists and is
    // empty; after the copy both files exist under B/A with their content
    // and A still exists; after a move from a fresh state the files exist
    // under B/A and nothing of A remains
    let a = build_a();
    let mut b = dir(1, vec![]);
    assert_eq!(rust_copy(&name_of("A"), &a, &mut b), Ok(()));
    assert_eq!(child(child(&b, "A"), "x.txt"), &file(1, true, b"first"));
    assert_eq!(
        child(child(child(&b, "A"), "sub"), "y.txt"),
        &file(1, true, b"second")
    );
    assert_eq!(a, build_a());

    // fresh state, now move; rust_move consumes the source: success means
    // nothing of it remains
    let a = build_a();
    let mut b = dir(1, vec![]);
    assert_eq!(rust_move(&name_of("A"), a, &mut b), Ok(()));
    assert_eq!(child(child(&b, "A"), "x.txt"), &file(1, true, b"first"));
    assert_eq!(
        child(child(child(&b, "A"), "sub"), "y.txt"),
        &file(1, true, b"second")
    );
}
