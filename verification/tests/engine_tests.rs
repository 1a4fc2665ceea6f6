use treemove::engine::{
    CopyTraversal, EntryKind, FsAction, FsEvent, ListedEntry, MoveTraversal,
};
use treemove::model::FsError;

fn b(s: &str) -> Vec<u8> {
    s.as_bytes().to_vec()
}

fn listed(entries: Vec<(&str, EntryKind)>) -> FsEvent {
    FsEvent::Listed {
        entries: entries
            .into_iter()
            .map(|(n, kind)| ListedEntry { name: b(n), kind })
            .collect(),
    }
}

#[test]
fn copy_of_a_file_is_probe_then_one_copy() {
    let mut t = CopyTraversal::begin(b("/a/f"), b("/b"), Some(b("f")));
    assert_eq!(t.step(FsEvent::Begin), FsAction::Probe { path: b("/a/f") });
    assert_eq!(
        t.step(FsEvent::IsFile { yes: true }),
        FsAction::CopyFile { src: b("/a/f"), dst: b("/b/f") }
    );
    assert_eq!(
        t.step(FsEvent::Completed),
        FsAction::Finish { result: Ok(()) }
    );
}

#[test]
fn copy_without_base_name_finishes_at_once() {
    let mut t = CopyTraversal::begin(b("/"), b("/b"), None);
    assert_eq!(
        t.step(FsEvent::Begin),
        FsAction::Finish { result: Err(FsError::InvalidInput) }
    );
}

#[test]
fn copy_of_a_tree_creates_lists_and_skips_others() {
    let mut t = CopyTraversal::begin(b("/s"), b("/d"), Some(b("s")));
    assert_eq!(t.step(FsEvent::Begin), FsAction::Probe { path: b("/s") });
    // the target directory is created before anything below it is touched
    assert_eq!(
        t.step(FsEvent::IsFile { yes: false }),
        FsAction::MakeDirAll { path: b("/d/s") }
    );
    assert_eq!(t.step(FsEvent::Completed), FsAction::ListDir { path: b("/s") });
    assert_eq!(
        t.step(listed(vec![
            ("x.txt", EntryKind::RegularFile),
            ("sock", EntryKind::OtherKind),
            ("sub", EntryKind::Directory),
        ])),
        FsAction::Pass
    );
    assert_eq!(
        t.step(FsEvent::Completed),
        FsAction::CopyFile { src: b("/s/x.txt"), dst: b("/d/s/x.txt") }
    );
    assert_eq!(t.step(FsEvent::Completed), FsAction::Pass);
    // the socket earns no filesystem action at all
    assert_eq!(t.step(FsEvent::Completed), FsAction::Pass);
    // the subdirectory opens a child frame, target created first
    assert_eq!(
        t.step(FsEvent::Completed),
        FsAction::MakeDirAll { path: b("/d/s/sub") }
    );
    assert_eq!(
        t.step(FsEvent::Completed),
        FsAction::ListDir { path: b("/s/sub") }
    );
    assert_eq!(t.step(listed(vec![])), FsAction::Pass);
    assert_eq!(t.step(FsEvent::Completed), FsAction::Pass);
    assert_eq!(
        t.step(FsEvent::Completed),
        FsAction::Finish { result: Ok(()) }
    );
}

#[test]
fn copy_aborts_on_the_first_failure_and_stays_finished() {
    let mut t = CopyTraversal::begin(b("/s"), b("/d"), Some(b("s")));
    assert_eq!(t.step(FsEvent::Begin), FsAction::Probe { path: b("/s") });
    assert_eq!(
        t.step(FsEvent::IsFile { yes: true }),
        FsAction::CopyFile { src: b("/s"), dst: b("/d/s") }
    );
    assert_eq!(
        t.step(FsEvent::Failed { err: FsError::PermissionDenied }),
        FsAction::Finish { result: Err(FsError::PermissionDenied) }
    );
    // once finished, the traversal only repeats its result
    assert_eq!(
        t.step(FsEvent::Completed),
        FsAction::Finish { result: Err(FsError::PermissionDenied) }
    );
}

#[test]
fn move_on_one_volume_is_a_single_rename() {
    let mut t = MoveTraversal::begin(b("/s"), b("/d"), Some(b("s")));
    assert_eq!(t.step(FsEvent::Begin), FsAction::Probe { path: b("/s") });
    assert_eq!(
        t.step(FsEvent::IsFile { yes: false }),
        FsAction::Rename { src: b("/s"), dst: b("/d/s") }
    );
    // the rename succeeded: nothing else is ever asked for
    assert_eq!(
        t.step(FsEvent::Completed),
        FsAction::Finish { result: Ok(()) }
    );
}

#[test]
fn move_falls_back_per_entry_when_the_rename_fails() {
    let mut t = MoveTraversal::begin(b("/s"), b("/d"), Some(b("s")));
    assert_eq!(t.step(FsEvent::Begin), FsAction::Probe { path: b("/s") });
    assert_eq!(
        t.step(FsEvent::IsFile { yes: false }),
        FsAction::Rename { src: b("/s"), dst: b("/d/s") }
    );
    // the whole-tree rename failed (cross-volume): create, list, relocate
    assert_eq!(
        t.step(FsEvent::Failed { err: FsError::Io }),
        FsAction::MakeDirAll { path: b("/d/s") }
    );
    assert_eq!(t.step(FsEvent::Completed), FsAction::ListDir { path: b("/s") });
    assert_eq!(
        t.step(listed(vec![
            ("f", EntryKind::RegularFile),
            ("sock", EntryKind::OtherKind),
        ])),
        FsAction::Pass
    );
    // a file entry: rename first, copy+delete once that fails
    assert_eq!(
        t.step(FsEvent::Completed),
        FsAction::Rename { src: b("/s/f"), dst: b("/d/s/f") }
    );
    assert_eq!(
        t.step(FsEvent::Failed { err: FsError::Io }),
        FsAction::CopyFile { src: b("/s/f"), dst: b("/d/s/f") }
    );
    assert_eq!(
        t.step(FsEvent::Completed),
        FsAction::RemoveFile { path: b("/s/f") }
    );
    assert_eq!(t.step(FsEvent::Completed), FsAction::Pass);
    // the socket is skipped, and the emptied source is removed only at the end
    assert_eq!(t.step(FsEvent::Completed), FsAction::Pass);
    assert_eq!(
        t.step(FsEvent::Completed),
        FsAction::RemoveDirAll { path: b("/s") }
    );
    assert_eq!(
        t.step(FsEvent::Completed),
        FsAction::Finish { result: Ok(()) }
    );
}

#[test]
fn move_aborts_when_the_fallback_copy_fails() {
    let mut t = MoveTraversal::begin(b("/s"), b("/d"), Some(b("s")));
    assert_eq!(t.step(FsEvent::Begin), FsAction::Probe { path: b("/s") });
    assert_eq!(
        t.step(FsEvent::IsFile { yes: true }),
        FsAction::Rename { src: b("/s"), dst: b("/d/s") }
    );
    assert_eq!(
        t.step(FsEvent::Failed { err: FsError::Io }),
        FsAction::CopyFile { src: b("/s"), dst: b("/d/s") }
    );
    assert_eq!(
        t.step(FsEvent::Failed { err: FsError::PermissionDenied }),
        FsAction::Finish { result: Err(FsError::PermissionDenied) }
    );
}
