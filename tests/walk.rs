use gia_gui::walk::{DirectoryWalker, EntryKind, WalkEntry};

fn e(path: &str, kind: EntryKind, key: &str) -> WalkEntry {
    WalkEntry { path: String::from(path), kind, key: String::from(key) }
}

#[test]
fn walks_nested_directories() {
    let mut w = DirectoryWalker::new(String::from("/r"), String::from("/r"));
    assert_eq!(w.next_directory(), Some(String::from("/r")));
    w.record(&vec![
        e("/r/a.txt", EntryKind::File, "/r/a.txt"),
        e("/r/sub", EntryKind::Directory, "/r/sub"),
        e("/r/fifo", EntryKind::Other, "/r/fifo"),
    ]);
    assert_eq!(w.files(), &vec![String::from("/r/a.txt")]);
    assert_eq!(w.next_directory(), Some(String::from("/r/sub")));
    w.record(&vec![e("/r/sub/b.png", EntryKind::File, "/r/sub/b.png")]);
    assert_eq!(w.next_directory(), None);
    assert_eq!(w.next_directory(), None);
    assert_eq!(w.files(), &vec![String::from("/r/a.txt"), String::from("/r/sub/b.png")]);
}

#[test]
fn link_cycle_is_read_once() {
    let mut w = DirectoryWalker::new(String::from("/r"), String::from("/real/r"));
    assert_eq!(w.next_directory(), Some(String::from("/r")));
    w.record(&vec![e("/r/loop", EntryKind::Directory, "/real/r"), e("/r/f", EntryKind::File, "/r/f")]);
    assert_eq!(w.next_directory(), None);
    assert_eq!(w.files(), &vec![String::from("/r/f")]);
}

#[test]
fn same_directory_twice_in_one_listing() {
    let mut w = DirectoryWalker::new(String::from("/r"), String::from("/r"));
    w.next_directory();
    w.record(&vec![e("/r/a", EntryKind::Directory, "/x"), e("/r/b", EntryKind::Directory, "/x")]);
    assert_eq!(w.next_directory(), Some(String::from("/r/a")));
    assert_eq!(w.next_directory(), None);
}

#[test]
fn unreadable_directory_contributes_nothing() {
    let mut w = DirectoryWalker::new(String::from("/r"), String::from("/r"));
    w.next_directory();
    w.record(&Vec::new());
    assert_eq!(w.next_directory(), None);
    assert!(w.files().is_empty());
}
