//! The decisions of a recursive walk through a dropped directory. The
//! caller reads each directory that the walker hands out and reports its
//! entries back; the walker collects the regular files and queues each
//! subdirectory once, keyed by its canonical path, so that link cycles end.
use vstd::prelude::*;
use crate::text::{text_eq, texts};

verus! {

/// What a directory entry is, following symbolic links.
#[derive(Clone, Copy, Debug, PartialEq, Eq, Structural)]
pub enum EntryKind {
    Directory,
    File,
    Other,
}

/// One entry of a directory that was read.
pub struct WalkEntry {
    /// The entry's path, as it is to be attached.
    pub path: String,
    pub kind: EntryKind,
    /// The canonical path of a directory, which tells two ways to reach the
    /// same directory apart from two directories.
    pub key: String,
}

/// An entry as values: path, kind, key.
pub open spec fn entry_view(e: WalkEntry) -> (Seq<char>, EntryKind, Seq<char>) {
    (e.path@, e.kind, e.key@)
}

/// The walker's state as values.
pub struct WalkView {
    /// Directories still to be read, the next one last.
    pub pending: Seq<Seq<char>>,
    /// Keys of the directories queued so far.
    pub visited: Seq<Seq<char>>,
    /// Regular files found so far, in the order they were reported.
    pub files: Seq<Seq<char>>,
}

/// One reported entry: a file is collected, a directory not seen before is
/// queued and its key remembered, anything else is passed over.
pub open spec fn after_entry(s: WalkView, e: (Seq<char>, EntryKind, Seq<char>)) -> WalkView {
    match e.1 {
        EntryKind::File => WalkView { files: s.files.push(e.0), ..s },
        EntryKind::Directory => if s.visited.contains(e.2) {
            s
        } else {
            WalkView { pending: s.pending.push(e.0), visited: s.visited.push(e.2), files: s.files }
        },
        EntryKind::Other => s,
    }
}

/// The reported entries, in order.
pub open spec fn after_entries(s: WalkView, es: Seq<(Seq<char>, EntryKind, Seq<char>)>) -> WalkView
    decreases es.len(),
{
    if es.len() == 0 {
        s
    } else {
        after_entry(after_entries(s, es.drop_last()), es.last())
    }
}

pub struct DirectoryWalker {
    pending: Vec<String>,
    visited: Vec<String>,
    files: Vec<String>,
}

impl View for DirectoryWalker {
    type V = WalkView;

    closed spec fn view(&self) -> WalkView {
        WalkView {
            pending: texts(self.pending@),
            visited: texts(self.visited@),
            files: texts(self.files@),
        }
    }
}

impl DirectoryWalker {
    /// No directory key is remembered twice, so no directory is read twice.
    pub open spec fn well_formed(&self) -> bool {
        self@.visited.no_duplicates()
    }

    /// A walk from the directory `root`, whose canonical path is `root_key`.
    pub fn new(root: String, root_key: String) -> (r: Self)
        ensures
            r@ == (WalkView { pending: seq![root@], visited: seq![root_key@], files: seq![] }),
            r.well_formed(),
    {
        let r = DirectoryWalker { pending: vec![root], visited: vec![root_key], files: Vec::new() };
        assert(r@.pending =~= seq![root@]);
        assert(r@.visited =~= seq![root_key@]);
        assert(r@.files =~= Seq::<Seq<char>>::empty());
        r
    }

    /// The next directory to read, if any is left; it leaves the queue.
    pub fn next_directory(&mut self) -> (r: Option<String>)
        requires
            old(self).well_formed(),
        ensures
            final(self).well_formed(),
            old(self)@.pending.len() == 0 ==> r is None && final(self)@ == old(self)@,
            old(self)@.pending.len() > 0 ==> r is Some && r->0@ == old(self)@.pending.last()
                && final(self)@ == (WalkView { pending: old(self)@.pending.drop_last(), ..old(self)@ }),
    {
        let r = self.pending.pop();
        proof {
            if old(self)@.pending.len() > 0 {
                assert(self@.pending =~= old(self)@.pending.drop_last());
            }
        }
        r
    }

    /// Whether `key` has been remembered.
    fn seen(&self, key: &String) -> (r: bool)
        ensures
            r == self@.visited.contains(key@),
    {
        let mut j: usize = 0;
        while j < self.visited.len()
            invariant
                j <= self.visited.len(),
                forall|k: int| 0 <= k < j ==> self.visited@[k]@ != key@,
            decreases self.visited.len() - j,
        {
            if text_eq(self.visited[j].as_str(), key.as_str()) {
                assert(self@.visited[j as int] == key@);
                return true;
            }
            j += 1;
        }
        assert(!self@.visited.contains(key@)) by {
            if self@.visited.contains(key@) {
                let k = choose|k: int| 0 <= k < self@.visited.len() && self@.visited[k] == key@;
                assert(self.visited@[k]@ == key@);
            }
        }
        false
    }

    /// Reports the entries of a directory that was read. A directory that
    /// could not be read is reported with no entries.
    pub fn record(&mut self, entries: &Vec<WalkEntry>)
        requires
            old(self).well_formed(),
        ensures
            final(self).well_formed(),
            final(self)@ == after_entries(old(self)@, entries@.map_values(|e: WalkEntry| entry_view(e))),
    {
        let ghost es = entries@.map_values(|e: WalkEntry| entry_view(e));
        let mut i: usize = 0;
        let n = entries.len();
        while i < n
            invariant
                n == es.len(),
                n == entries.len(),
                es == entries@.map_values(|e: WalkEntry| entry_view(e)),
                i <= n,
                self.well_formed(),
                self@ == after_entries(old(self)@, es.subrange(0, i as int)),
            decreases n - i,
        {
            let e = &entries[i];
            assert(entry_view(*e) == es[i as int]);
            assert(es.subrange(0, i + 1).drop_last() =~= es.subrange(0, i as int));
            let ghost before = self@;
            match e.kind {
                EntryKind::File => {
                    self.files.push(e.path.clone());
                    assert(self@.files =~= before.files.push(es[i as int].0));
                    assert(self@.pending =~= before.pending);
                    assert(self@.visited =~= before.visited);
                },
                EntryKind::Directory => {
                    if !self.seen(&e.key) {
                        self.pending.push(e.path.clone());
                        self.visited.push(e.key.clone());
                        assert(self@.pending =~= before.pending.push(es[i as int].0));
                        assert(self@.visited =~= before.visited.push(es[i as int].2));
                        assert(self@.files =~= before.files);
                    }
                },
                EntryKind::Other => {},
            }
            i += 1;
        }
        assert(es.subrange(0, n as int) =~= es);
    }

    /// The regular files found, in the order they were reported.
    pub fn files(&self) -> (r: &Vec<String>)
        ensures
            texts(r@) == self@.files,
    {
        &self.files
    }
}

} // verus!
