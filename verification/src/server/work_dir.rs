//! Changes of files in a working directory, and who is told of them.

use crate::text::same_text;
use vstd::prelude::*;

verus! {

/// A change of a file, with the file's path below the working directory.
#[derive(Clone, Debug, PartialEq)]
pub enum FileChange {
    Created(String),
    Removed(String),
}

/// Is told of changes of files.
pub trait FileChangeNotifier {
    /// A file changed. An error says that the notifier is gone.
    fn file_changed(&self, work_dir: &str, change: FileChange) -> Result<(), ()>;

    /// Watching failed. An error says that the notifier is gone.
    fn notify_error(&self, work_dir: &str, error: &str) -> Result<(), ()>;
}

/// How a file was renamed, as the watcher reports it.
#[derive(Clone, Copy, Debug, PartialEq, Eq, Structural)]
pub enum RenameMode {
    Any,
    /// The event names the new path.
    To,
    /// The event names the old path.
    From,
    /// The event names the old path and then the new one.
    Both,
    Other,
}

/// The kind of an event of the file system.
#[derive(Clone, Copy, Debug, PartialEq, Eq, Structural)]
pub enum FsEventKind {
    Create,
    Remove,
    Rename(RenameMode),
    /// Anything else.
    Other,
}

/// An event of the file system.
#[derive(Clone, Debug, PartialEq)]
pub struct FsEvent {
    pub kind: FsEventKind,
    pub paths: Vec<String>,
}

/// The path `path` read from the directory `base`, component by component;
/// `None` where the path does not lie in the directory.
pub uninterp spec fn path_below(base: Seq<char>, path: Seq<char>) -> Option<Seq<char>>;

/// Calls `std::path::Path::strip_prefix`: the path that, joined onto the
/// base, yields the given path, where the base is a prefix of it.
#[verifier::external_body]
fn strip_base(base: &str, path: &str) -> (r: Option<String>)
    ensures
        match r {
            Some(p) => path_below(base@, path@) == Some(p@),
            None => path_below(base@, path@) is None,
        },
{
    match std::path::Path::new(path).strip_prefix(base) {
        Ok(p) => Some(p.to_string_lossy().into_owned()),
        Err(_) => None,
    }
}

/// The path as a change names it: read from the working directory where it
/// lies in it, else as it is.
pub open spec fn relative(work_dir: Seq<char>, path: Seq<char>) -> Seq<char> {
    match path_below(work_dir, path) {
        Some(p) => p,
        None => path,
    }
}

/// The path as a change names it.
pub fn relative_path(work_dir: &str, path: &str) -> (r: String)
    ensures
        r@ == relative(work_dir@, path@),
{
    match strip_base(work_dir, path) {
        Some(p) => p,
        None => path.to_owned(),
    }
}

/// Whether `c` says that the file at `path` was created.
pub open spec fn is_created(c: FileChange, work_dir: Seq<char>, path: Seq<char>) -> bool {
    c matches FileChange::Created(p) && p@ == relative(work_dir, path)
}

/// Whether `c` says that the file at `path` was removed.
pub open spec fn is_removed(c: FileChange, work_dir: Seq<char>, path: Seq<char>) -> bool {
    c matches FileChange::Removed(p) && p@ == relative(work_dir, path)
}

/// Whether `changes` are the changes that the event stands for.
///
/// A creation or removal changes each of its paths. A renaming with both
/// paths removes the first and creates the second, and is nothing with
/// fewer than two paths; a renaming to or from a path creates or removes the
/// first path. Nothing else is a change.
pub open spec fn changes_of(work_dir: Seq<char>, event: FsEvent, changes: Seq<FileChange>) -> bool {
    let paths = event.paths@;
    match event.kind {
        FsEventKind::Create => changes.len() == paths.len() && forall|i: int|
            0 <= i < paths.len() ==> is_created(#[trigger] changes[i], work_dir, paths[i]@),
        FsEventKind::Remove => changes.len() == paths.len() && forall|i: int|
            0 <= i < paths.len() ==> is_removed(#[trigger] changes[i], work_dir, paths[i]@),
        FsEventKind::Rename(RenameMode::Both) => if paths.len() >= 2 {
            changes.len() == 2 && is_removed(changes[0], work_dir, paths[0]@) && is_created(
                changes[1],
                work_dir,
                paths[1]@,
            )
        } else {
            changes.len() == 0
        },
        FsEventKind::Rename(RenameMode::To) => if paths.len() >= 1 {
            changes.len() == 1 && is_created(changes[0], work_dir, paths[0]@)
        } else {
            changes.len() == 0
        },
        FsEventKind::Rename(RenameMode::From) => if paths.len() >= 1 {
            changes.len() == 1 && is_removed(changes[0], work_dir, paths[0]@)
        } else {
            changes.len() == 0
        },
        _ => changes.len() == 0,
    }
}

/// The changes that an event of the file system stands for.
pub fn extract_file_changes(work_dir: &str, event: &FsEvent) -> (r: Vec<FileChange>)
    ensures
        changes_of(work_dir@, *event, r@),
{
    let mut out: Vec<FileChange> = Vec::new();
    match event.kind {
        FsEventKind::Create => {
            let mut i: usize = 0;
            while i < event.paths.len()
                invariant
                    i <= event.paths.len(),
                    out.len() == i,
                    forall|j: int|
                        0 <= j < i ==> is_created(#[trigger] out@[j], work_dir@, event.paths@[j]@),
                decreases event.paths.len() - i,
            {
                out.push(FileChange::Created(relative_path(work_dir, event.paths[i].as_str())));
                i = i + 1;
            }
        },
        FsEventKind::Remove => {
            let mut i: usize = 0;
            while i < event.paths.len()
                invariant
                    i <= event.paths.len(),
                    out.len() == i,
                    forall|j: int|
                        0 <= j < i ==> is_removed(#[trigger] out@[j], work_dir@, event.paths@[j]@),
                decreases event.paths.len() - i,
            {
                out.push(FileChange::Removed(relative_path(work_dir, event.paths[i].as_str())));
                i = i + 1;
            }
        },
        FsEventKind::Rename(RenameMode::Both) => {
            if event.paths.len() >= 2 {
                out.push(FileChange::Removed(relative_path(work_dir, event.paths[0].as_str())));
                out.push(FileChange::Created(relative_path(work_dir, event.paths[1].as_str())));
            }
        },
        FsEventKind::Rename(RenameMode::To) => {
            if event.paths.len() >= 1 {
                out.push(FileChange::Created(relative_path(work_dir, event.paths[0].as_str())));
            }
        },
        FsEventKind::Rename(RenameMode::From) => {
            if event.paths.len() >= 1 {
                out.push(FileChange::Removed(relative_path(work_dir, event.paths[0].as_str())));
            }
        },
        _ => {},
    }
    out
}

/// What a client that watches a working directory is told.
#[derive(Clone, Debug, PartialEq)]
pub enum FileChangeEvent {
    FileCreated { work_dir: String, file: String },
    FileRemoved { work_dir: String, file: String },
    Error { work_dir: String, message: String },
}

/// Whether `e` tells of the change `change` in `work_dir`.
pub open spec fn tells_change(e: FileChangeEvent, work_dir: Seq<char>, change: FileChange) -> bool {
    match change {
        FileChange::Created(p) => {
            &&& e matches FileChangeEvent::FileCreated { work_dir: d, file }
            &&& d@ == work_dir
            &&& file == p
        },
        FileChange::Removed(p) => {
            &&& e matches FileChangeEvent::FileRemoved { work_dir: d, file }
            &&& d@ == work_dir
            &&& file == p
        },
    }
}

/// What the client that watches `own_dir` is told of a change in
/// `work_dir`: nothing where that is another directory.
pub fn file_change_event(own_dir: &str, work_dir: &str, change: FileChange) -> (r: Option<
    FileChangeEvent,
>)
    ensures
        match r {
            None => own_dir@ != work_dir@,
            Some(e) => own_dir@ == work_dir@ && tells_change(e, work_dir@, change),
        },
{
    if !same_text(own_dir, work_dir) {
        return None;
    }
    match change {
        FileChange::Created(p) => Some(
            FileChangeEvent::FileCreated { work_dir: work_dir.to_owned(), file: p },
        ),
        FileChange::Removed(p) => Some(
            FileChangeEvent::FileRemoved { work_dir: work_dir.to_owned(), file: p },
        ),
    }
}

/// What the client that watches `own_dir` is told of an error of the
/// watcher of `work_dir`: nothing where that is another directory.
pub fn error_event(own_dir: &str, work_dir: &str, error: &str) -> (r: Option<FileChangeEvent>)
    ensures
        match r {
            None => own_dir@ != work_dir@,
            Some(e) => {
                &&& own_dir@ == work_dir@
                &&& e matches FileChangeEvent::Error { work_dir: d, message }
                &&& d@ == work_dir@
                &&& message@ == error@
            },
        },
{
    if !same_text(own_dir, work_dir) {
        return None;
    }
    Some(FileChangeEvent::Error { work_dir: work_dir.to_owned(), message: error.to_owned() })
}

/// Whether `part` holds some of the items of `whole`, in their order.
#[verifier::opaque]
pub open spec fn is_selection<T>(part: Seq<T>, whole: Seq<T>) -> bool {
    exists|from: Seq<int>|
        #![trigger from.len()]
        from.len() == part.len() && (forall|i: int|
            0 <= i < from.len() ==> 0 <= #[trigger] from[i] < whole.len() && part[i]
                == whole[from[i]]) && (forall|i: int, j: int|
            0 <= i < j < from.len() ==> from[i] < from[j])
}

/// Those who are told of the changes in one working directory.
pub struct FileWatcher<N> {
    pub work_dir: String,
    pub notifiers: Vec<N>,
    /// Whether the directory is being watched.
    pub watching: bool,
}

impl<N: FileChangeNotifier> FileWatcher<N> {
    /// A watcher of `work_dir` that tells nobody yet and does not watch yet.
    pub fn new(work_dir: String) -> (r: Self)
        ensures
            r.work_dir == work_dir,
            r.notifiers@.len() == 0,
            !r.watching,
    {
        FileWatcher { work_dir, notifiers: Vec::new(), watching: false }
    }

    /// One more is told of changes from now on.
    pub fn add_notifier(&mut self, notifier: N)
        ensures
            final(self).notifiers@ == old(self).notifiers@.push(notifier),
            final(self).work_dir == old(self).work_dir,
            final(self).watching == old(self).watching,
    {
        self.notifiers.push(notifier);
    }

    /// Watching starts; the result says whether it has to be set up, which
    /// is so where it did not go on already.
    pub fn start_watching(&mut self) -> (r: bool)
        ensures
            r == !old(self).watching,
            final(self).watching,
            final(self).notifiers == old(self).notifiers,
            final(self).work_dir == old(self).work_dir,
    {
        let fresh = !self.watching;
        self.watching = true;
        fresh
    }

    /// Watching stops; the result says whether it has to be torn down, which
    /// is so where it went on.
    pub fn stop_watching(&mut self) -> (r: bool)
        ensures
            r == old(self).watching,
            !final(self).watching,
            final(self).notifiers == old(self).notifiers,
            final(self).work_dir == old(self).work_dir,
    {
        let was = self.watching;
        self.watching = false;
        was
    }

    /// Tells everybody of a change, and forgets those who are gone. The
    /// result says whether anybody is left; those who are left are some of
    /// those who were there, in their order.
    pub fn notify_change(&mut self, change: &FileChange) -> (r: bool)
        ensures
            r == (final(self).notifiers@.len() > 0),
            is_selection(final(self).notifiers@, old(self).notifiers@),
            final(self).work_dir == old(self).work_dir,
            final(self).watching == old(self).watching,
    {
        let mut kept: Vec<N> = Vec::new();
        let ghost all = self.notifiers@;
        let ghost mut from: Seq<int> = Seq::empty();
        let ghost mut taken: int = 0;
        while self.notifiers.len() > 0
            invariant
                self.work_dir == old(self).work_dir,
                self.watching == old(self).watching,
                0 <= taken,
                taken + self.notifiers@.len() == all.len(),
                forall|j: int|
                    0 <= j < self.notifiers@.len() ==> self.notifiers@[j] == all[taken + j],
                from.len() == kept@.len(),
                forall|i: int|
                    0 <= i < from.len() ==> 0 <= #[trigger] from[i] < taken && kept@[i]
                        == all[from[i]],
                forall|i: int, j: int| 0 <= i < j < from.len() ==> from[i] < from[j],
            decreases self.notifiers.len(),
        {
            assert(self.notifiers@[0] == all[taken + 0]);
            let ghost rest = self.notifiers@;
            let ghost had = kept@;
            let n = self.notifiers.remove(0);
            assert(forall|j: int|
                0 <= j < self.notifiers@.len() ==> self.notifiers@[j] == rest[j + 1]);
            let copy = match change {
                FileChange::Created(p) => FileChange::Created(p.clone()),
                FileChange::Removed(p) => FileChange::Removed(p.clone()),
            };
            let ok = n.file_changed(self.work_dir.as_str(), copy).is_ok();
            if ok {
                kept.push(n);
                proof {
                    from = from.push(taken);
                    assert(kept@[had.len() as int] == all[taken]);
                    assert(forall|i: int| 0 <= i < had.len() ==> kept@[i] == had[i]);
                }
            }
            proof {
                taken = taken + 1;
            }
        }
        self.notifiers = kept;
        proof {
            reveal(is_selection);
            assert(from.len() == self.notifiers@.len());
        }
        self.notifiers.len() > 0
    }

    /// Tells everybody that watching failed, and forgets those who are gone.
    /// The result says whether anybody is left.
    pub fn notify_error(&mut self, error: &str) -> (r: bool)
        ensures
            r == (final(self).notifiers@.len() > 0),
            is_selection(final(self).notifiers@, old(self).notifiers@),
            final(self).work_dir == old(self).work_dir,
            final(self).watching == old(self).watching,
    {
        let mut kept: Vec<N> = Vec::new();
        let ghost all = self.notifiers@;
        let ghost mut from: Seq<int> = Seq::empty();
        let ghost mut taken: int = 0;
        while self.notifiers.len() > 0
            invariant
                self.work_dir == old(self).work_dir,
                self.watching == old(self).watching,
                0 <= taken,
                taken + self.notifiers@.len() == all.len(),
                forall|j: int|
                    0 <= j < self.notifiers@.len() ==> self.notifiers@[j] == all[taken + j],
                from.len() == kept@.len(),
                forall|i: int|
                    0 <= i < from.len() ==> 0 <= #[trigger] from[i] < taken && kept@[i]
                        == all[from[i]],
                forall|i: int, j: int| 0 <= i < j < from.len() ==> from[i] < from[j],
            decreases self.notifiers.len(),
        {
            assert(self.notifiers@[0] == all[taken + 0]);
            let ghost rest = self.notifiers@;
            let ghost had = kept@;
            let n = self.notifiers.remove(0);
            assert(forall|j: int|
                0 <= j < self.notifiers@.len() ==> self.notifiers@[j] == rest[j + 1]);
            let ok = n.notify_error(self.work_dir.as_str(), error).is_ok();
            if ok {
                kept.push(n);
                proof {
                    from = from.push(taken);
                    assert(kept@[had.len() as int] == all[taken]);
                    assert(forall|i: int| 0 <= i < had.len() ==> kept@[i] == had[i]);
                }
            }
            proof {
                taken = taken + 1;
            }
        }
        self.notifiers = kept;
        proof {
            reveal(is_selection);
            assert(from.len() == self.notifiers@.len());
        }
        self.notifiers.len() > 0
    }
}

/// The watchers of all working directories that somebody is told about, at
/// most one for each directory.
pub struct FileWatcherRegistry<N> {
    pub watchers: Vec<FileWatcher<N>>,
}

/// Whether some watcher watches `dir`.
#[verifier::opaque]
pub open spec fn watches<N>(watchers: Seq<FileWatcher<N>>, dir: Seq<char>) -> bool {
    exists|i: int| 0 <= i < watchers.len() && (#[trigger] watchers[i]).work_dir@ == dir
}

/// The place of the first watcher of `dir`.
#[verifier::opaque]
pub open spec fn watcher_index<N>(watchers: Seq<FileWatcher<N>>, dir: Seq<char>) -> int {
    choose|i: int|
        0 <= i < watchers.len() && (#[trigger] watchers[i]).work_dir@ == dir && forall|j: int|
            0 <= j < i ==> (#[trigger] watchers[j]).work_dir@ != dir
}

/// Whether `after` is `before` with the watcher at `i` either taken out, as
/// `removed` says, or left with some of its notifiers, of which there is at
/// least one.
pub open spec fn thinned<N>(
    before: Seq<FileWatcher<N>>,
    i: int,
    after: Seq<FileWatcher<N>>,
    removed: bool,
) -> bool {
    if removed {
        after == before.remove(i)
    } else {
        &&& after.len() == before.len()
        &&& after[i].work_dir == before[i].work_dir
        &&& after[i].watching == before[i].watching
        &&& after[i].notifiers@.len() > 0
        &&& is_selection(after[i].notifiers@, before[i].notifiers@)
        &&& forall|j: int| 0 <= j < before.len() && j != i ==> after[j] == before[j]
    }
}

impl<N: FileChangeNotifier> FileWatcherRegistry<N> {
    /// A registry without watchers.
    pub fn new() -> (r: Self)
        ensures
            r.watchers@.len() == 0,
    {
        FileWatcherRegistry { watchers: Vec::new() }
    }

    /// The place of the first watcher of `work_dir`.
    fn position(&self, work_dir: &str) -> (r: Option<usize>)
        ensures
            match r {
                Some(i) => watches(self.watchers@, work_dir@) && i == watcher_index(
                    self.watchers@,
                    work_dir@,
                ) && i < self.watchers@.len() && self.watchers@[i as int].work_dir@ == work_dir@,
                None => !watches(self.watchers@, work_dir@),
            },
    {
        proof {
            reveal(watches);
            reveal(watcher_index);
        }
        let mut i: usize = 0;
        while i < self.watchers.len()
            invariant
                i <= self.watchers.len(),
                forall|j: int| 0 <= j < i ==> (#[trigger] self.watchers@[j]).work_dir@ != work_dir@,
            decreases self.watchers.len() - i,
        {
            if same_text(self.watchers[i].work_dir.as_str(), work_dir) {
                proof {
                    reveal(watches);
                    reveal(watcher_index);
                    let w = self.watchers@;
                    assert(w[i as int].work_dir@ == work_dir@);
                    let k = watcher_index(w, work_dir@);
                    assert(0 <= k < w.len() && w[k].work_dir@ == work_dir@ && forall|j: int|
                        0 <= j < k ==> (#[trigger] w[j]).work_dir@ != work_dir@);
                    if k < i {
                        assert(w[k].work_dir@ != work_dir@);
                    }
                    if i < k {
                        assert(w[i as int].work_dir@ != work_dir@);
                    }
                }
                return Some(i);
            }
            i = i + 1;
        }
        None
    }

    /// `notifier` is told of the changes in `work_dir` from now on. The
    /// result says whether a watcher was made for the directory, which then
    /// has to be watched; else the notifier joins the directory's watcher.
    pub fn add_notifier(&mut self, work_dir: String, notifier: N) -> (created: bool)
        ensures
            created == !watches(old(self).watchers@, work_dir@),
            if created {
                &&& final(self).watchers@.len() == old(self).watchers@.len() + 1
                &&& final(self).watchers@.drop_last() == old(self).watchers@
                &&& final(self).watchers@.last().work_dir == work_dir
                &&& final(self).watchers@.last().notifiers@ == seq![notifier]
                &&& final(self).watchers@.last().watching
            } else {
                let i = watcher_index(old(self).watchers@, work_dir@);
                &&& final(self).watchers@.len() == old(self).watchers@.len()
                &&& final(self).watchers@[i].notifiers@ == old(self).watchers@[i].notifiers@.push(
                    notifier,
                )
                &&& final(self).watchers@[i].work_dir == old(self).watchers@[i].work_dir
                &&& final(self).watchers@[i].watching == old(self).watchers@[i].watching
                &&& forall|j: int|
                    0 <= j < old(self).watchers@.len() && j != i ==> final(self).watchers@[j] == old(
                        self,
                    ).watchers@[j]
            },
    {
        match self.position(work_dir.as_str()) {
            Some(i) => {
                self.watchers[i].notifiers.push(notifier);
                false
            },
            None => {
                let ghost before = self.watchers@;
                let mut w = FileWatcher::new(work_dir);
                w.add_notifier(notifier);
                let _ = w.start_watching();
                assert(w.notifiers@ =~= seq![notifier]);
                self.watchers.push(w);
                assert(self.watchers@.drop_last() =~= before);
                true
            },
        }
    }

    /// Tells those who watch `work_dir` of a change, unless the change is
    /// `ignored` or nobody watches the directory. The result says whether
    /// the directory's watcher was taken out, which it is when nobody is left
    /// to tell; the directory is then to be watched no longer.
    pub fn notify_change(&mut self, work_dir: &str, change: &FileChange, ignored: bool) -> (removed:
        bool)
        ensures
            if ignored || !watches(old(self).watchers@, work_dir@) {
                !removed && final(self).watchers == old(self).watchers
            } else {
                thinned(
                    old(self).watchers@,
                    watcher_index(old(self).watchers@, work_dir@),
                    final(self).watchers@,
                    removed,
                )
            },
    {
        if ignored {
            return false;
        }
        match self.position(work_dir) {
            Some(i) => {
                let mut watcher = self.watchers.remove(i);
                if watcher.notify_change(change) {
                    self.watchers.insert(i, watcher);
                    false
                } else {
                    true
                }
            },
            None => false,
        }
    }

    /// Tells those who watch `work_dir` that watching failed. The result
    /// says whether the directory's watcher was taken out, which it is when
    /// nobody is left to tell.
    pub fn notify_error(&mut self, work_dir: &str, error: &str) -> (removed: bool)
        ensures
            if !watches(old(self).watchers@, work_dir@) {
                !removed && final(self).watchers == old(self).watchers
            } else {
                thinned(
                    old(self).watchers@,
                    watcher_index(old(self).watchers@, work_dir@),
                    final(self).watchers@,
                    removed,
                )
            },
    {
        match self.position(work_dir) {
            Some(i) => {
                let mut watcher = self.watchers.remove(i);
                if watcher.notify_error(error) {
                    self.watchers.insert(i, watcher);
                    false
                } else {
                    true
                }
            },
            None => false,
        }
    }
}

} // verus!
