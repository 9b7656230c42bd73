//! The table of active watches: at most one per project, keyed by the
//! project's path.

use vstd::prelude::*;
use vstd::string::*;

verus! {

/// One active watch: the project's path and the handle that keeps the watch
/// alive.
pub struct Registration<W> {
    pub path: String,
    pub watcher: W,
}

/// The active watches of a process. `W` is the handle of one watch; dropping
/// it ends the watch.
pub struct WatcherCollection<W> {
    entries: Vec<Registration<W>>,
}

/// Why a project is not being watched after a call of [`watch`].
#[derive(Debug, Clone, Copy, PartialEq, Eq, Structural)]
pub enum WatchError {
    /// The project's repository could not be opened.
    RepositoryUnavailable,
    /// The filesystem watch could not be set up.
    WatchFailed,
    /// The project is being watched already.
    AlreadyWatched,
}

/// How setting up a project's watch ended.
pub enum Setup<W> {
    /// The project's repository could not be opened.
    RepositoryUnavailable,
    /// The filesystem watch could not be set up.
    WatchFailed,
    /// The watch is running, under this handle.
    Ready(W),
}

/// The mapping that a list of registrations stands for.
pub open spec fn table_of<W>(entries: Seq<Registration<W>>) -> Map<Seq<char>, W>
    decreases entries.len(),
{
    if entries.len() == 0 {
        Map::empty()
    } else {
        table_of(entries.drop_last()).insert(entries.last().path@, entries.last().watcher)
    }
}

/// No two registrations are for the same path.
pub open spec fn distinct_paths<W>(entries: Seq<Registration<W>>) -> bool {
    forall|i: int, j: int|
        0 <= i < entries.len() && 0 <= j < entries.len() && i != j ==> entries[i].path@
            != entries[j].path@
}

proof fn lemma_table_dom<W>(entries: Seq<Registration<W>>, path: Seq<char>)
    ensures
        table_of(entries).dom().contains(path) <==> exists|i: int|
            0 <= i < entries.len() && entries[i].path@ == path,
    decreases entries.len(),
{
    if entries.len() > 0 {
        let init = entries.drop_last();
        lemma_table_dom(init, path);
        if table_of(entries).dom().contains(path) {
            if entries.last().path@ == path {
                assert(entries[entries.len() - 1].path@ == path);
            } else {
                let i = choose|i: int| 0 <= i < init.len() && init[i].path@ == path;
                assert(entries[i].path@ == path);
            }
        }
        if exists|i: int| 0 <= i < entries.len() && entries[i].path@ == path {
            let i = choose|i: int| 0 <= i < entries.len() && entries[i].path@ == path;
            if i < init.len() {
                assert(init[i].path@ == path);
            }
        }
    }
}

proof fn lemma_table_lookup<W>(entries: Seq<Registration<W>>, i: int)
    requires
        distinct_paths(entries),
        0 <= i < entries.len(),
    ensures
        table_of(entries).dom().contains(entries[i].path@),
        table_of(entries)[entries[i].path@] == entries[i].watcher,
    decreases entries.len(),
{
    let init = entries.drop_last();
    if i < entries.len() - 1 {
        assert(distinct_paths(init)) by {
            assert forall|a: int, b: int|
                0 <= a < init.len() && 0 <= b < init.len() && a != b implies init[a].path@
                != init[b].path@ by {
                assert(entries[a].path@ != entries[b].path@);
            }
        }
        lemma_table_lookup(init, i);
        assert(entries[i].path@ != entries[entries.len() - 1].path@);
    }
}

proof fn lemma_table_remove<W>(entries: Seq<Registration<W>>, i: int)
    requires
        distinct_paths(entries),
        0 <= i < entries.len(),
    ensures
        table_of(entries.remove(i)) == table_of(entries).remove(entries[i].path@),
        distinct_paths(entries.remove(i)),
    decreases entries.len(),
{
    let init = entries.drop_last();
    let last = entries.last();
    let gone = entries[i].path@;
    assert(distinct_paths(entries.remove(i))) by {
        assert forall|a: int, b: int|
            0 <= a < entries.remove(i).len() && 0 <= b < entries.remove(i).len() && a
                != b implies entries.remove(i)[a].path@ != entries.remove(i)[b].path@ by {
            let a0 = if a < i { a } else { a + 1 };
            let b0 = if b < i { b } else { b + 1 };
            assert(entries[a0].path@ != entries[b0].path@);
        }
    }
    if i == entries.len() - 1 {
        assert(entries.remove(i) =~= init);
        lemma_table_dom(init, gone);
        if table_of(init).dom().contains(gone) {
            let k = choose|k: int| 0 <= k < init.len() && init[k].path@ == gone;
            assert(entries[k].path@ != entries[i].path@);
        }
        assert(table_of(init) =~= table_of(entries).remove(gone));
    } else {
        assert(distinct_paths(init)) by {
            assert forall|a: int, b: int|
                0 <= a < init.len() && 0 <= b < init.len() && a != b implies init[a].path@
                != init[b].path@ by {
                assert(entries[a].path@ != entries[b].path@);
            }
        }
        lemma_table_remove(init, i);
        assert(entries.remove(i).drop_last() =~= init.remove(i));
        assert(entries.remove(i).last() == last);
        assert(entries[i].path@ != entries[entries.len() - 1].path@);
        assert(table_of(entries.remove(i)) =~= table_of(entries).remove(gone));
    }
}

impl<W> View for WatcherCollection<W> {
    type V = Map<Seq<char>, W>;

    closed spec fn view(&self) -> Map<Seq<char>, W> {
        table_of(self.entries@)
    }
}

impl<W> WatcherCollection<W> {
    /// Each project has at most one registration.
    #[verifier::type_invariant]
    spec fn one_watch_each(&self) -> bool {
        distinct_paths(self.entries@)
    }

    /// A table without watches.
    pub fn new() -> (watchers: WatcherCollection<W>)
        ensures
            watchers@ == Map::<Seq<char>, W>::empty(),
    {
        WatcherCollection { entries: Vec::new() }
    }

    /// How many projects are being watched.
    pub fn len(&self) -> (n: usize)
        ensures
            n == self@.dom().len(),
            self@.dom().finite(),
    {
        proof {
            use_type_invariant(self);
            lemma_table_len(self.entries@);
        }
        self.entries.len()
    }

    /// Where the registration of `path` stands, if there is one.
    fn position(&self, path: &String) -> (at: Option<usize>)
        ensures
            at is Some <==> self@.dom().contains(path@),
            at is Some ==> at->0 < self.entries@.len() && self.entries@[at->0 as int].path@
                == path@,
    {
        let mut i: usize = 0;
        while i < self.entries.len()
            invariant
                i <= self.entries.len(),
                forall|j: int| 0 <= j < i ==> self.entries@[j].path@ != path@,
            decreases self.entries.len() - i,
        {
            if self.entries[i].path == *path {
                proof {
                    lemma_table_dom(self.entries@, path@);
                }
                return Some(i);
            }
            i = i + 1;
        }
        proof {
            lemma_table_dom(self.entries@, path@);
        }
        None
    }

    /// Whether the project at `project_path` is being watched.
    pub fn is_watched(&self, project_path: &str) -> (watched: bool)
        ensures
            watched == self@.dom().contains(project_path@),
    {
        let path: String = project_path.to_owned();
        self.position(&path).is_some()
    }
}

proof fn lemma_table_len<W>(entries: Seq<Registration<W>>)
    requires
        distinct_paths(entries),
    ensures
        table_of(entries).dom().finite(),
        table_of(entries).dom().len() == entries.len(),
    decreases entries.len(),
{
    if entries.len() > 0 {
        let init = entries.drop_last();
        assert(distinct_paths(init)) by {
            assert forall|a: int, b: int|
                0 <= a < init.len() && 0 <= b < init.len() && a != b implies init[a].path@
                != init[b].path@ by {
                assert(entries[a].path@ != entries[b].path@);
            }
        }
        lemma_table_len(init);
        lemma_table_dom(init, entries.last().path@);
        if table_of(init).dom().contains(entries.last().path@) {
            let k = choose|k: int| 0 <= k < init.len() && init[k].path@ == entries.last().path@;
            assert(entries[k].path@ != entries[entries.len() - 1].path@);
        }
    }
}

/// Registers the watch of the project at `project_path`, once its setup has
/// ended.
///
/// A setup that failed, or a project that is being watched already, leaves
/// the table as it was; a handle that is not taken in is dropped, which ends
/// its watch.
pub fn watch<W>(watchers: &mut WatcherCollection<W>, project_path: &str, setup: Setup<W>) -> (outcome:
    Result<(), WatchError>)
    ensures
        outcome == (match setup {
            Setup::RepositoryUnavailable => Err::<(), WatchError>(WatchError::RepositoryUnavailable),
            Setup::WatchFailed => Err(WatchError::WatchFailed),
            Setup::Ready(_) => if old(watchers)@.dom().contains(project_path@) {
                Err(WatchError::AlreadyWatched)
            } else {
                Ok(())
            },
        }),
        outcome is Err ==> final(watchers)@ == old(watchers)@,
        outcome is Ok ==> setup is Ready && final(watchers)@ == old(watchers)@.insert(
            project_path@,
            setup->Ready_0,
        ),
{
    let watcher = match setup {
        Setup::RepositoryUnavailable => {
            return Err(WatchError::RepositoryUnavailable);
        },
        Setup::WatchFailed => {
            return Err(WatchError::WatchFailed);
        },
        Setup::Ready(watcher) => watcher,
    };
    let path: String = project_path.to_owned();
    if watchers.position(&path).is_some() {
        return Err(WatchError::AlreadyWatched);
    }
    let ghost before = watchers.entries@;
    proof {
        use_type_invariant(&*watchers);
        lemma_table_dom(before, path@);
    }
    let mut taken: WatcherCollection<W> = WatcherCollection { entries: Vec::new() };
    core::mem::swap(watchers, &mut taken);
    let WatcherCollection { entries: mut entries } = taken;
    entries.push(Registration { path, watcher });
    proof {
        assert(entries@.drop_last() =~= before);
        assert(distinct_paths(entries@)) by {
            assert forall|i: int, j: int|
                0 <= i < entries@.len() && 0 <= j < entries@.len() && i != j implies entries@[i].path@
                != entries@[j].path@ by {
                if i < before.len() {
                    assert(before[i].path@ == entries@[i].path@);
                }
                if j < before.len() {
                    assert(before[j].path@ == entries@[j].path@);
                }
            }
        }
    }
    *watchers = WatcherCollection { entries };
    Ok(())
}

/// Ends the watch of the project at `project_path` and hands back its handle.
/// A project that is not being watched is left alone: that is no error.
pub fn unwatch<W>(watchers: &mut WatcherCollection<W>, project_path: &str) -> (removed: Option<W>)
    ensures
        final(watchers)@ == old(watchers)@.remove(project_path@),
        removed == (if old(watchers)@.dom().contains(project_path@) {
            Some(old(watchers)@[project_path@])
        } else {
            None
        }),
        !old(watchers)@.dom().contains(project_path@) ==> final(watchers)@ == old(watchers)@,
{
    let path: String = project_path.to_owned();
    match watchers.position(&path) {
        Some(at) => {
            proof {
                use_type_invariant(&*watchers);
                lemma_table_lookup(watchers.entries@, at as int);
                lemma_table_remove(watchers.entries@, at as int);
            }
            let mut taken: WatcherCollection<W> = WatcherCollection { entries: Vec::new() };
            core::mem::swap(watchers, &mut taken);
            let WatcherCollection { entries: mut entries } = taken;
            let registration = entries.remove(at);
            *watchers = WatcherCollection { entries };
            Some(registration.watcher)
        },
        None => {
            proof {
                assert(watchers@.remove(project_path@) =~= watchers@);
            }
            None
        },
    }
}

} // verus!
