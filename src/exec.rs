//! The process table: child processes that were spawned and not yet reaped,
//! each under the id that the host gave it.
use vstd::prelude::*;

verus! {

/// Why a process operation failed.
#[derive(Debug, Clone, Copy, PartialEq, Eq, Structural)]
pub enum ProcessError {
    /// No process of that id is in the table.
    ProcessNotFound,
    /// The host could not create the process.
    SpawnFailure,
    /// The host refused to signal the process.
    KillFailure,
    /// Waiting on the process failed.
    IoFailure,
}

/// What a non-blocking look at a process found.
#[derive(Debug, Clone, Copy, PartialEq, Eq, Structural)]
pub enum ExitPoll {
    /// It has terminated, with this exit code (none when a signal ended it).
    Exited(Option<i32>),
    /// It is still running.
    StillRunning,
}

/// A handle on a running child process, as the host gives it.
pub trait ProcessHandle {
    /// Sends the process a termination signal.
    fn kill(&mut self) -> Result<(), ()>;

    /// Looks whether the process has terminated, without blocking.
    fn try_wait(&mut self) -> Result<ExitPoll, ()>;

    /// Blocks until the process terminates; gives its exit code.
    fn wait(&mut self) -> Result<Option<i32>, ()>;
}

/// The ids of a sequence of table entries, in order.
pub open spec fn ids_of<H>(entries: Seq<(u32, H)>) -> Seq<u32> {
    entries.map_values(|e: (u32, H)| e.0)
}

/// `new` is `old` with the one entry `id` taken out.
pub open spec fn removed(old: Seq<u32>, id: u32, new: Seq<u32>) -> bool {
    exists|i: int| 0 <= i < old.len() && old[i] == id && new == old.remove(i)
}

/// `new` is `old` but for the handle of the entry at `i`, whose id stays.
pub open spec fn kept_except<H>(old: Seq<(u32, H)>, new: Seq<(u32, H)>, i: int) -> bool {
    &&& new.len() == old.len()
    &&& 0 <= i < old.len()
    &&& new[i].0 == old[i].0
    &&& forall|j: int| 0 <= j < old.len() && j != i ==> new[j] == old[j]
}

/// The ids whose kill failed, in the order of the attempts; each attempt is
/// an id and whether its kill succeeded.
pub open spec fn failures(attempts: Seq<(u32, bool)>) -> Seq<u32>
    decreases attempts.len(),
{
    if attempts.len() == 0 {
        Seq::empty()
    } else {
        let rest = failures(attempts.drop_last());
        if attempts.last().1 {
            rest
        } else {
            rest.push(attempts.last().0)
        }
    }
}

/// What a shutdown reports after the given attempts: success when every
/// kill succeeded, else the ids whose kill failed.
pub open spec fn shutdown_report(attempts: Seq<(u32, bool)>) -> Result<(), Seq<u32>> {
    if failures(attempts).len() == 0 {
        Ok(())
    } else {
        Err(failures(attempts))
    }
}

pub open spec fn report_view(r: Result<(), Vec<u32>>) -> Result<(), Seq<u32>> {
    match r {
        Ok(()) => Ok(()),
        Err(v) => Err(v@),
    }
}

/// Taking out one entry keeps the ids of the others distinct, and the id
/// taken out is gone.
proof fn lemma_remove_distinct(old: Seq<u32>, i: int)
    requires
        old.no_duplicates(),
        0 <= i < old.len(),
    ensures
        old.remove(i).no_duplicates(),
        !old.remove(i).contains(old[i]),
{
    let new = old.remove(i);
    assert forall|a: int, b: int| 0 <= a < new.len() && 0 <= b < new.len() && a != b implies new[a]
        != new[b] by {
        let oa = if a < i { a } else { a + 1 };
        let ob = if b < i { b } else { b + 1 };
        assert(new[a] == old[oa]);
        assert(new[b] == old[ob]);
    }
    if new.contains(old[i]) {
        let k = choose|k: int| 0 <= k < new.len() && new[k] == old[i];
        let ok = if k < i { k } else { k + 1 };
        assert(old[ok] == old[i]);
    }
}

/// Taking out an entry and putting back one of the same id at the same place
/// changes nothing but that entry's handle.
proof fn lemma_reinsert<H>(old: Seq<(u32, H)>, i: int, e: (u32, H))
    requires
        0 <= i < old.len(),
        e.0 == old[i].0,
    ensures
        kept_except(old, old.remove(i).insert(i, e), i),
        ids_of(old.remove(i).insert(i, e)) == ids_of(old),
{
    let new = old.remove(i).insert(i, e);
    assert forall|j: int| 0 <= j < old.len() && j != i implies new[j] == old[j] by {}
    assert(ids_of(new) =~= ids_of(old));
}

/// The entries of a table with the one at `i` taken out have the ids of the
/// table with that id taken out.
proof fn lemma_ids_remove<H>(old: Seq<(u32, H)>, i: int)
    requires
        0 <= i < old.len(),
    ensures
        ids_of(old.remove(i)) == ids_of(old).remove(i),
        removed(ids_of(old), old[i].0, ids_of(old.remove(i))),
{
    assert(ids_of(old.remove(i)) =~= ids_of(old).remove(i));
}

/// A spawned process is in the table from the moment it is recorded, once,
/// until an operation takes its entry out; after that it is absent, and the
/// table holds exactly the entries it held before the process was recorded.
pub proof fn lemma_present_until_removed<H>(before: Seq<(u32, H)>, id: u32, process: H, i: int)
    requires
        ids_of(before).no_duplicates(),
        !ids_of(before).contains(id),
        0 <= i < before.len() + 1,
        before.push((id, process))[i].0 == id,
    ensures
        ids_of(before.push((id, process))).contains(id),
        ids_of(before.push((id, process))).no_duplicates(),
        !ids_of(before.push((id, process)).remove(i)).contains(id),
        before.push((id, process)).remove(i) == before,
{
    let added = before.push((id, process));
    let ids = ids_of(before);
    let aids = ids_of(added);
    assert(aids =~= ids.push(id));
    assert(aids[before.len() as int] == id);
    assert(aids.no_duplicates()) by {
        assert forall|a: int, b: int| 0 <= a < aids.len() && 0 <= b < aids.len() && a != b implies aids[a]
            != aids[b] by {
            if a < before.len() && b < before.len() {
                assert(aids[a] == ids[a] && aids[b] == ids[b]);
            } else if a < before.len() {
                assert(ids.contains(aids[a]));
            } else if b < before.len() {
                assert(ids.contains(aids[b]));
            }
        }
    }
    if i < before.len() {
        assert(aids[i] == id);
        assert(ids[i] == id);
        assert(ids.contains(id));
    }
    assert(added.remove(i) =~= before);
    lemma_ids_remove(added, i);
    lemma_remove_distinct(aids, i);
}

/// Once the entry of a process has been taken out (by a kill, a poll that
/// saw it exit, or a wait), its id is absent: a later poll or wait on it
/// finds no entry, reports `ProcessNotFound`, and leaves the table as it is.
pub proof fn lemma_killed_not_found<H>(before: Seq<(u32, H)>, id: u32, i: int)
    requires
        ids_of(before).no_duplicates(),
        0 <= i < before.len(),
        before[i].0 == id,
    ensures
        !ids_of(before.remove(i)).contains(id),
        ids_of(before.remove(i)).no_duplicates(),
{
    lemma_ids_remove(before, i);
    assert(ids_of(before)[i] == id);
    lemma_remove_distinct(ids_of(before), i);
}

/// Whether every kill of a shutdown succeeded, and if not, which ids failed.
pub fn shutdown_result(attempts: &Vec<(u32, bool)>) -> (r: Result<(), Vec<u32>>)
    ensures
        report_view(r) == shutdown_report(attempts@),
{
    let mut failed: Vec<u32> = Vec::new();
    let mut k: usize = 0;
    while k < attempts.len()
        invariant
            k <= attempts@.len(),
            failed@ == failures(attempts@.subrange(0, k as int)),
        decreases attempts@.len() - k,
    {
        let (id, ok) = attempts[k];
        proof {
            let next = attempts@.subrange(0, k + 1);
            assert(next.drop_last() =~= attempts@.subrange(0, k as int));
            assert(next.last() == attempts@[k as int]);
        }
        if !ok {
            failed.push(id);
        }
        k = k + 1;
    }
    assert(attempts@.subrange(0, k as int) =~= attempts@);
    if failed.len() == 0 {
        Ok(())
    } else {
        Err(failed)
    }
}

/// The table of spawned processes, each with the id it is known by.
#[derive(Debug)]
pub struct ExecutionController<H> {
    pub processes: Vec<(u32, H)>,
}

impl<H: ProcessHandle> ExecutionController<H> {
    /// The ids in the table, in the order of the entries.
    pub open spec fn ids(&self) -> Seq<u32> {
        ids_of(self.processes@)
    }

    /// No id has two entries.
    pub open spec fn wf(&self) -> bool {
        self.ids().no_duplicates()
    }

    /// The index of the entry of `id`, when there is one.
    pub open spec fn entry_index(&self, id: u32) -> int {
        choose|i: int| 0 <= i < self.ids().len() && self.ids()[i] == id
    }

    proof fn lemma_entry_index(&self, i: int)
        requires
            self.wf(),
            0 <= i < self.ids().len(),
        ensures
            self.entry_index(self.ids()[i]) == i,
    {
        let id = self.ids()[i];
        assert(0 <= i < self.ids().len() && self.ids()[i] == id);
        let j = self.entry_index(id);
        assert(self.ids()[j] == id);
    }

    /// An empty table.
    pub fn new() -> (r: Self)
        ensures
            r.wf(),
            r.processes@ == Seq::<(u32, H)>::empty(),
    {
        ExecutionController { processes: Vec::new() }
    }

    /// The index of the entry of `id`.
    fn position(&self, id: u32) -> (r: Option<usize>)
        requires
            self.wf(),
        ensures
            match r {
                Some(i) => i < self.ids().len() && self.ids()[i as int] == id && i == self.entry_index(id),
                None => !self.ids().contains(id),
            },
    {
        let mut i: usize = 0;
        while i < self.processes.len()
            invariant
                self.wf(),
                i <= self.processes@.len(),
                forall|j: int| 0 <= j < i ==> self.ids()[j] != id,
            decreases self.processes@.len() - i,
        {
            if self.processes[i].0 == id {
                proof {
                    self.lemma_entry_index(i as int);
                }
                return Some(i);
            }
            i = i + 1;
        }
        None
    }

    /// Whether `id` is in the table.
    pub fn contains(&self, id: u32) -> (r: bool)
        requires
            self.wf(),
        ensures
            r == self.ids().contains(id),
    {
        self.position(id).is_some()
    }

    /// Records a process that was just spawned under `id`.
    pub fn add_process(&mut self, id: u32, process: H)
        requires
            old(self).wf(),
            !old(self).ids().contains(id),
        ensures
            final(self).wf(),
            final(self).processes@ == old(self).processes@.push((id, process)),
            final(self).ids() == old(self).ids().push(id),
    {
        self.processes.push((id, process));
        assert(self.ids() =~= old(self).ids().push(id));
        proof {
            lemma_present_until_removed(old(self).processes@, id, process, old(self).processes@.len() as int);
        }
    }

    /// Records a process that was just spawned under `id`, unless the table
    /// already has an entry of that id: then the handle comes back, to be
    /// ended by the caller, and the table stays as it is.
    pub fn record_spawned(&mut self, id: u32, process: H) -> (r: Result<u32, H>)
        requires
            old(self).wf(),
        ensures
            final(self).wf(),
            old(self).ids().contains(id) <==> r is Err,
            r is Ok ==> r == Ok::<u32, H>(id) && final(self).processes@ == old(self).processes@.push(
                (id, process),
            ),
            r is Err ==> r == Err::<u32, H>(process) && final(self).processes@ == old(self).processes@,
    {
        if self.contains(id) {
            Err(process)
        } else {
            self.add_process(id, process);
            Ok(id)
        }
    }

    /// Takes the entry of `id` out of the table and hands back its handle.
    pub fn remove_process(&mut self, id: u32) -> (r: Result<H, ProcessError>)
        requires
            old(self).wf(),
        ensures
            final(self).wf(),
            old(self).ids().contains(id) <==> r is Ok,
            r is Ok ==> final(self).processes@ == old(self).processes@.remove(old(self).entry_index(id))
                && old(self).processes@[old(self).entry_index(id)] == (id, r->Ok_0),
            r is Ok ==> removed(old(self).ids(), id, final(self).ids()),
            r is Err ==> r == Err::<H, ProcessError>(ProcessError::ProcessNotFound) && final(self).processes@ == old(self).processes@,
    {
        match self.position(id) {
            None => Err(ProcessError::ProcessNotFound),
            Some(i) => {
                let (_, h) = self.processes.remove(i);
                proof {
                    lemma_ids_remove(old(self).processes@, i as int);
                    lemma_remove_distinct(old(self).ids(), i as int);
                }
                Ok(h)
            },
        }
    }

    /// Puts `entry` back at index `i`, where it was taken from.
    fn restore(&mut self, i: usize, entry: (u32, H))
        requires
            i <= old(self).processes@.len(),
            ids_of(old(self).processes@.insert(i as int, entry)).no_duplicates(),
        ensures
            final(self).wf(),
            final(self).processes@ == old(self).processes@.insert(i as int, entry),
    {
        self.processes.insert(i, entry);
    }

    /// Finishes a kill of `entry`, taken out from index `i`, given whether
    /// the host delivered the signal: a killed entry stays out; one whose
    /// signal failed goes back where it was.
    pub fn settle_kill(&mut self, i: usize, entry: (u32, H), outcome: Result<(), ()>) -> (r: Result<
        (),
        ProcessError,
    >)
        requires
            old(self).wf(),
            i <= old(self).processes@.len(),
            ids_of(old(self).processes@.insert(i as int, entry)).no_duplicates(),
        ensures
            final(self).wf(),
            outcome is Ok ==> r == Ok::<(), ProcessError>(()) && final(self).processes@ == old(self).processes@,
            outcome is Err ==> r == Err::<(), ProcessError>(ProcessError::KillFailure) && final(self).processes@ == old(self).processes@.insert(i as int, entry),
    {
        match outcome {
            Ok(()) => Ok(()),
            Err(()) => {
                self.restore(i, entry);
                Err(ProcessError::KillFailure)
            },
        }
    }

    /// Finishes a poll of `entry`, taken out from index `i`, given what the
    /// host answered: an exited entry stays out and its code is reported; a
    /// running one, or one whose poll failed, goes back where it was.
    pub fn settle_poll(&mut self, i: usize, entry: (u32, H), outcome: Result<ExitPoll, ()>) -> (r:
        Result<ExitPoll, ProcessError>)
        requires
            old(self).wf(),
            i <= old(self).processes@.len(),
            ids_of(old(self).processes@.insert(i as int, entry)).no_duplicates(),
        ensures
            final(self).wf(),
            outcome matches Ok(ExitPoll::Exited(c)) ==> r == Ok::<ExitPoll, ProcessError>(
                ExitPoll::Exited(c),
            ) && final(self).processes@ == old(self).processes@,
            outcome == Ok::<ExitPoll, ()>(ExitPoll::StillRunning) ==> r == Ok::<ExitPoll, ProcessError>(
                ExitPoll::StillRunning,
            ) && final(self).processes@ == old(self).processes@.insert(i as int, entry),
            outcome is Err ==> r == Err::<ExitPoll, ProcessError>(ProcessError::IoFailure) && final(self).processes@ == old(self).processes@.insert(i as int, entry),
    {
        match outcome {
            Ok(ExitPoll::Exited(c)) => Ok(ExitPoll::Exited(c)),
            Ok(ExitPoll::StillRunning) => {
                self.restore(i, entry);
                Ok(ExitPoll::StillRunning)
            },
            Err(()) => {
                self.restore(i, entry);
                Err(ProcessError::IoFailure)
            },
        }
    }

    /// Finishes a wait on `entry`, taken out from index `i`, given what the
    /// host answered: the exit code is handed on and the entry stays out; when
    /// the wait failed, the entry goes back where it was.
    pub fn settle_wait(&mut self, i: usize, entry: (u32, H), outcome: Result<Option<i32>, ()>) -> (r:
        Result<Option<i32>, ProcessError>)
        requires
            old(self).wf(),
            i <= old(self).processes@.len(),
            ids_of(old(self).processes@.insert(i as int, entry)).no_duplicates(),
        ensures
            final(self).wf(),
            outcome matches Ok(c) ==> r == Ok::<Option<i32>, ProcessError>(c) && final(self).processes@
                == old(self).processes@,
            outcome is Err ==> r == Err::<Option<i32>, ProcessError>(ProcessError::IoFailure) && final(self).processes@ == old(self).processes@.insert(i as int, entry),
    {
        match outcome {
            Ok(c) => Ok(c),
            Err(()) => {
                self.restore(i, entry);
                Err(ProcessError::IoFailure)
            },
        }
    }

    /// Signals the process `id` to terminate and takes it out of the table.
    /// When the signal fails, the entry stays, with its id at its place.
    pub fn kill_process(&mut self, id: u32) -> (r: Result<(), ProcessError>)
        requires
            old(self).wf(),
        ensures
            final(self).wf(),
            !old(self).ids().contains(id) <==> r == Err::<(), ProcessError>(ProcessError::ProcessNotFound),
            !old(self).ids().contains(id) ==> final(self).processes@ == old(self).processes@,
            r is Ok ==> final(self).processes@ == old(self).processes@.remove(old(self).entry_index(id)),
            r is Ok ==> removed(old(self).ids(), id, final(self).ids()),
            old(self).ids().contains(id) && r is Err ==> r == Err::<(), ProcessError>(
                ProcessError::KillFailure,
            ) && kept_except(old(self).processes@, final(self).processes@, old(self).entry_index(id)),
            r is Err ==> final(self).ids() == old(self).ids(),
    {
        match self.position(id) {
            None => Err(ProcessError::ProcessNotFound),
            Some(i) => {
                let (pid, mut h) = self.processes.remove(i);
                proof {
                    lemma_ids_remove(old(self).processes@, i as int);
                    lemma_remove_distinct(old(self).ids(), i as int);
                    assert(self.processes@.insert(i as int, (pid, h)) =~= old(self).processes@);
                }
                let outcome = h.kill();
                proof {
                    lemma_reinsert(old(self).processes@, i as int, (pid, h));
                }
                self.settle_kill(i, (pid, h), outcome)
            },
        }
    }

    /// Looks, without blocking, whether the process `id` has terminated. A
    /// terminated process is taken out of the table; a running one stays.
    pub fn get_exit_code(&mut self, id: u32) -> (r: Result<ExitPoll, ProcessError>)
        requires
            old(self).wf(),
        ensures
            final(self).wf(),
            !old(self).ids().contains(id) <==> r == Err::<ExitPoll, ProcessError>(
                ProcessError::ProcessNotFound,
            ),
            !old(self).ids().contains(id) ==> final(self).processes@ == old(self).processes@,
            r matches Ok(ExitPoll::Exited(_)) ==> final(self).processes@ == old(self).processes@.remove(
                old(self).entry_index(id),
            ),
            r matches Ok(ExitPoll::Exited(_)) ==> removed(old(self).ids(), id, final(self).ids()),
            r == Ok::<ExitPoll, ProcessError>(ExitPoll::StillRunning) ==> kept_except(
                old(self).processes@,
                final(self).processes@,
                old(self).entry_index(id),
            ),
            old(self).ids().contains(id) && r is Err ==> r == Err::<ExitPoll, ProcessError>(
                ProcessError::IoFailure,
            ) && kept_except(old(self).processes@, final(self).processes@, old(self).entry_index(id)),
            r is Err || r == Ok::<ExitPoll, ProcessError>(ExitPoll::StillRunning) ==> final(self).ids()
                == old(self).ids(),
    {
        match self.position(id) {
            None => Err(ProcessError::ProcessNotFound),
            Some(i) => {
                let (pid, mut h) = self.processes.remove(i);
                proof {
                    lemma_ids_remove(old(self).processes@, i as int);
                    lemma_remove_distinct(old(self).ids(), i as int);
                    assert(self.processes@.insert(i as int, (pid, h)) =~= old(self).processes@);
                }
                let outcome = h.try_wait();
                proof {
                    lemma_reinsert(old(self).processes@, i as int, (pid, h));
                }
                self.settle_poll(i, (pid, h), outcome)
            },
        }
    }

    /// Blocks until the process `id` terminates, takes it out of the table
    /// and gives its exit code. When waiting fails, the entry stays.
    pub fn wait_for_process(&mut self, id: u32) -> (r: Result<Option<i32>, ProcessError>)
        requires
            old(self).wf(),
        ensures
            final(self).wf(),
            !old(self).ids().contains(id) <==> r == Err::<Option<i32>, ProcessError>(
                ProcessError::ProcessNotFound,
            ),
            !old(self).ids().contains(id) ==> final(self).processes@ == old(self).processes@,
            r is Ok ==> final(self).processes@ == old(self).processes@.remove(old(self).entry_index(id)),
            r is Ok ==> removed(old(self).ids(), id, final(self).ids()),
            old(self).ids().contains(id) && r is Err ==> r == Err::<Option<i32>, ProcessError>(
                ProcessError::IoFailure,
            ) && kept_except(old(self).processes@, final(self).processes@, old(self).entry_index(id)),
            r is Err ==> final(self).ids() == old(self).ids(),
    {
        match self.position(id) {
            None => Err(ProcessError::ProcessNotFound),
            Some(i) => {
                let (pid, mut h) = self.processes.remove(i);
                proof {
                    lemma_ids_remove(old(self).processes@, i as int);
                    lemma_remove_distinct(old(self).ids(), i as int);
                    assert(self.processes@.insert(i as int, (pid, h)) =~= old(self).processes@);
                }
                let outcome = h.wait();
                proof {
                    lemma_reinsert(old(self).processes@, i as int, (pid, h));
                }
                self.settle_wait(i, (pid, h), outcome)
            },
        }
    }

    /// Signals every process in the table to terminate, in the order of the
    /// entries, and empties the table. A failed signal does not stop the
    /// others; the report is `shutdown_report` of the attempts made, one per
    /// entry.
    pub fn kill_all(&mut self) -> (r: Result<(), Vec<u32>>)
        requires
            old(self).wf(),
        ensures
            final(self).wf(),
            final(self).processes@ == Seq::<(u32, H)>::empty(),
            exists|attempts: Seq<(u32, bool)>|
                ids_of(attempts) == old(self).ids() && report_view(r) == #[trigger] shutdown_report(
                    attempts,
                ),
    {
        let mut attempts: Vec<(u32, bool)> = Vec::new();
        let ghost n = self.processes@.len();
        while self.processes.len() > 0
            invariant
                n == old(self).processes@.len(),
                attempts@.len() <= n,
                self.processes@ == old(self).processes@.subrange(attempts@.len() as int, n as int),
                ids_of(attempts@) == old(self).ids().subrange(0, attempts@.len() as int),
            decreases self.processes@.len(),
        {
            let ghost k: int = attempts@.len() as int;
            let (id, mut h) = self.processes.remove(0);
            let ok = h.kill().is_ok();
            attempts.push((id, ok));
            proof {
                assert(self.processes@ =~= old(self).processes@.subrange(k + 1, n as int));
                assert(old(self).processes@[k].0 == id);
                assert(ids_of(attempts@) =~= old(self).ids().subrange(0, k + 1));
            }
        }
        assert(ids_of(attempts@) =~= old(self).ids());
        assert(self.ids() =~= Seq::<u32>::empty());
        shutdown_result(&attempts)
    }
}

impl<H: ProcessHandle> Default for ExecutionController<H> {
    /// An empty table.
    fn default() -> (r: Self)
        ensures
            r.wf(),
            r.processes@ == Seq::<(u32, H)>::empty(),
    {
        Self::new()
    }
}

} // verus!
