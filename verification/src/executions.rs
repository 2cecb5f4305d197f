//! The executions the runtime keeps in memory, each under its identifier:
//! registered when a workflow is launched or read back from the history,
//! looked up for its status and parameters, cancelled, marked finished when
//! its program exits, and dropped by a clean-up once it no longer runs.
use vstd::prelude::*;

use std::collections::HashMap;

use crate::runtime::exit_status;
use crate::ui::tree::RunStatus;

verus! {

broadcast use vstd::std_specs::hash::group_hash_axioms;

/// What the runtime keeps of one execution. `T` is the type of a point in
/// time; `holds_process` says whether the execution's program is still held
/// (to be waited for or killed).
pub struct ExecutionRecord<T> {
    pub workflow_id: String,
    pub workflow_name: String,
    pub status: RunStatus,
    pub holds_process: bool,
    pub start_time: T,
    pub end_time: Option<T>,
    pub params: Vec<(String, String)>,
    pub exit_code: Option<i32>,
}

impl<T> ExecutionRecord<T> {
    /// The record after a cancellation at `now`: failed, ended, and no
    /// longer holding its program; the exit code stays unknown.
    pub open spec fn cancelled(self, now: T) -> Self {
        ExecutionRecord { status: RunStatus::Failed, end_time: Some(now), holds_process: false, ..self }
    }

    /// The record once its program was taken to be waited for.
    pub open spec fn released(self) -> Self {
        ExecutionRecord { holds_process: false, ..self }
    }

    /// The record after its program exited at `now`.
    pub open spec fn exited(self, success: bool, exit_code: Option<i32>, now: T) -> Self {
        ExecutionRecord {
            status: if success {
                RunStatus::Completed
            } else {
                RunStatus::Failed
            },
            end_time: Some(now),
            exit_code: exit_code,
            ..self
        }
    }
}

// ============================================================================
// The table
// ============================================================================

/// The executions in memory, each under its identifier.
pub struct ExecutionTable<T> {
    map: HashMap<u128, ExecutionRecord<T>>,
}

impl<T> View for ExecutionTable<T> {
    type V = Map<u128, ExecutionRecord<T>>;

    closed spec fn view(&self) -> Map<u128, ExecutionRecord<T>> {
        self.map@
    }
}

/// The table after the execution `id` was cancelled at `now`: one that
/// still holds its program is marked cancelled; any other is kept as it is.
pub open spec fn after_cancel<T>(m: Map<u128, ExecutionRecord<T>>, id: u128, now: T) -> Map<
    u128,
    ExecutionRecord<T>,
> {
    if m.contains_key(id) && m[id].holds_process {
        m.insert(id, m[id].cancelled(now))
    } else {
        m
    }
}

/// The executions whose program still runs.
pub open spec fn still_running<T>(m: Map<u128, ExecutionRecord<T>>) -> Map<u128, ExecutionRecord<T>> {
    m.restrict(m.dom().filter(|id: u128| m[id].status == RunStatus::Running))
}

impl<T: Copy> ExecutionTable<T> {
    /// An empty table.
    pub fn new() -> (t: Self)
        ensures
            t@ == Map::<u128, ExecutionRecord<T>>::empty(),
    {
        ExecutionTable { map: HashMap::new() }
    }

    /// Registers `record` under `id`, replacing what was there.
    pub fn insert(&mut self, id: u128, record: ExecutionRecord<T>)
        ensures
            final(self)@ == old(self)@.insert(id, record),
    {
        self.map.insert(id, record);
    }

    /// The record of the execution `id`, if the table holds it.
    pub fn get(&self, id: u128) -> (r: Option<&ExecutionRecord<T>>)
        ensures
            match r {
                Some(rec) => self@.contains_key(id) && *rec == self@[id],
                None => !self@.contains_key(id),
            },
    {
        self.map.get(&id)
    }

    /// The status of the execution `id`, if the table holds it.
    pub fn status(&self, id: u128) -> (r: Option<RunStatus>)
        ensures
            r == (if self@.contains_key(id) {
                Some(self@[id].status)
            } else {
                None
            }),
    {
        match self.get(id) {
            Some(rec) => Some(rec.status),
            None => None,
        }
    }

    /// Cancels the execution `id` at `now`: `None` when the table does not
    /// hold it; otherwise whether its program was still held, which is then
    /// to be killed, the execution being marked failed and ended.
    pub fn cancel(&mut self, id: u128, now: T) -> (r: Option<bool>)
        ensures
            r == (if old(self)@.contains_key(id) {
                Some(old(self)@[id].holds_process)
            } else {
                None
            }),
            final(self)@ == after_cancel(old(self)@, id, now),
    {
        match self.map.remove(&id) {
            Some(mut rec) => {
                if rec.holds_process {
                    rec.status = RunStatus::Failed;
                    rec.end_time = Some(now);
                    rec.holds_process = false;
                    assert(rec == old(self)@[id].cancelled(now));
                    self.map.insert(id, rec);
                    assert(self.map@ =~= old(self)@.insert(id, rec));
                    Some(true)
                } else {
                    self.map.insert(id, rec);
                    assert(self.map@ =~= old(self)@);
                    Some(false)
                }
            },
            None => {
                assert(self.map@ =~= old(self)@);
                None
            },
        }
    }

    /// Takes the program of the execution `id` to be waited for; the
    /// errors are those of a missing execution and of one that holds no
    /// program.
    pub fn take_process(&mut self, id: u128) -> (r: Result<(), &'static str>)
        ensures
            !old(self)@.contains_key(id) ==> r == Err::<(), &'static str>("Execution not found")
                && final(self)@ == old(self)@,
            old(self)@.contains_key(id) && !old(self)@[id].holds_process ==> r == Err::<
                (),
                &'static str,
            >("No child process available") && final(self)@ == old(self)@,
            old(self)@.contains_key(id) && old(self)@[id].holds_process ==> r is Ok && final(self)@
                == old(self)@.insert(id, old(self)@[id].released()),
    {
        match self.map.remove(&id) {
            Some(mut rec) => {
                if rec.holds_process {
                    rec.holds_process = false;
                    assert(rec == old(self)@[id].released());
                    self.map.insert(id, rec);
                    assert(self.map@ =~= old(self)@.insert(id, rec));
                    Ok(())
                } else {
                    self.map.insert(id, rec);
                    assert(self.map@ =~= old(self)@);
                    Err("No child process available")
                }
            },
            None => {
                assert(self.map@ =~= old(self)@);
                Err("Execution not found")
            },
        }
    }

    /// Records that the program of the execution `id` exited at `now`,
    /// successfully or not, with `exit_code`; false when the table does not
    /// hold the execution, which is then left as it is.
    pub fn record_exit(&mut self, id: u128, success: bool, exit_code: Option<i32>, now: T) -> (found:
        bool)
        ensures
            found == old(self)@.contains_key(id),
            final(self)@ == (if found {
                old(self)@.insert(id, old(self)@[id].exited(success, exit_code, now))
            } else {
                old(self)@
            }),
    {
        match self.map.remove(&id) {
            Some(mut rec) => {
                rec.status = exit_status(success);
                rec.end_time = Some(now);
                rec.exit_code = exit_code;
                assert(rec == old(self)@[id].exited(success, exit_code, now));
                self.map.insert(id, rec);
                assert(self.map@ =~= old(self)@.insert(id, rec));
                true
            },
            None => {
                assert(self.map@ =~= old(self)@);
                false
            },
        }
    }

    /// Drops every execution that no longer runs.
    pub fn remove_finished(&mut self)
        ensures
            final(self)@ == still_running(old(self)@),
    {
        let ghost orig = self.map@;
        let mut finished: Vec<u128> = Vec::new();
        for e in it: self.map.iter()
            invariant
                orig == self.map@,
                forall|j: int|
                    0 <= j < finished@.len() ==> orig.contains_key(#[trigger] finished@[j])
                        && orig[finished@[j]].status != RunStatus::Running,
                forall|j: int|
                    0 <= j < it.index() && (#[trigger] it.seq()[j]).1.status != RunStatus::Running
                        ==> finished@.contains(*it.seq()[j].0),
        {
            broadcast use vstd::seq_lib::lemma_seq_contains_after_push;

            let (k, v) = e;
            if v.status != RunStatus::Running {
                finished.push(*k);
            }
        }
        let mut i: usize = 0;
        while i < finished.len()
            invariant
                i <= finished@.len(),
                forall|j: int|
                    0 <= j < finished@.len() ==> orig.contains_key(#[trigger] finished@[j])
                        && orig[finished@[j]].status != RunStatus::Running,
                forall|k: u128|
                    orig.contains_key(k) && orig[k].status != RunStatus::Running
                        ==> #[trigger] finished@.contains(k),
                forall|k: u128|
                    #[trigger] self.map@.contains_key(k) <==> (orig.contains_key(k)
                        && !finished@.take(i as int).contains(k)),
                forall|k: u128| #[trigger] self.map@.contains_key(k) ==> self.map@[k] == orig[k],
            decreases finished@.len() - i,
        {
            broadcast use vstd::seq_lib::lemma_seq_contains_after_push;

            let id = finished[i];
            self.map.remove(&id);
            assert(finished@.take(i + 1) =~= finished@.take(i as int).push(id));
            i = i + 1;
        }
        assert(finished@.take(i as int) =~= finished@);
        assert(self.map@ =~= still_running(orig));
    }
}

// ============================================================================
// Laws
// ============================================================================

/// What is read of an execution right after it was registered is the
/// record registered, and the other executions are read as before.
pub proof fn law_read_after_register<T>(m: Map<u128, ExecutionRecord<T>>, id: u128, record: ExecutionRecord<T>, other: u128)
    requires
        other != id,
    ensures
        m.insert(id, record).contains_key(id),
        m.insert(id, record)[id] == record,
        m.insert(id, record).contains_key(other) == m.contains_key(other),
        m.contains_key(other) ==> m.insert(id, record)[other] == m[other],
{
}

/// A cancelled execution whose program was still held reads as failed and
/// ended at the time of cancellation, and a later clean-up drops it.
pub proof fn law_cancelled_execution_is_failed_and_dropped<T>(m: Map<u128, ExecutionRecord<T>>, id: u128, now: T)
    requires
        m.contains_key(id),
        m[id].holds_process,
    ensures
        after_cancel(m, id, now)[id].status == RunStatus::Failed,
        after_cancel(m, id, now)[id].end_time == Some(now),
        !still_running(after_cancel(m, id, now)).contains_key(id),
{
}

/// Once the program of an execution has exited, the next clean-up drops the
/// execution, and keeps every other one that still runs.
pub proof fn law_exited_execution_is_dropped<T>(
    m: Map<u128, ExecutionRecord<T>>,
    id: u128,
    success: bool,
    exit_code: Option<i32>,
    now: T,
    other: u128,
)
    requires
        m.contains_key(id),
        other != id,
    ensures
        !still_running(m.insert(id, m[id].exited(success, exit_code, now))).contains_key(id),
        m.contains_key(other) && m[other].status == RunStatus::Running ==> still_running(
            m.insert(id, m[id].exited(success, exit_code, now)),
        ).contains_key(other),
{
}

} // verus!
