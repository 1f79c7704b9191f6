use vstd::prelude::*;
use vstd::string::StringExecFns;

use crate::value::{TaskId, Value, ValueM, vmodel};

verus! {

broadcast use vstd::std_specs::vec::group_vec_axioms;

/// The state of one asynchronous task.
#[derive(Debug)]
pub enum AsyncState {
    /// Still running on the worker.
    Pending,
    /// Finished with a value.
    Ready(Value),
    /// Finished with an error message.
    Failed(String),
    /// Aborted before finishing.
    Cancelled,
}

/// The mathematical shape of a task state.
pub enum AsyncStateM {
    Pending,
    Ready(ValueM),
    Failed(Seq<char>),
    Cancelled,
}

/// The model of a task state.
pub open spec fn smodel(s: AsyncState) -> AsyncStateM {
    match s {
        AsyncState::Pending => AsyncStateM::Pending,
        AsyncState::Ready(v) => AsyncStateM::Ready(vmodel(v)),
        AsyncState::Failed(m) => AsyncStateM::Failed(m@),
        AsyncState::Cancelled => AsyncStateM::Cancelled,
    }
}

/// Work the machine asks the embedding worker to perform. The worker
/// interprets each request off the machine's thread and posts the
/// task's terminal state back.
#[derive(Debug)]
pub enum SpawnSpec {
    /// Sleep for the given number of milliseconds, then finish with
    /// unit.
    Sleep(u64),
    /// Wait for each listed task in order and finish with the list of
    /// their results; result order matches the input order.
    Parallel(Vec<TaskId>),
    /// Poll the inner task until it finishes or the deadline in
    /// milliseconds passes; on the deadline, cancel it and finish with
    /// `None`.
    Timeout(u64, TaskId),
    /// Wait for the inner task and finish with an `Ok` or `Error`
    /// result value instead of propagating its failure.
    Catch(TaskId),
    /// Abort the task's work on the worker; its state is already
    /// recorded cancelled.
    Cancel,
}

/// One queued request for the worker.
#[derive(Debug)]
pub struct SpawnRequest {
    pub id: TaskId,
    pub work: SpawnSpec,
}

/// The table of task states, keyed by task identifier. Identifiers are
/// unique: an insert for a present key replaces its state.
#[derive(Debug)]
pub struct TaskTable {
    pub entries: Vec<(u64, AsyncState)>,
}

/// The last state recorded for an identifier, if any.
pub open spec fn table_lookup(entries: Seq<(u64, AsyncState)>, id: u64) -> Option<
    AsyncStateM,
>
    decreases entries,
{
    if entries.len() == 0 {
        None
    } else if entries.last().0 == id {
        Some(smodel(entries.last().1))
    } else {
        table_lookup(entries.take(entries.len() - 1), id)
    }
}

impl TaskTable {
    /// An empty table.
    pub fn new() -> (r: TaskTable)
        ensures
            forall|id: u64| table_lookup(r.entries@, id) is None,
    {
        let t = TaskTable { entries: Vec::new() };
        proof {
            assert(t.entries@.len() == 0);
        }
        t
    }

    /// Record `state` for `id`, replacing any earlier record.
    pub fn set(&mut self, id: u64, state: AsyncState)
        ensures
            table_lookup(final(self).entries@, id) == Some(smodel(state)),
            forall|other: u64| other != id ==> table_lookup(final(self).entries@, other)
                == table_lookup(old(self).entries@, other),
    {
        let ghost pre = self.entries@;
        let ghost stm = smodel(state);
        self.entries.push((id, state));
        proof {
            assert(self.entries@.last().0 == id);
            assert forall|other: u64| other != id implies table_lookup(
                self.entries@,
                other,
            ) == table_lookup(pre, other) by {
                assert(self.entries@.take(self.entries@.len() - 1) =~= pre);
            }
        }
    }

    /// The current state recorded for `id`.
    pub fn get(&self, id: u64) -> (r: Option<&AsyncState>)
        ensures
            match r {
                Some(s) => table_lookup(self.entries@, id) == Some(smodel(*s)),
                None => table_lookup(self.entries@, id) is None,
            },
    {
        let mut i: usize = self.entries.len();
        proof {
            assert(self.entries@.take(self.entries@.len() as int) =~= self.entries@);
        }
        while i > 0
            invariant
                i <= self.entries@.len(),
                table_lookup(self.entries@, id) == table_lookup(
                    self.entries@.take(i as int),
                    id,
                ),
            decreases i,
        {
            i = i - 1;
            if self.entries[i].0 == id {
                proof {
                    assert(self.entries@.take(i + 1).last() == self.entries@[i as int]);
                }
                return Some(&self.entries[i].1);
            }
            proof {
                assert(self.entries@.take(i + 1).take(i as int)
                    =~= self.entries@.take(i as int));
            }
        }
        None
    }

    /// Forget the record for `id`, if any.
    pub fn remove(&mut self, id: u64)
        ensures
            table_lookup(final(self).entries@, id) is None,
            forall|other: u64| other != id ==> table_lookup(final(self).entries@, other)
                == table_lookup(old(self).entries@, other),
    {
        let ghost pre = self.entries@;
        let mut rest: Vec<(u64, AsyncState)> = Vec::new();
        core::mem::swap(&mut rest, &mut self.entries);
        let mut out: Vec<(u64, AsyncState)> = Vec::new();
        proof {
            assert(pre.take(0) =~= Seq::<(u64, AsyncState)>::empty());
            assert(out@ =~= filter_out(pre.take(0), id));
        }
        while rest.len() > 0
            invariant
                rest@.len() <= pre.len(),
                rest@ == pre.skip(pre.len() - rest@.len()),
                out@ == filter_out(pre.take(pre.len() - rest@.len()), id),
            decreases rest@.len(),
        {
            let ghost done = pre.len() - rest@.len();
            let e = rest.remove(0);
            proof {
                assert(e == pre[done]);
                assert(rest@ =~= pre.skip(done + 1));
                assert(pre.take(done + 1).take(done) =~= pre.take(done));
                assert(pre.take(done + 1).last() == pre[done]);
            }
            if e.0 != id {
                out.push(e);
            }
            proof {
                assert(out@ =~= filter_out(pre.take(done + 1), id));
            }
        }
        proof {
            assert(pre.take(pre.len() as int) =~= pre);
            lemma_filter_out(pre, id);
        }
        self.entries = out;
    }
}


/// What a waiting caller does next, given a task's current state.
#[derive(Debug)]
pub enum BlockStep {
    /// Keep waiting: the task is still pending.
    Wait,
    /// The task finished with this value.
    Done(Value),
    /// The task failed or was cancelled, with this message.
    Fail(String),
}

/// The decision `block_on` takes at each poll: wait on pending, hand
/// out the value on ready, and turn a failure or cancellation into an
/// error message.
pub fn block_on_decision(state: &AsyncState) -> (r: BlockStep)
    ensures
        match smodel(*state) {
            AsyncStateM::Pending => r matches BlockStep::Wait,
            AsyncStateM::Ready(v) => r matches BlockStep::Done(out)
                && vmodel(out) == v,
            AsyncStateM::Failed(m) => r matches BlockStep::Fail(out) && out@ == m,
            AsyncStateM::Cancelled => r matches BlockStep::Fail(out)
                && out@ == "Task was cancelled"@,
        },
{
    match state {
        AsyncState::Pending => BlockStep::Wait,
        AsyncState::Ready(v) => BlockStep::Done(v.duplicate()),
        AsyncState::Failed(m) => BlockStep::Fail(m.clone()),
        AsyncState::Cancelled => BlockStep::Fail(String::from_str("Task was cancelled")),
    }
}

/// What a timeout watcher does next.
#[derive(Debug)]
pub enum TimeoutStep {
    /// Keep polling: the task is pending and the deadline has not
    /// passed.
    Wait,
    /// The deadline passed while the task was pending: cancel it and
    /// finish with the `None` option value.
    CancelAndNone,
    /// The task finished in time: finish with `Some` of its value.
    FinishSome(Value),
    /// The task was cancelled elsewhere: finish with `None`.
    FinishNone,
    /// The task failed: propagate its message.
    Fail(String),
}

/// The decision a timeout watcher takes at each poll: once the elapsed
/// time passes the limit while the task is still pending, the task is
/// cancelled and the result is `None`; a value arriving in time is
/// wrapped in `Some`.
pub fn timeout_decision(inner: &AsyncState, elapsed_ms: u64, limit_ms: u64) -> (r:
    TimeoutStep)
    ensures
        match smodel(*inner) {
            AsyncStateM::Pending => if elapsed_ms > limit_ms {
                r matches TimeoutStep::CancelAndNone
            } else {
                r matches TimeoutStep::Wait
            },
            AsyncStateM::Ready(v) => r matches TimeoutStep::FinishSome(out)
                && vmodel(out) == v,
            AsyncStateM::Failed(m) => r matches TimeoutStep::Fail(out) && out@ == m,
            AsyncStateM::Cancelled => r matches TimeoutStep::FinishNone,
        },
{
    match inner {
        AsyncState::Pending => {
            if elapsed_ms > limit_ms {
                TimeoutStep::CancelAndNone
            } else {
                TimeoutStep::Wait
            }
        },
        AsyncState::Ready(v) => TimeoutStep::FinishSome(v.duplicate()),
        AsyncState::Failed(m) => TimeoutStep::Fail(m.clone()),
        AsyncState::Cancelled => TimeoutStep::FinishNone,
    }
}

/// The entries with the given identifier left out, order kept.
pub open spec fn filter_out(s: Seq<(u64, AsyncState)>, id: u64) -> Seq<(u64, AsyncState)>
    decreases s,
{
    if s.len() == 0 {
        Seq::<(u64, AsyncState)>::empty()
    } else if s.last().0 == id {
        filter_out(s.take(s.len() - 1), id)
    } else {
        filter_out(s.take(s.len() - 1), id).push(s.last())
    }
}

/// Filtering an identifier out removes its record and keeps every
/// other identifier's lookup unchanged.
proof fn lemma_filter_out(s: Seq<(u64, AsyncState)>, id: u64)
    ensures
        table_lookup(filter_out(s, id), id) is None,
        forall|other: u64| other != id ==> #[trigger] table_lookup(filter_out(s, id), other)
            == table_lookup(s, other),
    decreases s,
{
    if s.len() > 0 {
        lemma_filter_out(s.take(s.len() - 1), id);
        if s.last().0 == id {
        } else {
            let f = filter_out(s.take(s.len() - 1), id).push(s.last());
            assert(f.last() == s.last());
            assert(f.take(f.len() - 1) =~= filter_out(s.take(s.len() - 1), id));
        }
    }
}

} // verus!