//! The shared work cursor of a worker pool.
use vstd::prelude::*;

verus! {

/// The tasks of a worker pool, handed out one at a time in their order.
/// Workers share one queue under mutual exclusion and each claims the next
/// task whenever it is free, so every task is run by exactly one worker.
pub struct TaskQueue<T> {
    /// The tasks not claimed yet, the next one last.
    pending: Vec<T>,
    tasks: Ghost<Seq<T>>,
}

impl<T> TaskQueue<T> {
    /// All tasks of the queue, in order.
    pub closed spec fn tasks(&self) -> Seq<T> {
        self.tasks@
    }

    /// How many tasks have been claimed so far.
    pub closed spec fn claimed(&self) -> nat {
        (self.tasks@.len() - self.pending@.len()) as nat
    }

    /// The tasks claimed so far, in the order in which they were claimed.
    pub open spec fn handed_out(&self) -> Seq<T> {
        self.tasks().take(self.claimed() as int)
    }

    /// The pending tasks are the tasks after those claimed.
    pub closed spec fn wf(&self) -> bool {
        let n = self.tasks@.len();
        &&& self.pending@.len() <= n
        &&& forall|i: int|
            0 <= i < self.pending@.len() ==> #[trigger] self.pending@[i] == self.tasks@[n - 1 - i]
    }

    /// A queue of `tasks` of which none is claimed yet.
    pub fn new(tasks: Vec<T>) -> (q: Self)
        ensures
            q.wf(),
            q.tasks() == tasks@,
            q.claimed() == 0,
    {
        let ghost all = tasks@;
        let mut tasks = tasks;
        let mut pending: Vec<T> = Vec::new();
        while tasks.len() > 0
            invariant
                tasks@.len() + pending@.len() == all.len(),
                tasks@ == all.take(tasks@.len() as int),
                forall|i: int|
                    0 <= i < pending@.len() ==> #[trigger] pending@[i] == all[all.len() - 1 - i],
            decreases tasks.len(),
        {
            let t = tasks.pop().unwrap();
            pending.push(t);
        }
        TaskQueue { pending, tasks: Ghost(all) }
    }

    /// Claims the next task: the first one not claimed yet, or `None` when
    /// all have been claimed.
    pub fn claim(&mut self) -> (r: Option<T>)
        requires
            old(self).wf(),
        ensures
            final(self).wf(),
            final(self).tasks() == old(self).tasks(),
            old(self).claimed() < old(self).tasks().len() ==> {
                &&& r == Some(old(self).tasks()[old(self).claimed() as int])
                &&& final(self).claimed() == old(self).claimed() + 1
            },
            old(self).claimed() >= old(self).tasks().len() ==> {
                &&& r is None
                &&& final(self).claimed() == old(self).claimed()
            },
    {
        let r = self.pending.pop();
        proof {
            let n = self.tasks@.len();
            assert forall|i: int| 0 <= i < self.pending@.len() implies #[trigger] self.pending@[i]
                == self.tasks@[n - 1 - i] by {
                assert(self.pending@[i] == old(self).pending@[i]);
            }
        }
        r
    }
}

/// Claiming hands out every task exactly once, in order: each claim yields
/// the task at the position of the number of earlier claims, so no two
/// claims yield the same position, and once the queue is drained the claims
/// have yielded exactly the tasks of the queue.
pub proof fn lemma_drained_queue_handed_out_each_task_once<T>(q: TaskQueue<T>)
    requires
        q.wf(),
        q.claimed() >= q.tasks().len(),
    ensures
        q.handed_out() == q.tasks(),
        q.handed_out().len() == q.tasks().len(),
        forall|i: int| 0 <= i < q.tasks().len() ==> #[trigger] q.handed_out()[i] == q.tasks()[i],
{
    assert(q.claimed() == q.tasks().len());
    assert(q.tasks().take(q.claimed() as int) =~= q.tasks());
}

/// Each claim extends what was handed out by exactly the next task.
pub proof fn lemma_claim_extends_handed_out<T>(before: TaskQueue<T>, after: TaskQueue<T>, r: Option<T>)
    requires
        before.wf(),
        before.claimed() < before.tasks().len(),
        after.tasks() == before.tasks(),
        after.claimed() == before.claimed() + 1,
        r == Some(before.tasks()[before.claimed() as int]),
    ensures
        after.handed_out() == before.handed_out().push(r->0),
{
    assert(after.handed_out() =~= before.handed_out().push(r->0));
}

} // verus!
