//! Running one task per log group, a bounded number of them at a time.
//!
//! The tasks themselves run elsewhere. The pool decides on admission: it
//! says which task may start, takes word of each task whose body has
//! completed, and never lets more tasks hold a slot than it has slots.

use vstd::prelude::*;
use vstd::set_lib::{lemma_int_range, lemma_len_subset, set_int_range};

verus! {

/// The number of tasks that run at a time unless a pool is made with another.
pub const MAX_CONCURRENT_TASKS: usize = 5;

/// The state of admission over the tasks `0` to `total - 1`.
pub struct Admission {
    /// The number of slots.
    pub capacity: nat,
    /// The number of tasks.
    pub total: nat,
    /// The tasks before this one have been admitted, in their order.
    pub admitted: nat,
    /// The tasks whose body has completed, and which gave their slot back.
    pub joined: Set<int>,
}

/// What happens at the pool.
pub enum Move {
    /// The next waiting task asks for a slot.
    Acquire,
    /// The body of a task has completed, in success or in failure.
    Release { task: int },
}

impl Admission {
    /// The pool before any task was admitted.
    pub open spec fn start(total: nat, capacity: nat) -> Admission {
        Admission { capacity, total, admitted: 0, joined: Set::empty() }
    }

    /// What holds of the pool at all times: only admitted tasks have joined,
    /// and the tasks that hold a slot are no more than the slots.
    pub open spec fn wf(self) -> bool {
        &&& self.admitted <= self.total
        &&& self.joined.finite()
        &&& self.joined.subset_of(set_int_range(0, self.admitted as int))
        &&& self.admitted - self.joined.len() <= self.capacity
    }

    /// Whether `task` holds a slot: it was admitted and has not completed.
    pub open spec fn holds_slot(self, task: int) -> bool {
        0 <= task < self.admitted && !self.joined.contains(task)
    }

    /// How many tasks hold a slot.
    pub open spec fn running(self) -> nat {
        (self.admitted - self.joined.len()) as nat
    }

    /// Whether a task is waiting and a slot is free for it.
    pub open spec fn has_room(self) -> bool {
        self.admitted < self.total && self.running() < self.capacity
    }

    /// Whether every task has been admitted and has completed.
    pub open spec fn all_joined(self) -> bool {
        self.admitted == self.total && self.running() == 0
    }

    /// The pool after the next waiting task asked for a slot: it gets one if
    /// one is free, and waits on otherwise.
    pub open spec fn acquire(self) -> Admission {
        if self.has_room() {
            Admission { admitted: self.admitted + 1, ..self }
        } else {
            self
        }
    }

    /// The pool after `task` completed: its slot is free again. Word of a
    /// task that holds no slot changes nothing.
    pub open spec fn release(self, task: int) -> Admission {
        if self.holds_slot(task) {
            Admission { joined: self.joined.insert(task), ..self }
        } else {
            self
        }
    }

    /// The pool after one move.
    pub open spec fn after(self, step: Move) -> Admission {
        match step {
            Move::Acquire => self.acquire(),
            Move::Release { task } => self.release(task),
        }
    }

    /// The pool after `moves`, in order.
    pub open spec fn after_all(self, moves: Seq<Move>) -> Admission
        decreases moves.len(),
    {
        if moves.len() == 0 {
            self
        } else {
            self.after(moves[0]).after_all(moves.drop_first())
        }
    }
}

/// The tasks that have joined are no more than the tasks that were admitted.
pub proof fn lemma_joined_are_admitted(pool: Admission)
    requires
        pool.joined.finite(),
        pool.joined.subset_of(set_int_range(0, pool.admitted as int)),
    ensures
        pool.joined.len() <= pool.admitted,
{
    lemma_int_range(0, pool.admitted as int);
    lemma_len_subset(pool.joined, set_int_range(0, pool.admitted as int));
}

/// No move takes the pool over its capacity.
pub proof fn lemma_move_keeps_bound(pool: Admission, step: Move)
    requires
        pool.wf(),
    ensures
        pool.after(step).wf(),
        pool.after(step).running() <= pool.capacity,
        pool.after(step).capacity == pool.capacity,
        pool.after(step).total == pool.total,
{
    lemma_joined_are_admitted(pool);
    lemma_joined_are_admitted(pool.after(step));
}

/// At no point do more tasks hold a slot than the pool has slots: whatever
/// the moves, from a pool of any number of tasks and slots.
pub proof fn lemma_slots_never_exceed_capacity(total: nat, capacity: nat, moves: Seq<Move>)
    ensures
        Admission::start(total, capacity).after_all(moves).running() <= capacity,
        Admission::start(total, capacity).after_all(moves).wf(),
{
    lemma_bound_holds_throughout(Admission::start(total, capacity), moves);
}

/// From a pool within its capacity, no run of moves leads over it.
pub proof fn lemma_bound_holds_throughout(pool: Admission, moves: Seq<Move>)
    requires
        pool.wf(),
    ensures
        pool.after_all(moves).wf(),
        pool.after_all(moves).running() <= pool.capacity,
        pool.after_all(moves).capacity == pool.capacity,
        pool.after_all(moves).total == pool.total,
    decreases moves.len(),
{
    lemma_joined_are_admitted(pool);
    if moves.len() > 0 {
        lemma_move_keeps_bound(pool, moves[0]);
        lemma_bound_holds_throughout(pool.after(moves[0]), moves.drop_first());
    }
}

/// The tasks of a run: one task for each selected log group, and
/// at most `max_concurrent` of them holding a slot at a time. Tasks are
/// admitted in the order of their numbers.
#[derive(Debug)]
pub struct BoundedWorkerPool {
    max_concurrent: usize,
    joined: Vec<bool>,
    admitted: usize,
    running: usize,
}

impl BoundedWorkerPool {
    #[verifier::type_invariant]
    spec fn inv(self) -> bool {
        &&& self.admitted <= self.joined.len()
        &&& self.joined_tasks().finite()
        &&& self.joined_tasks().subset_of(set_int_range(0, self.admitted as int))
        &&& self.running + self.joined_tasks().len() == self.admitted
        &&& self.running <= self.max_concurrent
    }

    spec fn joined_tasks(self) -> Set<int> {
        flagged(self.joined@)
    }
}

/// The numbers that `flags` marks.
spec fn flagged(flags: Seq<bool>) -> Set<int> {
    Set::new(|task: int| 0 <= task < flags.len() && flags[task])
}

impl View for BoundedWorkerPool {
    type V = Admission;

    closed spec fn view(&self) -> Admission {
        Admission {
            capacity: self.max_concurrent as nat,
            total: self.joined.len() as nat,
            admitted: self.admitted as nat,
            joined: self.joined_tasks(),
        }
    }
}

impl BoundedWorkerPool {
    /// A pool for `tasks` tasks with `max_concurrent` slots, none of them taken.
    pub fn new(tasks: usize, max_concurrent: usize) -> (pool: BoundedWorkerPool)
        ensures
            pool@ == Admission::start(tasks as nat, max_concurrent as nat),
            pool@.wf(),
    {
        let mut joined: Vec<bool> = Vec::new();
        while joined.len() < tasks
            invariant
                joined.len() <= tasks,
                forall|i: int| 0 <= i < joined.len() ==> !joined@[i],
            decreases tasks - joined.len(),
        {
            joined.push(false);
        }
        assert(flagged(joined@) =~= Set::<int>::empty());
        BoundedWorkerPool { max_concurrent, joined, admitted: 0, running: 0 }
    }

    /// How many tasks hold a slot: never more than the pool has slots.
    pub fn running(&self) -> (count: usize)
        ensures
            count == self@.running(),
            count <= self@.capacity,
    {
        proof {
            use_type_invariant(self);
        }
        self.running
    }

    /// Whether `task` holds a slot.
    pub fn holds_slot(&self, task: usize) -> (held: bool)
        ensures
            held == self@.holds_slot(task as int),
    {
        proof {
            use_type_invariant(self);
        }
        task < self.admitted && !self.joined[task]
    }

    /// The number of slots.
    pub fn max_concurrent(&self) -> (slots: usize)
        ensures
            slots == self@.capacity,
    {
        self.max_concurrent
    }

    /// Whether every task has been admitted and has completed.
    pub fn all_joined(&self) -> (done: bool)
        ensures
            self@.wf(),
            done == self@.all_joined(),
    {
        proof {
            use_type_invariant(self);
        }
        self.admitted == self.joined.len() && self.running == 0
    }

    /// Asks for a slot for the next waiting task. Where one is free the task
    /// is admitted and its number returned; otherwise the pool is unchanged.
    pub fn acquire(self) -> (next: (BoundedWorkerPool, Option<usize>))
        ensures
            self@.wf(),
            next.0@.wf(),
            next.0@ == self@.acquire(),
            match next.1 {
                Some(task) => self@.has_room() && task == self@.admitted,
                None => !self@.has_room(),
            },
    {
        proof {
            use_type_invariant(&self);
        }
        if self.admitted < self.joined.len() && self.running < self.max_concurrent {
            let task = self.admitted;
            let pool = BoundedWorkerPool {
                max_concurrent: self.max_concurrent,
                joined: self.joined,
                admitted: self.admitted + 1,
                running: self.running + 1,
            };
            (pool, Some(task))
        } else {
            (self, None)
        }
    }

    /// Takes word that the body of `task` has completed, in success or in
    /// failure, and frees its slot. Returns whether `task` held a slot; if it
    /// did not, the pool is unchanged.
    pub fn release(self, task: usize) -> (next: (BoundedWorkerPool, bool))
        ensures
            self@.wf(),
            next.0@.wf(),
            next.0@ == self@.release(task as int),
            next.1 == self@.holds_slot(task as int),
    {
        proof {
            use_type_invariant(&self);
        }
        if task < self.admitted && !self.joined[task] {
            let ghost before = self.joined_tasks();
            let mut joined = self.joined;
            joined.set(task, true);
            proof {
                let after = before.insert(task as int);
                assert(flagged(joined@) =~= after);
                lemma_int_range(0, self.admitted as int);
                lemma_len_subset(after, set_int_range(0, self.admitted as int));
            }
            let pool = BoundedWorkerPool {
                max_concurrent: self.max_concurrent,
                joined,
                admitted: self.admitted,
                running: self.running - 1,
            };
            (pool, true)
        } else {
            (self, false)
        }
    }
}

} // verus!
