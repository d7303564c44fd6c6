//! Which worker runs for which user.

use crate::registry::{lookup, Registry};
use vstd::prelude::*;

verus! {

/// What the caller is to do for a spawn: first ask the task `cancel` to
/// stop, where there is one, then start the worker as the task `start`.
#[derive(Debug, Clone, Copy, PartialEq, Eq)]
pub struct SpawnOrder {
    pub cancel: Option<u64>,
    pub start: u64,
}

/// The tasks of a supervisor as a value: the live task of each user who has
/// one, and how many tasks were ever started.
pub struct Tasks {
    pub live: Map<Seq<char>, u64>,
    pub issued: nat,
}

impl Tasks {
    /// Every live task was started, and no two users share a task.
    pub open spec fn wf(self) -> bool {
        &&& self.issued <= u64::MAX
        &&& forall|user: Seq<char>| #[trigger]
            self.live.contains_key(user) ==> self.live[user] < self.issued
        &&& forall|a: Seq<char>, b: Seq<char>|
            self.live.contains_key(a) && self.live.contains_key(b) && a != b ==> self.live[a]
                != self.live[b]
    }

    /// Whether `task` is live for some user.
    pub open spec fn is_live(self, task: u64) -> bool {
        exists|user: Seq<char>| self.live.contains_key(user) && self.live[user] == task
    }

    /// Whether one more task can be started.
    pub open spec fn can_spawn(self) -> bool {
        self.issued < u64::MAX
    }

    /// The tasks after a worker was spawned for `user`: the task started
    /// takes the place of the one that was live for them.
    pub open spec fn spawn(self, user: Seq<char>) -> Tasks {
        Tasks { live: self.live.insert(user, self.issued as u64), issued: self.issued + 1 }
    }

    /// The order that goes with [`Tasks::spawn`].
    pub open spec fn spawn_order(self, user: Seq<char>) -> SpawnOrder {
        SpawnOrder { cancel: lookup(self.live, user), start: self.issued as u64 }
    }

    /// The tasks after the worker of `user` was cancelled.
    pub open spec fn cancel(self, user: Seq<char>) -> Tasks {
        Tasks { live: self.live.remove(user), issued: self.issued }
    }

    /// The tasks after the task `task` of `user` ended by itself: it is
    /// forgotten where it is the live task of the user. A task that was
    /// replaced meanwhile leaves the one that replaced it alone.
    pub open spec fn finish(self, user: Seq<char>, task: u64) -> Tasks {
        if lookup(self.live, user) == Some(task) {
            self.cancel(user)
        } else {
            self
        }
    }
}

/// Keeps, for each user, the one task that runs their worker.
#[derive(Debug)]
pub struct Supervisor {
    tasks: Registry<u64>,
    issued: u64,
}

impl View for Supervisor {
    type V = Tasks;

    closed spec fn view(&self) -> Tasks {
        Tasks { live: self.tasks.map(), issued: self.issued as nat }
    }
}

impl Supervisor {
    pub closed spec fn wf(&self) -> bool {
        self.tasks.wf() && self@.wf()
    }

    /// A supervisor without tasks.
    pub fn new() -> (supervisor: Self)
        ensures
            supervisor.wf(),
            supervisor@ == (Tasks { live: Map::empty(), issued: 0 }),
    {
        Supervisor { tasks: Registry::new(), issued: 0 }
    }

    /// The live task of `user`.
    pub fn running(&self, user: &str) -> (task: Option<u64>)
        requires
            self.wf(),
        ensures
            task == lookup(self@.live, user@),
    {
        match self.tasks.get(user) {
            Some(task) => Some(*task),
            None => None,
        }
    }

    /// Spawns a worker for `user`. The order names the task to start and,
    /// where a task is live for the user, that task as the one to cancel
    /// first. No order comes back, and nothing changes, once as many tasks
    /// were started as can be told apart.
    pub fn spawn(&mut self, user: &str) -> (order: Option<SpawnOrder>)
        requires
            old(self).wf(),
        ensures
            final(self).wf(),
            old(self)@.can_spawn() ==> order == Some(old(self)@.spawn_order(user@)) && final(self)@
                == old(self)@.spawn(user@),
            !old(self)@.can_spawn() ==> order.is_none() && final(self)@ == old(self)@,
    {
        if self.issued == u64::MAX {
            return None;
        }
        let start = self.issued;
        let cancel = self.tasks.insert(user.to_owned(), start);
        self.issued = start + 1;
        Some(SpawnOrder { cancel, start })
    }

    /// Cancels the worker of `user`: hands back the task to ask to stop,
    /// where one is live, and forgets it.
    pub fn cancel(&mut self, user: &str) -> (task: Option<u64>)
        requires
            old(self).wf(),
        ensures
            final(self).wf(),
            task == lookup(old(self)@.live, user@),
            final(self)@ == old(self)@.cancel(user@),
    {
        self.tasks.remove(user)
    }

    /// Records that the task `task` of `user` ended by itself. Says whether
    /// it was the live task of the user; only then is anything forgotten.
    pub fn finished(&mut self, user: &str, task: u64) -> (was_live: bool)
        requires
            old(self).wf(),
        ensures
            final(self).wf(),
            was_live == (lookup(old(self)@.live, user@) == Some(task)),
            final(self)@ == old(self)@.finish(user@, task),
    {
        let live = match self.tasks.get(user) {
            Some(running) => *running == task,
            None => false,
        };
        if live {
            self.tasks.remove(user);
        }
        live
    }
}

/// Spawning keeps the tasks well-formed.
pub proof fn lemma_spawn_wf(tasks: Tasks, user: Seq<char>)
    requires
        tasks.wf(),
        tasks.can_spawn(),
    ensures
        tasks.spawn(user).wf(),
{
}

/// Spawning for a user who has a live task leaves them with exactly one:
/// the task started. The order asks for the cancellation of the task that
/// was live, which is live no more, and no other user's task is touched.
pub proof fn lemma_at_most_one_task(tasks: Tasks, user: Seq<char>)
    requires
        tasks.wf(),
        tasks.can_spawn(),
        tasks.live.contains_key(user),
    ensures
        tasks.spawn_order(user).cancel == Some(tasks.live[user]),
        tasks.spawn(user).live.dom() == tasks.live.dom(),
        tasks.spawn(user).live[user] == tasks.spawn_order(user).start,
        tasks.spawn_order(user).start != tasks.live[user],
        !tasks.spawn(user).is_live(tasks.live[user]),
        forall|other: Seq<char>|
            other != user && tasks.live.contains_key(other) ==> tasks.spawn(user).live[other]
                == tasks.live[other],
{
    let after = tasks.spawn(user);
    assert(after.live.dom() =~= tasks.live.dom());
    assert(!after.is_live(tasks.live[user])) by {
        if after.is_live(tasks.live[user]) {
            let holder = choose|holder: Seq<char>|
                after.live.contains_key(holder) && after.live[holder] == tasks.live[user];
            if holder != user {
                assert(tasks.live.contains_key(holder));
            }
        }
    }
}

/// A task that was replaced ends without a trace: the task that a spawn
/// ordered to cancel, once it ends, leaves the task started in its place.
pub proof fn lemma_replaced_task_ends_quietly(tasks: Tasks, user: Seq<char>)
    requires
        tasks.wf(),
        tasks.can_spawn(),
        tasks.live.contains_key(user),
    ensures
        tasks.spawn(user).finish(user, tasks.live[user]) == tasks.spawn(user),
{
}

/// Cancelling is idempotent: a second cancellation finds no task and
/// changes nothing.
pub proof fn lemma_cancel_twice(tasks: Tasks, user: Seq<char>)
    ensures
        lookup(tasks.cancel(user).live, user).is_none(),
        tasks.cancel(user).cancel(user) == tasks.cancel(user),
{
    assert(tasks.cancel(user).live.remove(user) =~= tasks.cancel(user).live);
}

} // verus!
