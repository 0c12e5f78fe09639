//! The cooperative executor: a table of live tasks, the queue of those ready
//! to be polled, and one cached wake handle per task.
//!
//! A scheduling pass takes identifiers off the ready queue and polls the
//! tasks they name. A task that completes is removed; one that suspends
//! waits until its wake handle puts it back on the queue. Pending kill
//! requests are carried out before the first poll of a pass and after every
//! poll: a killed task is dropped without another poll.

use crate::task::ready_queue::ReadyQueue;
use crate::task::registry::bump_poll_count;
use crate::task::registry::is_snapshot_of;
use crate::task::registry::register_task;
use crate::task::registry::set_task_state;
use crate::task::registry::take_kill_requests;
use crate::task::registry::unregister_task;
use crate::task::registry::RegistryView;
use crate::task::registry::TaskRegistry;
use crate::task::registry::TaskSnapshot;
use crate::task::registry::TaskState;
use crate::task::context_from_waker;
use crate::task::waker::TaskWaker;
use crate::task::PollOutcome;
use crate::task::Task;
use crate::task::TaskId;
use std::collections::BTreeMap;
use std::future::Future;
use std::sync::Arc;
use std::task::Waker;
use vstd::prelude::*;

verus! {

broadcast use {vstd::std_specs::btree::group_btree_axioms, vstd::laws_cmp::group_laws_cmp};

/// How many identifiers the ready queue of an executor has room for.
pub const READY_QUEUE_CAPACITY: usize = 100;

/// The executor.
#[verifier::reject_recursive_types(F)]
pub struct Executor<F: Future<Output = ()>> {
    tasks: BTreeMap<u64, Task<F>>,
    task_queue: Arc<ReadyQueue>,
    waker_cache: BTreeMap<u64, Waker>,
}

/// What an executor holds, as mathematical values. The ready queue is not
/// part of it: wake handles share the queue, and what it holds at any moment
/// is not the executor's to say.
pub struct ExecutorView {
    /// The name of every live task, by raw task identifier.
    pub tasks: Map<u64, &'static str>,
    /// The identifiers for which a wake handle is cached.
    pub wakers: Set<u64>,
}

impl ExecutorView {
    pub open spec fn empty() -> ExecutorView {
        ExecutorView { tasks: Map::empty(), wakers: Set::empty() }
    }

    pub open spec fn has_task(self, id: u64) -> bool {
        self.tasks.contains_key(id)
    }

    /// The executor with one more task in its table.
    pub open spec fn spawn(self, id: u64, name: &'static str) -> ExecutorView {
        ExecutorView { tasks: self.tasks.insert(id, name), ..self }
    }

    /// The executor with a wake handle cached for `id`.
    pub open spec fn with_waker(self, id: u64) -> ExecutorView {
        ExecutorView { wakers: self.wakers.insert(id), ..self }
    }

    /// The executor without the task `id` and without its wake handle.
    pub open spec fn remove(self, id: u64) -> ExecutorView {
        ExecutorView { tasks: self.tasks.remove(id), wakers: self.wakers.remove(id) }
    }

    /// The executor without the tasks in `ids` and without their wake
    /// handles.
    pub open spec fn purge(self, ids: Set<u64>) -> ExecutorView {
        ExecutorView { tasks: self.tasks.remove_keys(ids), wakers: self.wakers.difference(ids) }
    }

    /// The executor once the poll of `id` that ended in `outcome` has been
    /// accounted for and the kill requests in `kills` have been carried out.
    pub open spec fn after_poll(self, id: u64, outcome: PollOutcome, kills: Set<u64>) -> ExecutorView {
        match outcome {
            PollOutcome::Completed => self.remove(id).purge(kills),
            PollOutcome::Suspended => self.purge(kills),
        }
    }

    /// Whether the registry has an entry for exactly the tasks in the table,
    /// each under the task's name.
    pub open spec fn agrees_with(self, registry: RegistryView) -> bool {
        &&& self.tasks.dom() == registry.stats.dom()
        &&& forall|id: u64| #[trigger]
            self.tasks.contains_key(id) ==> registry.stats[id].name == self.tasks[id]
    }
}

impl RegistryView {
    /// The registry after kill requests for each of `ids`, in order.
    pub open spec fn request_kills(self, ids: Seq<u64>) -> RegistryView
        decreases ids.len(),
    {
        if ids.len() == 0 {
            self
        } else {
            self.request_kills(ids.drop_last()).request_kill(ids.last())
        }
    }

    /// The registry once a poll of `id` has been announced: the task is
    /// marked as running and the poll is counted.
    pub open spec fn before_poll(self, id: u64) -> RegistryView {
        self.set_state(id, TaskState::Running).bump_poll_count(id)
    }

    /// The registry once the poll of `id` that ended in `outcome` has been
    /// accounted for and the pending kill requests have been carried out.
    pub open spec fn after_poll(self, id: u64, outcome: PollOutcome) -> RegistryView {
        match outcome {
            PollOutcome::Completed => self.unregister(id).purge_killed(),
            PollOutcome::Suspended => self.set_state(id, TaskState::Waiting).purge_killed(),
        }
    }
}

/// What the idle routine does after it has looked at the ready queue.
#[derive(Debug, Clone, Copy, PartialEq, Eq, Structural)]
pub enum IdleAction {
    /// Nothing is ready: enable interrupts and halt the CPU, in one step.
    Halt,
    /// A task became ready in the meantime: enable interrupts and go on.
    Resume,
}

impl IdleAction {
    /// The action to take for a ready queue that was found empty, or not.
    pub fn for_queue(empty: bool) -> (action: IdleAction)
        ensures
            action == if empty {
                IdleAction::Halt
            } else {
                IdleAction::Resume
            },
    {
        if empty {
            IdleAction::Halt
        } else {
            IdleAction::Resume
        }
    }
}

/// Announces a poll of the task `id` in the registry: the task is marked as
/// running and the poll is counted.
pub fn begin_poll(registry: &mut TaskRegistry, id: TaskId)
    ensures
        final(registry)@ == old(registry)@.before_poll(id.raw()),
{
    set_task_state(registry, id, TaskState::Running);
    bump_poll_count(registry, id);
}

/// The table and the registry after the turn of `id` that ended in `outcome`,
/// or that was skipped (`None`) because the table has no such task.
pub open spec fn after_turn(
    executor: ExecutorView,
    registry: RegistryView,
    id: u64,
    outcome: Option<PollOutcome>,
) -> (ExecutorView, RegistryView) {
    match outcome {
        Some(ended) => (
            executor.with_waker(id).after_poll(id, ended, registry.kill_requests),
            registry.before_poll(id).after_poll(id, ended),
        ),
        None => (executor.with_waker(id), registry.before_poll(id)),
    }
}

/// The table and the registry after a turn of `id` during whose poll the kill
/// requests for `during` came in, one after the other. This is a turn as it
/// goes when the registry is not held across the poll, so that the task that
/// is polled can itself list tasks and ask for tasks to be killed: the poll
/// is announced, the task is polled while the requests come in, and the poll
/// is accounted for.
pub open spec fn after_open_turn(
    executor: ExecutorView,
    registry: RegistryView,
    id: u64,
    during: Seq<u64>,
    outcome: Option<PollOutcome>,
) -> (ExecutorView, RegistryView) {
    let polled = registry.before_poll(id).request_kills(during);
    match outcome {
        Some(ended) => (
            executor.with_waker(id).after_poll(id, ended, polled.kill_requests),
            polled.after_poll(id, ended),
        ),
        None => (executor.with_waker(id), polled),
    }
}

/// One turn of a scheduling pass: the identifier that came off the ready
/// queue, and how the poll of its task ended, or `None` if the table had no
/// such task and the turn was skipped.
pub struct Turn {
    pub id: u64,
    pub outcome: Option<PollOutcome>,
}

/// The table and the registry after the given turns, taken in order.
pub open spec fn after_turns(executor: ExecutorView, registry: RegistryView, turns: Seq<Turn>) -> (
    ExecutorView,
    RegistryView,
)
    decreases turns.len(),
{
    if turns.len() == 0 {
        (executor, registry)
    } else {
        let before = after_turns(executor, registry, turns.drop_last());
        after_turn(before.0, before.1, turns.last().id, turns.last().outcome)
    }
}

/// Whether the turns are ones that a pass can take from the given table and
/// registry: a turn is skipped exactly if the table, as the turns before it
/// have left it, does not have the task.
pub open spec fn turns_fit(executor: ExecutorView, registry: RegistryView, turns: Seq<Turn>) -> bool {
    forall|k: int|
        0 <= k < turns.len() ==> ((#[trigger] turns[k]).outcome is Some <==> after_turns(
            executor,
            registry,
            turns.take(k),
        ).0.has_task(turns[k].id))
}

/// Whether a scheduling pass that takes the given turns leads from the table
/// and registry `before` to those `after`: the pending kill requests are
/// carried out, the turns are taken, and the kill requests are carried out
/// once more.
pub open spec fn is_pass(
    before: (ExecutorView, RegistryView),
    turns: Seq<Turn>,
    after: (ExecutorView, RegistryView),
) -> bool {
    let cleared = (before.0.purge(before.1.kill_requests), before.1.purge_killed());
    let run = after_turns(cleared.0, cleared.1, turns);
    &&& turns_fit(cleared.0, cleared.1, turns)
    &&& after == (run.0.purge(run.1.kill_requests), run.1.purge_killed())
}

/// A listing of a registry that agrees with the executor's table has one line
/// for every task in the table, and no other.
pub proof fn lemma_snapshot_counts_tasks(
    listing: Seq<TaskSnapshot>,
    executor: ExecutorView,
    registry: RegistryView,
)
    requires
        executor.agrees_with(registry),
        is_snapshot_of(listing, registry.stats),
    ensures
        listing.len() == executor.tasks.len(),
        forall|i: int| 0 <= i < listing.len() ==> executor.has_task(#[trigger] listing[i].id),
{
    assert(executor.tasks.dom() =~= registry.stats.dom());
    assert forall|i: int| 0 <= i < listing.len() implies executor.has_task(
        #[trigger] listing[i].id,
    ) by {
        assert(registry.stats.contains_key(listing[i].id));
    }
}

/// Spawning a task enters it in the table and in the registry alike: if the
/// two agreed before, they agree after.
pub proof fn lemma_spawn_preserves_agreement(
    executor: ExecutorView,
    registry: RegistryView,
    id: u64,
    name: &'static str,
)
    requires
        executor.agrees_with(registry),
    ensures
        executor.spawn(id, name).agrees_with(registry.register(id, name)),
{
    assert(executor.spawn(id, name).tasks.dom() =~= registry.register(id, name).stats.dom());
}

/// A kill request, whatever it is answered with, leaves every entry of the
/// registry in place and under its name: if the registry agreed with the
/// table before, it agrees after.
pub proof fn lemma_kill_request_preserves_agreement(
    executor: ExecutorView,
    registry: RegistryView,
    id: u64,
)
    requires
        executor.agrees_with(registry),
    ensures
        executor.agrees_with(registry.request_kill(id)),
{
    assert(registry.request_kill(id).stats.dom() =~= registry.stats.dom());
}

/// Taking one more turn after a run of turns: the turns fit if they did before
/// and the new one is skipped exactly if the task is missing by then, and
/// they lead to what the new turn makes of what the others led to.
proof fn lemma_one_more_turn(
    executor: ExecutorView,
    registry: RegistryView,
    turns: Seq<Turn>,
    turn: Turn,
)
    requires
        turns_fit(executor, registry, turns),
        turn.outcome is Some <==> after_turns(executor, registry, turns).0.has_task(turn.id),
    ensures
        turns_fit(executor, registry, turns.push(turn)),
        after_turns(executor, registry, turns.push(turn)) == after_turn(
            after_turns(executor, registry, turns).0,
            after_turns(executor, registry, turns).1,
            turn.id,
            turn.outcome,
        ),
{
    let longer = turns.push(turn);
    assert(longer.drop_last() =~= turns);
    assert forall|k: int| 0 <= k < longer.len() implies ((#[trigger] longer[k]).outcome is Some
        <==> after_turns(executor, registry, longer.take(k)).0.has_task(longer[k].id)) by {
        if k < turns.len() {
            assert(longer.take(k) =~= turns.take(k));
            assert(longer[k] == turns[k]);
        } else {
            assert(longer.take(k) =~= turns);
        }
    }
}

/// Announcing a poll changes the state and the poll count of one entry and
/// nothing else: if the registry agreed with the table before, it agrees
/// after.
pub proof fn lemma_begin_poll_preserves_agreement(
    executor: ExecutorView,
    registry: RegistryView,
    id: u64,
)
    requires
        executor.agrees_with(registry),
    ensures
        executor.agrees_with(registry.before_poll(id)),
        executor.with_waker(id).agrees_with(registry.before_poll(id)),
{
    assert(registry.before_poll(id).stats.dom() =~= registry.stats.dom());
}

/// Kill requests, however many, leave every entry of the registry in place
/// and under its name, and take no request back: if the registry agreed with
/// the table before, it agrees after, and a request for a task that has an
/// entry is pending after.
pub proof fn lemma_kill_requests_keep_entries(
    executor: ExecutorView,
    registry: RegistryView,
    ids: Seq<u64>,
)
    ensures
        registry.request_kills(ids).stats.dom() == registry.stats.dom(),
        registry.kill_requests.subset_of(registry.request_kills(ids).kill_requests),
        executor.agrees_with(registry) ==> executor.agrees_with(registry.request_kills(ids)),
        forall|id: u64|
            ids.contains(id) && registry.contains(id) ==> #[trigger] registry.request_kills(
                ids,
            ).kill_requests.contains(id),
    decreases ids.len(),
{
    if ids.len() > 0 {
        let earlier = registry.request_kills(ids.drop_last());
        lemma_kill_requests_keep_entries(executor, registry, ids.drop_last());
        assert(earlier.request_kill(ids.last()).stats.dom() =~= earlier.stats.dom());
        if executor.agrees_with(registry) {
            lemma_kill_request_preserves_agreement(executor, earlier, ids.last());
        }
        let after = registry.request_kills(ids);
        assert forall|id: u64| ids.contains(id) && registry.contains(id) implies #[trigger]
            after.kill_requests.contains(id) by {
            if id != ids.last() {
                let k = choose|k: int| 0 <= k < ids.len() && ids[k] == id;
                assert(ids.drop_last()[k] == id);
                assert(earlier.kill_requests.contains(id));
            }
        }
    }
}

/// A turn without kill requests during its poll is a turn as a scheduling
/// pass takes it.
pub proof fn lemma_open_turn_without_requests(
    executor: ExecutorView,
    registry: RegistryView,
    id: u64,
    outcome: Option<PollOutcome>,
)
    ensures
        after_open_turn(executor, registry, id, Seq::empty(), outcome) == after_turn(
            executor,
            registry,
            id,
            outcome,
        ),
{
}

/// A turn keeps the registry in agreement with the table, whatever kill
/// requests come in during its poll and whatever the outcome of the poll.
pub proof fn lemma_open_turn_preserves_agreement(
    executor: ExecutorView,
    registry: RegistryView,
    id: u64,
    during: Seq<u64>,
    outcome: Option<PollOutcome>,
)
    requires
        executor.agrees_with(registry),
    ensures
        after_open_turn(executor, registry, id, during, outcome).0.agrees_with(
            after_open_turn(executor, registry, id, during, outcome).1,
        ),
{
    lemma_begin_poll_preserves_agreement(executor, registry, id);
    let polled = registry.before_poll(id).request_kills(during);
    lemma_kill_requests_keep_entries(executor.with_waker(id), registry.before_poll(id), during);
    match outcome {
        Some(ended) => {
            lemma_finish_preserves_agreement(executor.with_waker(id), polled, id, ended);
        },
        None => {},
    }
}

/// A task that has an entry and for which a kill request comes in during a
/// poll, be it its own poll or that of another task, is gone once that poll
/// has been accounted for: it is in neither the table nor the registry.
pub proof fn lemma_task_killed_during_poll_is_removed(
    executor: ExecutorView,
    registry: RegistryView,
    id: u64,
    during: Seq<u64>,
    ended: PollOutcome,
    killed: u64,
)
    requires
        during.contains(killed),
        registry.contains(killed),
    ensures
        !after_open_turn(executor, registry, id, during, Some(ended)).0.has_task(killed),
        !after_open_turn(executor, registry, id, during, Some(ended)).1.contains(killed),
        after_open_turn(executor, registry, id, during, Some(ended)).1.kill_requests
            == Set::<u64>::empty(),
{
    let announced = registry.before_poll(id);
    assert(announced.stats.dom() =~= registry.stats.dom());
    lemma_kill_requests_keep_entries(executor, announced, during);
    let polled = announced.request_kills(during);
    assert(polled.kill_requests.contains(killed));
}

/// Carrying out the pending kill requests removes the same identifiers from
/// the table and from the registry: if the two agreed before, they agree
/// after.
pub proof fn lemma_purge_preserves_agreement(executor: ExecutorView, registry: RegistryView)
    requires
        executor.agrees_with(registry),
    ensures
        executor.purge(registry.kill_requests).agrees_with(registry.purge_killed()),
{
    let purged = executor.purge(registry.kill_requests);
    let cleared = registry.purge_killed();
    assert(purged.tasks.dom() =~= cleared.stats.dom());
}

/// Accounting for a poll removes a completed task from the table and from the
/// registry alike, and carries out the kill requests on both: if the two
/// agreed before, they agree after.
pub proof fn lemma_finish_preserves_agreement(
    executor: ExecutorView,
    registry: RegistryView,
    id: u64,
    outcome: PollOutcome,
)
    requires
        executor.agrees_with(registry),
    ensures
        executor.after_poll(id, outcome, registry.kill_requests).agrees_with(
            registry.after_poll(id, outcome),
        ),
{
    match outcome {
        PollOutcome::Completed => {
            let left = executor.remove(id);
            let dropped = registry.unregister(id);
            assert(left.tasks.dom() =~= dropped.stats.dom());
            lemma_purge_preserves_agreement(left, dropped);
        },
        PollOutcome::Suspended => {
            let waiting = registry.set_state(id, TaskState::Waiting);
            assert(waiting.stats.dom() =~= registry.stats.dom());
            lemma_purge_preserves_agreement(executor, waiting);
        },
    }
}

/// A task's turn changes the table and the registry alike, whatever the
/// outcome of the poll: if the two agreed before, they agree after.
pub proof fn lemma_poll_preserves_agreement(
    executor: ExecutorView,
    registry: RegistryView,
    id: u64,
    outcome: Option<PollOutcome>,
)
    requires
        executor.agrees_with(registry),
    ensures
        after_turn(executor, registry, id, outcome).0.agrees_with(
            after_turn(executor, registry, id, outcome).1,
        ),
{
    let announced = registry.before_poll(id);
    assert(announced.stats.dom() =~= registry.stats.dom());
    assert(executor.with_waker(id).agrees_with(announced));
    match outcome {
        Some(ended) => {
            lemma_finish_preserves_agreement(executor.with_waker(id), announced, id, ended);
        },
        None => {},
    }
}

/// A run of turns keeps the registry in agreement with the table.
pub proof fn lemma_turns_preserve_agreement(
    executor: ExecutorView,
    registry: RegistryView,
    turns: Seq<Turn>,
)
    requires
        executor.agrees_with(registry),
    ensures
        after_turns(executor, registry, turns).0.agrees_with(
            after_turns(executor, registry, turns).1,
        ),
    decreases turns.len(),
{
    if turns.len() > 0 {
        lemma_turns_preserve_agreement(executor, registry, turns.drop_last());
        let before = after_turns(executor, registry, turns.drop_last());
        lemma_poll_preserves_agreement(before.0, before.1, turns.last().id, turns.last().outcome);
    }
}

/// A scheduling pass keeps the registry in agreement with the table, whatever
/// turns it takes.
pub proof fn lemma_pass_preserves_agreement(
    before: (ExecutorView, RegistryView),
    turns: Seq<Turn>,
    after: (ExecutorView, RegistryView),
)
    requires
        before.0.agrees_with(before.1),
        is_pass(before, turns, after),
    ensures
        after.0.agrees_with(after.1),
{
    lemma_purge_preserves_agreement(before.0, before.1);
    let cleared = (before.0.purge(before.1.kill_requests), before.1.purge_killed());
    lemma_turns_preserve_agreement(cleared.0, cleared.1, turns);
    let run = after_turns(cleared.0, cleared.1, turns);
    lemma_purge_preserves_agreement(run.0, run.1);
}

/// A task's turn adds no task to the table and no entry to the registry,
/// renames no task, and leaves pending exactly the kill requests of a turn
/// that was skipped.
pub proof fn lemma_poll_only_removes(
    executor: ExecutorView,
    registry: RegistryView,
    id: u64,
    outcome: Option<PollOutcome>,
)
    ensures
        after_turn(executor, registry, id, outcome).0.tasks.submap_of(executor.tasks),
        after_turn(executor, registry, id, outcome).1.stats.dom().subset_of(registry.stats.dom()),
        after_turn(executor, registry, id, outcome).1.kill_requests == if outcome is Some {
            Set::<u64>::empty()
        } else {
            registry.kill_requests
        },
{
    let announced = registry.before_poll(id);
    assert(announced.stats.dom() =~= registry.stats.dom());
}

/// A run of turns adds no task to the table and renames none.
pub proof fn lemma_turns_only_remove(
    executor: ExecutorView,
    registry: RegistryView,
    turns: Seq<Turn>,
)
    ensures
        after_turns(executor, registry, turns).0.tasks.submap_of(executor.tasks),
    decreases turns.len(),
{
    if turns.len() > 0 {
        lemma_turns_only_remove(executor, registry, turns.drop_last());
        let before = after_turns(executor, registry, turns.drop_last());
        lemma_poll_only_removes(before.0, before.1, turns.last().id, turns.last().outcome);
        vstd::map_lib::lemma_submap_of_trans(
            after_turns(executor, registry, turns).0.tasks,
            before.0.tasks,
            executor.tasks,
        );
    }
}

/// A task for which a kill request is pending when a scheduling pass starts
/// is not polled in that pass: every turn that its identifier gets is
/// skipped.
pub proof fn lemma_killed_task_is_not_polled(
    before: (ExecutorView, RegistryView),
    turns: Seq<Turn>,
    after: (ExecutorView, RegistryView),
    k: int,
)
    requires
        is_pass(before, turns, after),
        0 <= k < turns.len(),
        before.1.kill_requests.contains(turns[k].id),
    ensures
        turns[k].outcome is None,
{
    let cleared = (before.0.purge(before.1.kill_requests), before.1.purge_killed());
    lemma_turns_only_remove(cleared.0, cleared.1, turns.take(k));
    let reached = after_turns(cleared.0, cleared.1, turns.take(k)).0;
    assert(!cleared.0.tasks.dom().contains(turns[k].id));
    assert(!reached.tasks.dom().contains(turns[k].id));
}

/// `Arc::clone`: one more handle on the same queue.
#[verifier::external_body]
fn share_queue(queue: &Arc<ReadyQueue>) -> (shared: Arc<ReadyQueue>)
    ensures
        shared == *queue,
{
    Arc::clone(queue)
}

impl<F: Future<Output = ()>> View for Executor<F> {
    type V = ExecutorView;

    closed spec fn view(&self) -> ExecutorView {
        ExecutorView {
            tasks: Map::new(
                |id: u64| self.tasks@.contains_key(id),
                |id: u64| self.tasks@[id].spec_name(),
            ),
            wakers: self.waker_cache@.dom(),
        }
    }
}

impl<F: Future<Output = ()>> Executor<F> {
    /// Whether the task `id` is in the table and a poll has found its
    /// computation completed. Such a task stays in the table until the poll
    /// is accounted for.
    pub closed spec fn has_completed(&self, id: u64) -> bool {
        self.tasks@.contains_key(id) && self.tasks@[id].spec_completed()
    }

    /// The number of identifiers that the ready queue has room for.
    pub closed spec fn ready_queue_room(&self) -> nat {
        self.task_queue.room()
    }

    /// Well-formedness: every task is filed under its own identifier, and
    /// the ready queue has room for `READY_QUEUE_CAPACITY` identifiers.
    pub closed spec fn wf(&self) -> bool {
        &&& forall|id: u64| #[trigger]
            self.tasks@.contains_key(id) ==> self.tasks@[id].spec_id().raw() == id
        &&& self.task_queue.room() == READY_QUEUE_CAPACITY
    }

    /// The capacity of the ready queue is fixed: whatever a well-formed
    /// executor has been through, its ready queue has room for
    /// `READY_QUEUE_CAPACITY` identifiers.
    pub proof fn lemma_ready_queue_room_is_fixed(&self)
        requires
            self.wf(),
        ensures
            self.ready_queue_room() == READY_QUEUE_CAPACITY,
    {
    }

    /// An executor without tasks, whose ready queue has room for
    /// `READY_QUEUE_CAPACITY` identifiers.
    pub fn new() -> (executor: Executor<F>)
        ensures
            executor.wf(),
            executor@ == ExecutorView::empty(),
            executor.ready_queue_room() == READY_QUEUE_CAPACITY,
    {
        let executor = Executor {
            tasks: BTreeMap::new(),
            task_queue: Arc::new(ReadyQueue::new(READY_QUEUE_CAPACITY)),
            waker_cache: BTreeMap::new(),
        };
        assert(executor@.tasks =~= Map::empty());
        executor
    }

    /// Adds `task` to the table and to the registry, in state `Ready`, and
    /// puts its identifier on the ready queue. If the queue has no room the
    /// task is handed back and nothing changes; the caller treats that as
    /// fatal. Whether the queue has room is for the queue to say, which wake
    /// handles fill at the same time; what follows from its answer is
    /// `finish_spawn`'s to say. The task's identifier must be new to the
    /// table and to the registry.
    pub fn spawn(&mut self, registry: &mut TaskRegistry, task: Task<F>) -> (refused: Result<
        (),
        Task<F>,
    >)
        requires
            old(self).wf(),
            !old(self)@.has_task(task.spec_id().raw()),
            !old(registry)@.contains(task.spec_id().raw()),
        ensures
            final(self).wf(),
            old(self)@.agrees_with(old(registry)@) ==> final(self)@.agrees_with(final(registry)@),
            match refused {
                Ok(()) => {
                    &&& final(self)@ == old(self)@.spawn(task.spec_id().raw(), task.spec_name())
                    &&& final(registry)@ == old(registry)@.register(
                        task.spec_id().raw(),
                        task.spec_name(),
                    )
                },
                Err(back) => {
                    &&& back == task
                    &&& final(self)@ == old(self)@
                    &&& final(registry)@ == old(registry)@
                },
            },
    {
        let raw: u64 = task.id().as_u64();
        let pushed = self.task_queue.try_push(raw);
        self.finish_spawn(registry, task, pushed)
    }

    /// The second half of a spawn, once the task's identifier has been
    /// offered to the ready queue: `pushed` says whether the queue took it.
    /// If it did, the task is entered in the table and in the registry, in
    /// state `Ready`. If it did not, the task is handed back and nothing
    /// changes. The task's identifier must be new to the table and to the
    /// registry.
    pub fn finish_spawn(
        &mut self,
        registry: &mut TaskRegistry,
        task: Task<F>,
        pushed: bool,
    ) -> (refused: Result<(), Task<F>>)
        requires
            old(self).wf(),
            !old(self)@.has_task(task.spec_id().raw()),
            !old(registry)@.contains(task.spec_id().raw()),
        ensures
            final(self).wf(),
            old(self)@.agrees_with(old(registry)@) ==> final(self)@.agrees_with(final(registry)@),
            pushed ==> {
                &&& refused is Ok
                &&& final(self)@ == old(self)@.spawn(task.spec_id().raw(), task.spec_name())
                &&& final(registry)@ == old(registry)@.register(
                    task.spec_id().raw(),
                    task.spec_name(),
                )
            },
            !pushed ==> {
                &&& refused == Err::<(), Task<F>>(task)
                &&& final(self)@ == old(self)@
                &&& final(registry)@ == old(registry)@
            },
    {
        if !pushed {
            return Err(task);
        }
        let task_id = task.id();
        let task_name = task.name();
        let raw: u64 = task_id.as_u64();
        self.tasks.insert(raw, task);
        register_task(registry, task_id, task_name);
        set_task_state(registry, task_id, TaskState::Ready);
        proof {
            assert(self@.tasks =~= old(self)@.tasks.insert(raw, task_name));
            assert(registry@.stats =~= old(registry)@.register(raw, task_name).stats);
            if old(self)@.agrees_with(old(registry)@) {
                lemma_spawn_preserves_agreement(old(self)@, old(registry)@, raw, task_name);
            }
        }
        Ok(())
    }

    /// Carries out the pending kill requests: every task named by one leaves
    /// the table, the wake-handle cache and the registry, without being
    /// polled again, and no request stays pending.
    pub fn apply_kill_requests(&mut self, registry: &mut TaskRegistry)
        requires
            old(self).wf(),
        ensures
            final(self).wf(),
            final(self)@ == old(self)@.purge(old(registry)@.kill_requests),
            final(registry)@ == old(registry)@.purge_killed(),
            old(self)@.agrees_with(old(registry)@) ==> final(self)@.agrees_with(final(registry)@),
    {
        proof {
            if old(self)@.agrees_with(old(registry)@) {
                lemma_purge_preserves_agreement(old(self)@, old(registry)@);
            }
        }
        let ghost start = self@;
        let ghost start_registry = registry@;
        let pending = take_kill_requests(registry);
        let mut i: usize = 0;
        proof {
            assert(pending@.take(0).to_set() =~= Set::<u64>::empty());
            assert(self@.tasks =~= start.purge(Set::empty()).tasks);
            assert(self@.wakers =~= start.purge(Set::empty()).wakers);
            assert(registry@.stats =~= start_registry.stats.remove_keys(Set::empty()));
        }
        while i < pending.len()
            invariant
                0 <= i <= pending.len(),
                self.wf(),
                self@ == start.purge(pending@.take(i as int).to_set()),
                registry@.stats == start_registry.stats.remove_keys(
                    pending@.take(i as int).to_set(),
                ),
                registry@.kill_requests == Set::<u64>::empty(),
            decreases pending.len() - i,
        {
            let raw: u64 = pending[i];
            let ghost before = self@;
            let ghost before_registry = registry@;
            let ghost done = pending@.take(i as int).to_set();
            self.tasks.remove(&raw);
            self.waker_cache.remove(&raw);
            unregister_task(registry, TaskId::from_raw(raw));
            i += 1;
            proof {
                assert(pending@.take(i as int) =~= pending@.take(i - 1).push(raw));
                pending@.take(i - 1).lemma_push_to_set_commute(raw);
                assert(pending@.take(i as int).to_set() =~= done.insert(raw));
                assert(self@.tasks =~= before.tasks.remove(raw));
                assert(self@.tasks =~= start.purge(done.insert(raw)).tasks);
                assert(self@.wakers =~= start.purge(done.insert(raw)).wakers);
                assert(registry@.stats =~= start_registry.stats.remove_keys(done.insert(raw)));
            }
        }
        proof {
            assert(pending@.take(pending.len() as int) =~= pending@);
        }
    }

    /// Takes the next identifier off the ready queue, if one waits there.
    /// Which one it is rests with whoever put it there: a spawn, or a wake
    /// handle invoked by a task or from an interrupt handler.
    pub fn next_ready(&self) -> (id: Option<TaskId>) {
        match self.task_queue.pop() {
            Some(raw) => Some(TaskId::from_raw(raw)),
            None => None,
        }
    }

    /// Polls the task `id` once, with its cached wake handle; the handle is
    /// made first if there is none yet. Returns `None`, and polls nothing, if
    /// the table has no such task. A task that an earlier poll has found
    /// completed, and that is still in the table, is not polled again: the
    /// outcome is `Completed` at once.
    pub fn poll_task(&mut self, id: TaskId) -> (outcome: Option<PollOutcome>)
        requires
            old(self).wf(),
        ensures
            final(self).wf(),
            final(self)@ == old(self)@.with_waker(id.raw()),
            outcome is Some <==> old(self)@.has_task(id.raw()),
            old(self)@.has_task(id.raw()) && old(self).has_completed(id.raw()) ==> outcome == Some(
                PollOutcome::Completed,
            ),
            old(self)@.has_task(id.raw()) ==> final(self).has_completed(id.raw()) == (outcome
                == Some(PollOutcome::Completed)),
    {
        let raw: u64 = id.as_u64();
        let waker = match self.waker_cache.remove(&raw) {
            Some(cached) => cached,
            None => TaskWaker::new(id, share_queue(&self.task_queue)),
        };
        let outcome = match self.tasks.remove(&raw) {
            Some(task) => {
                let mut task = task;
                let mut context = context_from_waker(&waker);
                let outcome = task.poll(&mut context);
                self.tasks.insert(raw, task);
                Some(outcome)
            },
            None => None,
        };
        self.waker_cache.insert(raw, waker);
        proof {
            assert(self@.tasks =~= old(self)@.tasks);
            assert(self@.wakers =~= old(self)@.wakers.insert(raw));
        }
        outcome
    }

    /// Accounts for a poll of the task `id` that ended in `outcome`: a task
    /// that completed leaves the table, the wake-handle cache and the
    /// registry; one that suspended is marked as waiting. The pending kill
    /// requests are carried out right after.
    pub fn finish_poll(&mut self, registry: &mut TaskRegistry, id: TaskId, outcome: PollOutcome)
        requires
            old(self).wf(),
        ensures
            final(self).wf(),
            final(self)@ == old(self)@.after_poll(
                id.raw(),
                outcome,
                old(registry)@.kill_requests,
            ),
            final(registry)@ == old(registry)@.after_poll(id.raw(), outcome),
            old(self)@.agrees_with(old(registry)@) ==> final(self)@.agrees_with(final(registry)@),
    {
        let raw: u64 = id.as_u64();
        proof {
            if old(self)@.agrees_with(old(registry)@) {
                lemma_finish_preserves_agreement(old(self)@, old(registry)@, raw, outcome);
            }
        }
        match outcome {
            PollOutcome::Completed => {
                self.tasks.remove(&raw);
                self.waker_cache.remove(&raw);
                unregister_task(registry, id);
                proof {
                    assert(self@.tasks =~= old(self)@.remove(raw).tasks);
                    assert(self@.wakers =~= old(self)@.remove(raw).wakers);
                }
            },
            PollOutcome::Suspended => {
                set_task_state(registry, id, TaskState::Waiting);
            },
        }
        self.apply_kill_requests(registry);
    }

    /// Gives the task `id` its turn: announces the poll in the registry,
    /// polls the task, and accounts for the outcome. An identifier that names
    /// no task in the table, because the task is gone but a wake handle of it
    /// was still invoked, is announced and then skipped.
    pub fn run_task(&mut self, registry: &mut TaskRegistry, id: TaskId) -> (outcome: Option<
        PollOutcome,
    >)
        requires
            old(self).wf(),
        ensures
            final(self).wf(),
            outcome is Some <==> old(self)@.has_task(id.raw()),
            old(self)@.agrees_with(old(registry)@) ==> final(self)@.agrees_with(final(registry)@),
            match outcome {
                Some(ended) => {
                    &&& final(self)@ == old(self)@.with_waker(id.raw()).after_poll(
                        id.raw(),
                        ended,
                        old(registry)@.kill_requests,
                    )
                    &&& final(registry)@ == old(registry)@.before_poll(id.raw()).after_poll(
                        id.raw(),
                        ended,
                    )
                },
                None => {
                    &&& final(self)@ == old(self)@.with_waker(id.raw())
                    &&& final(registry)@ == old(registry)@.before_poll(id.raw())
                },
            },
    {
        begin_poll(registry, id);
        let outcome = match self.poll_task(id) {
            Some(ended) => {
                self.finish_poll(registry, id, ended);
                Some(ended)
            },
            None => None,
        };
        proof {
            if old(self)@.agrees_with(old(registry)@) {
                lemma_poll_preserves_agreement(old(self)@, old(registry)@, id.raw(), outcome);
            }
        }
        outcome
    }

    /// One scheduling pass: carries out the pending kill requests, then
    /// gives every task whose identifier comes off the ready queue its turn,
    /// and carries out the kill requests once more. The pass ends when the
    /// queue is found empty, or after `max_polls` identifiers: a task that
    /// wakes itself on every poll would otherwise keep the pass from ending.
    /// Returns how many identifiers were taken off the queue.
    ///
    /// Which identifiers come off the queue, and how each poll ends, is not
    /// the executor's to say: the pass is one of some `taken` turns. Whatever
    /// they are: no task joins the table, no task changes its name, every
    /// task with a kill request pending at the start is gone at the end, no
    /// request is left pending, and a registry that agreed with the table
    /// still agrees with it.
    pub fn run_ready_tasks(&mut self, registry: &mut TaskRegistry, max_polls: usize) -> (taken:
        usize)
        requires
            old(self).wf(),
        ensures
            final(self).wf(),
            taken <= max_polls,
            exists|turns: Seq<Turn>|
                turns.len() == taken && #[trigger] is_pass(
                    (old(self)@, old(registry)@),
                    turns,
                    (final(self)@, final(registry)@),
                ),
            final(self)@.tasks.submap_of(old(self)@.tasks),
            final(registry)@.stats.dom().subset_of(old(registry)@.stats.dom()),
            final(registry)@.kill_requests == Set::<u64>::empty(),
            forall|id: u64| #[trigger]
                old(registry)@.kill_requests.contains(id) ==> !final(self)@.has_task(id)
                    && !final(registry)@.contains(id),
            old(self)@.agrees_with(old(registry)@) ==> final(self)@.agrees_with(final(registry)@),
    {
        let ghost start = self@;
        let ghost start_registry = registry@;
        self.apply_kill_requests(registry);
        let ghost cleared = self@;
        let ghost cleared_registry = registry@;
        let ghost mut turns: Seq<Turn> = Seq::empty();
        let mut taken: usize = 0;
        while taken < max_polls
            invariant
                self.wf(),
                taken <= max_polls,
                turns.len() == taken,
                turns_fit(cleared, cleared_registry, turns),
                (self@, registry@) == after_turns(cleared, cleared_registry, turns),
                self@.tasks.submap_of(start.tasks),
                registry@.stats.dom().subset_of(start_registry.stats.dom()),
                registry@.kill_requests == Set::<u64>::empty(),
                forall|id: u64| #[trigger]
                    start_registry.kill_requests.contains(id) ==> !self@.has_task(id)
                        && !registry@.contains(id),
                start.agrees_with(start_registry) ==> self@.agrees_with(registry@),
            decreases max_polls - taken,
        {
            let ghost before = self@;
            let ghost before_registry = registry@;
            match self.next_ready() {
                Some(id) => {
                    let outcome = self.run_task(registry, id);
                    taken += 1;
                    proof {
                        let turn = Turn { id: id.raw(), outcome };
                        lemma_one_more_turn(cleared, cleared_registry, turns, turn);
                        turns = turns.push(turn);
                        lemma_poll_only_removes(before, before_registry, id.raw(), outcome);
                        vstd::map_lib::lemma_submap_of_trans(
                            self@.tasks,
                            before.tasks,
                            start.tasks,
                        );
                    }
                },
                None => {
                    break ;
                },
            }
        }
        let ghost settled = self@;
        self.apply_kill_requests(registry);
        proof {
            assert(is_pass((start, start_registry), turns, (self@, registry@)));
            assert(self@.tasks.submap_of(settled.tasks));
            vstd::map_lib::lemma_submap_of_trans(self@.tasks, settled.tasks, start.tasks);
        }
        taken
    }

    /// What the idle routine is to do. Call this with interrupts disabled: a
    /// wake-up that came in before they were disabled has put its task on the
    /// queue and is seen here, and one that comes later is held back until
    /// the halt that re-enables interrupts, which it then ends.
    pub fn idle_action(&self) -> (action: IdleAction) {
        IdleAction::for_queue(self.task_queue.is_empty())
    }

    /// Whether a task identifier was ever turned away by the ready queue, by
    /// a wake handle that found it full. This is an unrecoverable fault.
    pub fn ready_queue_overflowed(&self) -> (overflowed: bool) {
        self.task_queue.has_overflowed()
    }

    /// Whether the task `id` is in the table.
    pub fn has_task(&self, id: TaskId) -> (found: bool)
        ensures
            found == self@.has_task(id.raw()),
    {
        let raw: u64 = id.as_u64();
        self.tasks.contains_key(&raw)
    }

    /// The number of tasks in the table.
    pub fn task_count(&self) -> (count: usize)
        ensures
            count == self@.tasks.len(),
    {
        proof {
            assert(self@.tasks.dom() =~= self.tasks@.dom());
        }
        self.tasks.len()
    }
}

} // verus!
