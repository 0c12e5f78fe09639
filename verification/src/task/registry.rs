//! Lifecycle bookkeeping for tasks: name, run state and poll count of every
//! live task, and the set of tasks whose forced removal is pending.
//!
//! The registry is kept apart from the task objects, so that a "list tasks"
//! or "terminate task" command can be served without borrowing the executor.

use crate::task::TaskId;
use std::collections::BTreeMap;
use std::collections::BTreeSet;
use vstd::prelude::*;
use vstd::std_specs::btree::increasing_seq;
use vstd::std_specs::btree::spec_btree_keys_iter;
use vstd::std_specs::btree::spec_btree_map_iter;
use vstd::std_specs::cmp::OrdSpec;
use vstd::std_specs::iter::IteratorSpec;

verus! {

broadcast use {vstd::std_specs::btree::group_btree_axioms, vstd::laws_cmp::group_laws_cmp};

/// Where a task stands in the scheduling cycle.
#[derive(Debug, Clone, Copy, PartialEq, Eq, Structural)]
pub enum TaskState {
    Ready,
    Running,
    Waiting,
    KillRequested,
}

impl TaskState {
    pub fn as_str(self) -> (text: &'static str)
        ensures
            text@ == match self {
                TaskState::Ready => "Ready"@,
                TaskState::Running => "Running"@,
                TaskState::Waiting => "Waiting"@,
                TaskState::KillRequested => "KillRequested"@,
            },
    {
        match self {
            TaskState::Ready => "Ready",
            TaskState::Running => "Running",
            TaskState::Waiting => "Waiting",
            TaskState::KillRequested => "KillRequested",
        }
    }
}

/// What the registry records about one task.
#[derive(Debug, Clone, Copy)]
pub struct TaskStats {
    pub name: &'static str,
    pub state: TaskState,
    pub poll_count: u64,
}

/// One line of a task listing.
#[derive(Debug, Clone, Copy)]
pub struct TaskSnapshot {
    pub id: u64,
    pub name: &'static str,
    pub state: TaskState,
    pub poll_count: u64,
}

/// Outcome of asking for a task to be removed.
#[derive(Debug, Clone, Copy, PartialEq, Eq, Structural)]
pub enum KillRequestResult {
    Queued,
    AlreadyQueued,
    NotFound,
}

/// The task registry: one entry per live task, keyed by the task's raw
/// identifier, and the set of identifiers with a pending kill request.
pub struct TaskRegistry {
    stats: BTreeMap<u64, TaskStats>,
    kill_requests: BTreeSet<u64>,
}

/// What a registry holds, as mathematical values.
pub struct RegistryView {
    /// The entries, by raw task identifier.
    pub stats: Map<u64, TaskStats>,
    /// The identifiers with a pending kill request.
    pub kill_requests: Set<u64>,
}

/// The state that an entry is left in when `requested` is asked for: a kill
/// request sticks, every other state is overwritten.
pub open spec fn next_state(current: TaskState, requested: TaskState) -> TaskState {
    if current == TaskState::KillRequested {
        TaskState::KillRequested
    } else {
        requested
    }
}

/// The poll count after one more poll. The counter wraps around to zero after
/// `u64::MAX`.
pub open spec fn next_poll_count(count: u64) -> u64 {
    if count == u64::MAX {
        0
    } else {
        (count + 1) as u64
    }
}

impl RegistryView {
    pub open spec fn empty() -> RegistryView {
        RegistryView { stats: Map::empty(), kill_requests: Set::empty() }
    }

    pub open spec fn contains(self, id: u64) -> bool {
        self.stats.contains_key(id)
    }

    /// A new entry for `id`: ready, never polled.
    pub open spec fn register(self, id: u64, name: &'static str) -> RegistryView {
        RegistryView {
            stats: self.stats.insert(
                id,
                TaskStats { name, state: TaskState::Ready, poll_count: 0 },
            ),
            ..self
        }
    }

    pub open spec fn unregister(self, id: u64) -> RegistryView {
        RegistryView { stats: self.stats.remove(id), ..self }
    }

    pub open spec fn set_state(self, id: u64, state: TaskState) -> RegistryView {
        if self.contains(id) {
            let entry = self.stats[id];
            RegistryView {
                stats: self.stats.insert(
                    id,
                    TaskStats { state: next_state(entry.state, state), ..entry },
                ),
                ..self
            }
        } else {
            self
        }
    }

    pub open spec fn bump_poll_count(self, id: u64) -> RegistryView {
        if self.contains(id) {
            let entry = self.stats[id];
            RegistryView {
                stats: self.stats.insert(
                    id,
                    TaskStats { poll_count: next_poll_count(entry.poll_count), ..entry },
                ),
                ..self
            }
        } else {
            self
        }
    }

    /// What a kill request for `id` is answered with.
    pub open spec fn kill_outcome(self, id: u64) -> KillRequestResult {
        if !self.contains(id) {
            KillRequestResult::NotFound
        } else if self.kill_requests.contains(id) {
            KillRequestResult::AlreadyQueued
        } else {
            KillRequestResult::Queued
        }
    }

    /// The registry after a kill request for `id`: a request that is queued
    /// joins the pending set and marks the entry, any other changes nothing.
    pub open spec fn request_kill(self, id: u64) -> RegistryView {
        if self.kill_outcome(id) == KillRequestResult::Queued {
            RegistryView {
                stats: self.stats.insert(
                    id,
                    TaskStats { state: TaskState::KillRequested, ..self.stats[id] },
                ),
                kill_requests: self.kill_requests.insert(id),
            }
        } else {
            self
        }
    }

    /// The registry once the pending kill requests have been carried out:
    /// their entries are gone and nothing is pending.
    pub open spec fn purge_killed(self) -> RegistryView {
        RegistryView {
            stats: self.stats.remove_keys(self.kill_requests),
            kill_requests: Set::empty(),
        }
    }
}

/// A kill request that is repeated is answered with `AlreadyQueued`: whatever
/// the first request for a registered task was answered with, the next one
/// for the same task finds the request pending. The first is answered with
/// `Queued` if no request was pending before, and a request for a task
/// without an entry is answered with `NotFound` and changes nothing.
pub proof fn lemma_repeated_kill_request(registry: RegistryView, id: u64)
    ensures
        registry.contains(id) ==> registry.request_kill(id).kill_outcome(id)
            == KillRequestResult::AlreadyQueued,
        registry.contains(id) && !registry.kill_requests.contains(id) ==> registry.kill_outcome(id)
            == KillRequestResult::Queued,
        !registry.contains(id) ==> registry.kill_outcome(id) == KillRequestResult::NotFound
            && registry.request_kill(id) == registry,
{
}

/// A kill request sticks: once the entry of `id` is in state `KillRequested`
/// it stays there, whichever state is asked for, for `id` or for any other
/// task, and however often polls are counted or kill requests repeated. Only
/// removal ends it.
pub proof fn lemma_kill_requested_is_sticky(
    registry: RegistryView,
    id: u64,
    other: u64,
    state: TaskState,
)
    requires
        registry.contains(id),
        registry.stats[id].state == TaskState::KillRequested,
    ensures
        registry.set_state(other, state).contains(id),
        registry.set_state(other, state).stats[id].state == TaskState::KillRequested,
        registry.bump_poll_count(other).contains(id),
        registry.bump_poll_count(other).stats[id].state == TaskState::KillRequested,
        registry.request_kill(other).contains(id),
        registry.request_kill(other).stats[id].state == TaskState::KillRequested,
{
}

/// A kill request that is queued leaves the entry in state `KillRequested`.
pub proof fn lemma_queued_kill_marks_entry(registry: RegistryView, id: u64)
    requires
        registry.kill_outcome(id) == KillRequestResult::Queued,
    ensures
        registry.request_kill(id).contains(id),
        registry.request_kill(id).stats[id].state == TaskState::KillRequested,
        registry.request_kill(id).kill_requests.contains(id),
{
}

impl View for TaskRegistry {
    type V = RegistryView;

    closed spec fn view(&self) -> RegistryView {
        RegistryView { stats: self.stats@, kill_requests: self.kill_requests@ }
    }
}

impl TaskRegistry {
    /// An empty registry.
    pub fn new() -> (registry: TaskRegistry)
        ensures
            registry@ == RegistryView::empty(),
    {
        TaskRegistry { stats: BTreeMap::new(), kill_requests: BTreeSet::new() }
    }

    /// Whether `id` has an entry.
    pub fn is_registered(&self, id: u64) -> (found: bool)
        ensures
            found == self@.contains(id),
    {
        self.stats.contains_key(&id)
    }

    /// The entry of `id`, if it has one.
    pub fn lookup(&self, id: u64) -> (entry: Option<TaskStats>)
        ensures
            entry == if self@.contains(id) {
                Some(self@.stats[id])
            } else {
                None
            },
    {
        match self.stats.get(&id) {
            Some(info) => Some(*info),
            None => None,
        }
    }

    /// Whether a kill request is pending for `id`.
    pub fn is_kill_requested(&self, id: u64) -> (pending: bool)
        ensures
            pending == self@.kill_requests.contains(id),
    {
        self.kill_requests.contains(&id)
    }
}

/// Adds an entry for a new task, in state `Ready` and with no polls counted.
/// The identifier must not have an entry yet.
pub fn register_task(registry: &mut TaskRegistry, task_id: TaskId, name: &'static str)
    requires
        !old(registry)@.contains(task_id.raw()),
    ensures
        final(registry)@ == old(registry)@.register(task_id.raw(), name),
{
    registry.stats.insert(
        task_id.as_u64(),
        TaskStats { name, state: TaskState::Ready, poll_count: 0 },
    );
}

/// Removes the entry of `task_id`, if there is one.
pub fn unregister_task(registry: &mut TaskRegistry, task_id: TaskId)
    ensures
        final(registry)@ == old(registry)@.unregister(task_id.raw()),
{
    let raw: u64 = task_id.as_u64();
    registry.stats.remove(&raw);
}

/// Moves the entry of `task_id` to `state`, unless a kill request has been
/// recorded for it: `KillRequested` is only ever left by removal. Does nothing
/// if the task has no entry.
pub fn set_task_state(registry: &mut TaskRegistry, task_id: TaskId, state: TaskState)
    ensures
        final(registry)@ == old(registry)@.set_state(task_id.raw(), state),
{
    let raw: u64 = task_id.as_u64();
    match registry.lookup(raw) {
        Some(info) => {
            if info.state != TaskState::KillRequested || state == TaskState::KillRequested {
                registry.stats.insert(
                    raw,
                    TaskStats { name: info.name, state, poll_count: info.poll_count },
                );
            } else {
                assert(registry@.stats =~= old(registry)@.stats.insert(raw, info));
            }
        },
        None => {},
    }
}

/// Counts one more poll of `task_id`. Does nothing if the task has no entry.
pub fn bump_poll_count(registry: &mut TaskRegistry, task_id: TaskId)
    ensures
        final(registry)@ == old(registry)@.bump_poll_count(task_id.raw()),
{
    let raw: u64 = task_id.as_u64();
    match registry.lookup(raw) {
        Some(info) => {
            registry.stats.insert(
                raw,
                TaskStats {
                    name: info.name,
                    state: info.state,
                    poll_count: info.poll_count.wrapping_add(1),
                },
            );
        },
        None => {},
    }
}

/// Asks for the task `task_id` to be removed. The answer is `NotFound` if the
/// task has no entry and `AlreadyQueued` if a request for it is pending;
/// otherwise the request is recorded, the entry is marked `KillRequested`, and
/// the answer is `Queued`.
pub fn request_kill(registry: &mut TaskRegistry, task_id: u64) -> (outcome: KillRequestResult)
    ensures
        outcome == old(registry)@.kill_outcome(task_id),
        final(registry)@ == old(registry)@.request_kill(task_id),
{
    if !registry.stats.contains_key(&task_id) {
        return KillRequestResult::NotFound;
    }
    if !registry.kill_requests.insert(task_id) {
        assert(registry@.kill_requests =~= old(registry)@.kill_requests);
        return KillRequestResult::AlreadyQueued;
    }
    set_task_state(registry, TaskId::from_raw(task_id), TaskState::KillRequested);
    KillRequestResult::Queued
}

/// Hands out the pending kill requests, in increasing order of identifier,
/// and leaves none pending.
pub fn take_kill_requests(registry: &mut TaskRegistry) -> (ids: Vec<u64>)
    ensures
        ids@.to_set() == old(registry)@.kill_requests,
        forall|i: int, j: int| 0 <= i < j < ids.len() ==> ids[i] < ids[j],
        final(registry)@ == (RegistryView { kill_requests: Set::empty(), ..old(registry)@ }),
{
    let mut ids: Vec<u64> = Vec::new();
    for id in it: registry.kill_requests.iter()
        invariant
            it.seq() == spec_btree_keys_iter(&registry.kill_requests).remaining(),
            ids.len() == it.index(),
            forall|i: int| 0 <= i < ids.len() ==> ids[i] == *it.seq()[i],
    {
        ids.push(*id);
    }
    proof {
        let keys = spec_btree_keys_iter(&registry.kill_requests).remaining();
        assert(ids@ =~= keys.unref());
        assert(vstd::laws_cmp::obeys_cmp::<&u64>());
        assert(increasing_seq(keys));
        assert forall|i: int, j: int| 0 <= i < j < ids.len() implies ids[i] < ids[j] by {
            assert(OrdSpec::cmp_spec(&keys[i], &keys[j]) is Less);
        }
    }
    registry.kill_requests.clear();
    ids
}

/// Whether `listing` lists exactly the entries of `stats`, each once, in
/// increasing order of identifier.
pub open spec fn is_snapshot_of(listing: Seq<TaskSnapshot>, stats: Map<u64, TaskStats>) -> bool {
    &&& listing.len() == stats.len()
    &&& forall|i: int, j: int| 0 <= i < j < listing.len() ==> listing[i].id < listing[j].id
    &&& forall|i: int|
        #![trigger listing[i]]
        0 <= i < listing.len() ==> {
            &&& stats.contains_key(listing[i].id)
            &&& listing[i].name == stats[listing[i].id].name
            &&& listing[i].state == stats[listing[i].id].state
            &&& listing[i].poll_count == stats[listing[i].id].poll_count
        }
    &&& forall|id: u64| #[trigger]
        stats.contains_key(id) ==> exists|i: int|
            #![trigger listing[i]]
            0 <= i < listing.len() && listing[i].id == id
}

/// Lists every entry of the registry, in increasing order of identifier.
pub fn snapshot_tasks(registry: &TaskRegistry) -> (listing: Vec<TaskSnapshot>)
    ensures
        is_snapshot_of(listing@, registry@.stats),
{
    let mut listing: Vec<TaskSnapshot> = Vec::new();
    for entry in it: registry.stats.iter()
        invariant
            it.seq() == spec_btree_map_iter(&registry.stats).remaining(),
            increasing_seq(it.seq().map_values(|kv: (&u64, &TaskStats)| *kv.0)),
            listing.len() == it.index(),
            forall|i: int|
                0 <= i < listing.len() ==> {
                    &&& (#[trigger] listing[i]).id == *it.seq()[i].0
                    &&& listing[i].name == it.seq()[i].1.name
                    &&& listing[i].state == it.seq()[i].1.state
                    &&& listing[i].poll_count == it.seq()[i].1.poll_count
                },
    {
        let (id, info) = entry;
        listing.push(
            TaskSnapshot { id: *id, name: info.name, state: info.state, poll_count: info.poll_count },
        );
    }
    proof {
        let entries = spec_btree_map_iter(&registry.stats).remaining();
        let keys = entries.map_values(|kv: (&u64, &TaskStats)| *kv.0);
        assert forall|i: int, j: int| 0 <= i < j < listing.len() implies listing[i].id
            < listing[j].id by {
            assert(keys[i] == listing[i].id);
            assert(keys[j] == listing[j].id);
            assert(keys[i].cmp_spec(&keys[j]) is Less);
        }
        assert forall|i: int| #![trigger listing[i]] 0 <= i < listing.len() implies {
            &&& registry@.stats.contains_key(listing[i].id)
            &&& listing[i].name == registry@.stats[listing[i].id].name
            &&& listing[i].state == registry@.stats[listing[i].id].state
            &&& listing[i].poll_count == registry@.stats[listing[i].id].poll_count
        } by {
            assert(registry.stats@.contains_key(*entries[i].0));
        }
        assert forall|id: u64| #[trigger] registry@.stats.contains_key(id) implies exists|i: int|
            #![trigger listing[i]]
            0 <= i < listing.len() && listing[i].id == id by {
            assert(entries.contains((&id, &registry.stats@[id])));
            let i = choose|i: int| 0 <= i < entries.len() && entries[i] == (&id, &registry.stats@[id]);
            assert(listing[i].id == id);
        }
    }
    listing
}

} // verus!
