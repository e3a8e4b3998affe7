//! Registry of shard transfer tasks.
//!
//! A transfer moves one shard from a source node to a destination node. The
//! registry keeps, for each transfer in flight, the handle of the task doing
//! the work and the progress counters that task shares with observers.
use std::sync::Arc;

use parking_lot::lock_api::Mutex;
use parking_lot::RawMutex;
use vstd::prelude::*;

verus! {

#[verifier::external_type_specification]
#[verifier::external_body]
pub struct ExRawMutex(RawMutex);

#[verifier::external_type_specification]
#[verifier::external_body]
#[verifier::reject_recursive_types(R)]
#[verifier::reject_recursive_types(T)]
pub struct ExMutex<R, T: ?Sized>(Mutex<R, T>);

/// Identifies a transfer: the shard and the two nodes it moves between.
#[derive(Clone, Copy, Debug, PartialEq, Eq, Structural, Hash)]
pub struct ShardTransferKey {
    pub shard_id: u32,
    pub from: u64,
    pub to: u64,
}

/// A shard transfer as the orchestration layer describes it.
#[derive(Clone, Copy, Debug, PartialEq, Eq, Structural, Hash)]
pub struct ShardTransfer {
    pub shard_id: u32,
    pub from: u64,
    pub to: u64,
    /// Whether the source keeps its replica in sync during the transfer.
    pub sync: bool,
}

impl ShardTransfer {
    pub open spec fn key_view(&self) -> ShardTransferKey {
        ShardTransferKey { shard_id: self.shard_id, from: self.from, to: self.to }
    }

    /// The registry key of this transfer.
    pub fn key(&self) -> (r: ShardTransferKey)
        ensures
            r == self.key_view(),
    {
        ShardTransferKey { shard_id: self.shard_id, from: self.from, to: self.to }
    }
}

/// Counters that a running transfer updates and observers read.
#[derive(Clone, Copy, Debug)]
pub struct TransferTaskProgress {
    pub records_done: usize,
    pub records_total: usize,
}

impl Default for TransferTaskProgress {
    fn default() -> (r: TransferTaskProgress)
        ensures
            r.records_done == 0,
            r.records_total == 0,
    {
        TransferTaskProgress { records_done: 0, records_total: 0 }
    }
}

/// The outcome of a request to stop a transfer.
#[derive(Clone, Copy, Debug, PartialEq, Eq, Structural, Hash)]
pub enum TaskResult {
    Finished,
    NotFound,
    Stopped,
    Failed,
}

/// The outcome of a stop request, given what cancelling the task gave back:
/// `None` when there was no task to cancel, `Ok(true)` when it had finished
/// with success, `Ok(false)` when it was stopped first, `Err` when it failed.
pub open spec fn stop_outcome<E>(cancelled: Option<Result<bool, E>>) -> TaskResult {
    match cancelled {
        None => TaskResult::NotFound,
        Some(Ok(true)) => TaskResult::Finished,
        Some(Ok(false)) => TaskResult::Stopped,
        Some(Err(_)) => TaskResult::Failed,
    }
}

impl TaskResult {
    pub fn is_finished(&self) -> (r: bool)
        ensures
            r == (*self == TaskResult::Finished),
    {
        matches!(self, TaskResult::Finished)
    }

    /// Folds what cancelling a task gave back into a `TaskResult`.
    pub fn from_cancellation<E>(cancelled: Option<Result<bool, E>>) -> (r: TaskResult)
        ensures
            r == stop_outcome(cancelled),
    {
        match cancelled {
            None => TaskResult::NotFound,
            Some(Ok(true)) => TaskResult::Finished,
            Some(Ok(false)) => TaskResult::Stopped,
            Some(Err(_)) => TaskResult::Failed,
        }
    }
}

/// The non-blocking queries the registry makes of a running task's handle.
pub trait TaskHandle {
    /// Whether the task has stopped running.
    fn is_finished(&self) -> bool;

    /// `None` while the task runs; once it has finished, whether it succeeded.
    fn get_result(&self) -> Option<bool>;
}

/// A tracked transfer: its task handle and the progress it shares.
pub struct TransferTaskItem<H> {
    pub task: H,
    pub progress: Arc<Mutex<RawMutex, TransferTaskProgress>>,
}

/// Relies on parking_lot's `Mutex::lock`, which blocks until the lock is held:
/// both counters are copied under one lock. The running task writes them
/// concurrently, so nothing is known of the copy.
#[verifier::external_body]
fn read_progress(progress: &Arc<Mutex<RawMutex, TransferTaskProgress>>) -> (r: TransferTaskProgress) {
    *progress.lock()
}

/// No key occurs twice among `entries`.
pub open spec fn keys_unique<H>(entries: Seq<(ShardTransferKey, TransferTaskItem<H>)>) -> bool {
    forall|i: int, j: int|
        0 <= i < entries.len() && 0 <= j < entries.len() && i != j ==> (#[trigger] entries[i]).0
            != (#[trigger] entries[j]).0
}

/// `key` occurs among `entries`.
pub open spec fn has_key<H>(entries: Seq<(ShardTransferKey, TransferTaskItem<H>)>, key: ShardTransferKey) -> bool {
    exists|i: int| 0 <= i < entries.len() && (#[trigger] entries[i]).0 == key
}

/// The entries as a map from key to item.
pub open spec fn entries_map<H>(entries: Seq<(ShardTransferKey, TransferTaskItem<H>)>) -> Map<
    ShardTransferKey,
    TransferTaskItem<H>,
> {
    Map::new(
        |k: ShardTransferKey| has_key(entries, k),
        |k: ShardTransferKey|
            entries[choose|i: int| 0 <= i < entries.len() && (#[trigger] entries[i]).0 == k].1,
    )
}

proof fn lemma_entry_in_map<H>(entries: Seq<(ShardTransferKey, TransferTaskItem<H>)>, i: int)
    requires
        keys_unique(entries),
        0 <= i < entries.len(),
    ensures
        entries_map(entries).contains_key(entries[i].0),
        entries_map(entries)[entries[i].0] == entries[i].1,
{
    let k = entries[i].0;
    assert(has_key(entries, k));
    let j = choose|j: int| 0 <= j < entries.len() && (#[trigger] entries[j]).0 == k;
    assert(j == i);
}

/// The registry of transfers in flight, keyed by transfer.
pub struct TransferTasksPool<H> {
    collection_id: String,
    tasks: Vec<(ShardTransferKey, TransferTaskItem<H>)>,
}

impl<H> TransferTasksPool<H> {
    /// The transfers tracked, by key.
    pub closed spec fn tasks(&self) -> Map<ShardTransferKey, TransferTaskItem<H>> {
        entries_map(self.tasks@)
    }

    pub closed spec fn wf(&self) -> bool {
        keys_unique(self.tasks@)
    }

    pub closed spec fn collection_view(&self) -> Seq<char> {
        self.collection_id@
    }

    /// An empty registry for the given collection.
    pub fn new(collection_id: String) -> (r: Self)
        ensures
            r.wf(),
            r.tasks().is_empty(),
            r.collection_view() == collection_id@,
    {
        let r = TransferTasksPool { collection_id, tasks: Vec::new() };
        assert(r.tasks() =~= Map::empty());
        r
    }

    /// The collection this registry belongs to.
    pub fn collection_id(&self) -> (r: &String)
        ensures
            r@ == self.collection_view(),
    {
        &self.collection_id
    }

    /// The position of `key` among the entries.
    fn find(&self, key: &ShardTransferKey) -> (r: Option<usize>)
        requires
            self.wf(),
        ensures
            r is Some <==> self.tasks().contains_key(*key),
            r is Some ==> {
                &&& r->0 < self.tasks@.len()
                &&& self.tasks@[r->0 as int].0 == *key
                &&& self.tasks()[*key] == self.tasks@[r->0 as int].1
            },
    {
        let mut i: usize = 0;
        while i < self.tasks.len()
            invariant
                keys_unique(self.tasks@),
                0 <= i <= self.tasks@.len(),
                forall|j: int| 0 <= j < i ==> (#[trigger] self.tasks@[j]).0 != *key,
            decreases self.tasks@.len() - i,
        {
            if self.tasks[i].0 == *key {
                proof {
                    lemma_entry_in_map(self.tasks@, i as int);
                }
                return Some(i);
            }
            i = i + 1;
        }
        None
    }

    /// Whether a transfer with this key is tracked.
    pub fn has_task(&self, key: &ShardTransferKey) -> (r: bool)
        requires
            self.wf(),
        ensures
            r == self.tasks().contains_key(*key),
    {
        self.find(key).is_some()
    }

    /// A copy of the progress counters of this transfer, or `None` if it is
    /// not tracked.
    pub fn get_task_progress(&self, key: &ShardTransferKey) -> (r: Option<TransferTaskProgress>)
        requires
            self.wf(),
        ensures
            r is Some <==> self.tasks().contains_key(*key),
    {
        match self.find(key) {
            Some(i) => Some(read_progress(&self.tasks[i].1.progress)),
            None => None,
        }
    }

    /// Starts tracking a transfer. A transfer with the same key must not be
    /// tracked already: stop or remove it first.
    pub fn add_task(&mut self, shard_transfer: &ShardTransfer, item: TransferTaskItem<H>)
        requires
            old(self).wf(),
            !old(self).tasks().contains_key(shard_transfer.key_view()),
        ensures
            final(self).wf(),
            final(self).tasks() == old(self).tasks().insert(shard_transfer.key_view(), item),
            final(self).collection_view() == old(self).collection_view(),
    {
        let key = shard_transfer.key();
        let ghost before = self.tasks@;
        self.tasks.push((key, item));
        let ghost after = self.tasks@;
        assert(after.len() == before.len() + 1);
        assert(forall|j: int| 0 <= j < before.len() ==> after[j] == before[j]);
        assert(!has_key(before, key));
        assert(keys_unique(after));
        assert forall|k: ShardTransferKey|
            #![auto]
            entries_map(after).contains_key(k) == entries_map(before).insert(key, item).contains_key(
                k,
            ) by {
            if has_key(before, k) {
                let i = choose|i: int| 0 <= i < before.len() && (#[trigger] before[i]).0 == k;
                assert(after[i].0 == k);
            }
            if k == key {
                assert(after[before.len() as int].0 == k);
            }
            if has_key(after, k) && k != key {
                let i = choose|i: int| 0 <= i < after.len() && (#[trigger] after[i]).0 == k;
                assert(before[i].0 == k);
            }
        }
        assert forall|k: ShardTransferKey| #[trigger]
            entries_map(after).contains_key(k) implies entries_map(after)[k] == entries_map(
                before,
            ).insert(key, item)[k] by {
            let i = choose|i: int| 0 <= i < after.len() && (#[trigger] after[i]).0 == k;
            lemma_entry_in_map(after, i);
            if k != key {
                assert(i < before.len());
                lemma_entry_in_map(before, i);
            }
        }
        assert(entries_map(after) =~= entries_map(before).insert(key, item));
    }

    /// Stops tracking a transfer and hands its item back, or `None` if it was
    /// not tracked.
    pub fn take_task(&mut self, key: &ShardTransferKey) -> (r: Option<TransferTaskItem<H>>)
        requires
            old(self).wf(),
        ensures
            final(self).wf(),
            r is Some <==> old(self).tasks().contains_key(*key),
            r is Some ==> r->0 == old(self).tasks()[*key],
            final(self).tasks() == old(self).tasks().remove(*key),
            final(self).collection_view() == old(self).collection_view(),
    {
        match self.find(key) {
            None => {
                assert(old(self).tasks().remove(*key) =~= old(self).tasks());
                None
            },
            Some(i) => {
                let ghost before = self.tasks@;
                let entry = self.tasks.remove(i);
                let ghost after = self.tasks@;
                assert(after =~= before.remove(i as int));
                assert(keys_unique(after));
                assert forall|k: ShardTransferKey|
                    #![auto]
                    entries_map(after).contains_key(k) == entries_map(before).remove(
                        *key,
                    ).contains_key(k) by {
                    if has_key(after, k) {
                        let j = choose|j: int| 0 <= j < after.len() && (#[trigger] after[j]).0 == k;
                        if j < i {
                            assert(before[j].0 == k);
                        } else {
                            assert(before[j + 1].0 == k);
                        }
                    }
                    if has_key(before, k) && k != *key {
                        let j = choose|j: int| 0 <= j < before.len() && (#[trigger] before[j]).0 == k;
                        if j < i {
                            assert(after[j].0 == k);
                        } else {
                            assert(after[j - 1].0 == k);
                        }
                    }
                }
                assert forall|k: ShardTransferKey| #[trigger]
                    entries_map(after).contains_key(k) implies entries_map(after)[k]
                    == entries_map(before)[k] by {
                    let j = choose|j: int| 0 <= j < after.len() && (#[trigger] after[j]).0 == k;
                    lemma_entry_in_map(after, j);
                    if j < i {
                        lemma_entry_in_map(before, j);
                    } else {
                        lemma_entry_in_map(before, j + 1);
                    }
                }
                assert(entries_map(after) =~= entries_map(before).remove(*key));
                Some(entry.1)
            },
        }
    }
}

impl<H: TaskHandle> TransferTasksPool<H> {
    /// Whether this transfer is tracked and its task has not finished. An
    /// untracked transfer is reported as not running.
    pub fn check_if_still_running(&self, key: &ShardTransferKey) -> (r: bool)
        requires
            self.wf(),
        ensures
            !self.tasks().contains_key(*key) ==> !r,
    {
        match self.find(key) {
            Some(i) => !self.tasks[i].1.task.is_finished(),
            None => false,
        }
    }

    /// `Some(true)` if this transfer finished with success, `Some(false)` if
    /// it failed or was stopped, `None` if it is not tracked or still running.
    pub fn get_task_result(&self, key: &ShardTransferKey) -> (r: Option<bool>)
        requires
            self.wf(),
        ensures
            !self.tasks().contains_key(*key) ==> r is None,
    {
        match self.find(key) {
            Some(i) => self.tasks[i].1.task.get_result(),
            None => None,
        }
    }
}

/// Stopping the same transfer twice in a row: the first request finds the
/// tracked task, removes it and reports how cancelling it ended, which is
/// never `NotFound`; the second finds nothing left and reports `NotFound`.
pub proof fn lemma_second_stop_not_found<H, E>(
    tasks: Map<ShardTransferKey, TransferTaskItem<H>>,
    key: ShardTransferKey,
    cancelled: Result<bool, E>,
)
    requires
        tasks.contains_key(key),
    ensures
        stop_outcome(Some(cancelled)) != TaskResult::NotFound,
        !tasks.remove(key).contains_key(key),
        stop_outcome::<E>(None) == TaskResult::NotFound,
{
}

} // verus!
