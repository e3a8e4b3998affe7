use std::sync::Arc;

use shard_sync::transfer::{
    ShardTransfer, ShardTransferKey, TaskHandle, TaskResult, TransferTaskItem,
    TransferTaskProgress, TransferTasksPool,
};

struct FakeTask {
    outcome: Arc<std::sync::Mutex<Option<bool>>>,
}

impl TaskHandle for FakeTask {
    fn is_finished(&self) -> bool {
        self.outcome.lock().unwrap().is_some()
    }

    fn get_result(&self) -> Option<bool> {
        *self.outcome.lock().unwrap()
    }
}

type Outcome = Arc<std::sync::Mutex<Option<bool>>>;
type Progress = Arc<parking_lot::Mutex<TransferTaskProgress>>;

fn item(done: usize, total: usize) -> (TransferTaskItem<FakeTask>, Outcome, Progress) {
    let outcome: Outcome = Arc::new(std::sync::Mutex::new(None));
    let progress: Progress = Arc::new(parking_lot::Mutex::new(TransferTaskProgress {
        records_done: done,
        records_total: total,
    }));
    let item = TransferTaskItem {
        task: FakeTask { outcome: outcome.clone() },
        progress: progress.clone(),
    };
    (item, outcome, progress)
}

fn transfer(shard_id: u32, from: u64, to: u64) -> ShardTransfer {
    ShardTransfer { shard_id, from, to, sync: false }
}

#[test]
fn transfer_key_takes_shard_and_nodes() {
    let t = ShardTransfer { shard_id: 3, from: 1, to: 2, sync: true };
    assert_eq!(t.key(), ShardTransferKey { shard_id: 3, from: 1, to: 2 });
}

#[test]
fn running_then_finished_transfer() {
    let mut pool = TransferTasksPool::new("books".to_string());
    assert_eq!(pool.collection_id(), "books");
    let t = transfer(1, 5, 7);
    let key = t.key();
    let (it, outcome, progress) = item(0, 100);
    pool.add_task(&t, it);

    assert!(pool.has_task(&key));
    assert!(pool.check_if_still_running(&key));
    let p = pool.get_task_progress(&key).unwrap();
    assert_eq!((p.records_done, p.records_total), (0, 100));
    assert_eq!(pool.get_task_result(&key), None);

    progress.lock().records_done = 40;
    let p = pool.get_task_progress(&key).unwrap();
    assert_eq!((p.records_done, p.records_total), (40, 100));

    *outcome.lock().unwrap() = Some(true);
    assert!(!pool.check_if_still_running(&key));
    assert_eq!(pool.get_task_result(&key), Some(true));
}

#[test]
fn task_result_over_lifecycle() {
    let mut pool = TransferTasksPool::new("c".to_string());
    let t = transfer(2, 1, 3);
    let key = t.key();
    assert_eq!(pool.get_task_result(&key), None);

    let (it, outcome, _progress) = item(0, 10);
    pool.add_task(&t, it);
    assert_eq!(pool.get_task_result(&key), None);
    *outcome.lock().unwrap() = Some(false);
    assert_eq!(pool.get_task_result(&key), Some(false));
}

#[test]
fn unknown_transfer_is_not_running() {
    let pool: TransferTasksPool<FakeTask> = TransferTasksPool::new("c".to_string());
    let key = ShardTransferKey { shard_id: 9, from: 1, to: 2 };
    assert!(!pool.check_if_still_running(&key));
    assert!(pool.get_task_progress(&key).is_none());
    assert!(!pool.has_task(&key));
}

#[test]
fn keys_are_told_apart() {
    let mut pool = TransferTasksPool::new("c".to_string());
    let (a, _oa, _pa) = item(1, 2);
    let (b, _ob, _pb) = item(3, 4);
    pool.add_task(&transfer(1, 5, 7), a);
    pool.add_task(&transfer(1, 7, 5), b);
    let pa = pool.get_task_progress(&transfer(1, 5, 7).key()).unwrap();
    let pb = pool.get_task_progress(&transfer(1, 7, 5).key()).unwrap();
    assert_eq!(pa.records_done, 1);
    assert_eq!(pb.records_done, 3);
    assert!(pool.get_task_progress(&transfer(2, 5, 7).key()).is_none());
}

#[test]
fn stopping_twice_reports_not_found() {
    let mut pool = TransferTasksPool::new("c".to_string());
    let t = transfer(1, 5, 7);
    let key = t.key();
    let (it, _outcome, _progress) = item(0, 100);
    pool.add_task(&t, it);

    let first = pool.take_task(&key).map(|_task| Ok::<bool, String>(false));
    assert_eq!(TaskResult::from_cancellation(first), TaskResult::Stopped);
    assert!(!pool.has_task(&key));
    assert!(pool.get_task_progress(&key).is_none());

    let second = pool.take_task(&key).map(|_task| Ok::<bool, String>(false));
    assert_eq!(TaskResult::from_cancellation(second), TaskResult::NotFound);
}

#[test]
fn taken_task_can_be_added_again() {
    let mut pool = TransferTasksPool::new("c".to_string());
    let t = transfer(4, 1, 2);
    let (a, _oa, _pa) = item(5, 6);
    pool.add_task(&t, a);
    let taken = pool.take_task(&t.key()).unwrap();
    assert_eq!(taken.progress.lock().records_done, 5);
    let (b, _ob, _pb) = item(7, 8);
    pool.add_task(&t, b);
    assert_eq!(pool.get_task_progress(&t.key()).unwrap().records_done, 7);
}

#[test]
fn cancellation_outcomes_map_to_results() {
    assert_eq!(TaskResult::from_cancellation(Some(Ok::<bool, String>(true))), TaskResult::Finished);
    assert_eq!(TaskResult::from_cancellation(Some(Ok::<bool, String>(false))), TaskResult::Stopped);
    assert_eq!(
        TaskResult::from_cancellation(Some(Err::<bool, String>("boom".to_string()))),
        TaskResult::Failed
    );
    assert_eq!(TaskResult::from_cancellation(None::<Result<bool, String>>), TaskResult::NotFound);
}

#[test]
fn only_finished_is_finished() {
    assert!(TaskResult::Finished.is_finished());
    assert!(!TaskResult::NotFound.is_finished());
    assert!(!TaskResult::Stopped.is_finished());
    assert!(!TaskResult::Failed.is_finished());
}

#[test]
fn default_progress_is_zero() {
    let p = TransferTaskProgress::default();
    assert_eq!((p.records_done, p.records_total), (0, 0));
}
