use std::sync::{Arc, Mutex};
use std::time::Duration;

use suspend_bridge::bridge::{Bridge, CallStatus, InvokeOutcome};

/// Runs a unit of work that waits `work` for its own completion, racing it
/// against cancellation; reports whether the cancellation branch won.
async fn unit_of_work(cancel: tokio::sync::oneshot::Receiver<()>, work: Duration) -> bool {
    matches!(tokio::time::timeout(work, cancel).await, Ok(_))
}

fn runtime() -> tokio::runtime::Runtime {
    tokio::runtime::Builder::new_multi_thread().enable_time().build().unwrap()
}

#[test]
fn cancelled_work_takes_cancellation_branch_and_is_resumed() {
    let rt = runtime();
    let bridge = Arc::new(Mutex::new(Bridge::new()));
    let (h, rx) = bridge.lock().unwrap().open().unwrap();
    let work = rt.spawn(unit_of_work(rx, Duration::from_millis(2000)));
    let b = bridge.clone();
    let done = rt.spawn(async move {
        let cancelled = work.await.unwrap();
        (cancelled, b.lock().unwrap().finish(h))
    });
    rt.block_on(async { tokio::time::sleep(Duration::from_millis(100)).await });
    assert_eq!(bridge.lock().unwrap().invoke(h), InvokeOutcome::Signalled);
    let (cancelled, queued) = rt.block_on(done).unwrap();
    assert!(cancelled);
    assert!(queued);
    let mut b = bridge.lock().unwrap();
    assert!(b.resume(h));
    assert!(!b.resume(h));
    assert_eq!(b.status(h), CallStatus::Resumed);
}

#[test]
fn uncancelled_work_completes_and_is_resumed() {
    let rt = runtime();
    let bridge = Arc::new(Mutex::new(Bridge::new()));
    let (h, rx) = bridge.lock().unwrap().open().unwrap();
    let work = rt.spawn(unit_of_work(rx, Duration::from_millis(50)));
    let b = bridge.clone();
    let done = rt.spawn(async move {
        let cancelled = work.await.unwrap();
        (cancelled, b.lock().unwrap().finish(h))
    });
    let (cancelled, queued) = rt.block_on(done).unwrap();
    assert!(!cancelled);
    assert!(queued);
    let mut b = bridge.lock().unwrap();
    assert_eq!(b.invoke(h), InvokeOutcome::ReceiverGone);
    assert!(b.resume(h));
}
