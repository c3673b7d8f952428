use suspend_bridge::bridge::{Bridge, CallStatus, InvokeOutcome};
use tokio::sync::oneshot::error::TryRecvError;

#[test]
fn fresh_bridge_has_no_calls() {
    let b = Bridge::new();
    assert_eq!(b.status(0), CallStatus::Idle);
    assert_eq!(b.status(1), CallStatus::Idle);
    assert!(!b.is_armed(1));
}

#[test]
fn open_issues_distinct_nonzero_handles() {
    let mut b = Bridge::new();
    let (h1, _r1) = b.open().unwrap();
    let (h2, _r2) = b.open().unwrap();
    assert_eq!(h1, 1);
    assert_eq!(h2, 2);
    assert_eq!(b.status(h1), CallStatus::AwaitingWork);
    assert!(b.is_armed(h1));
    assert!(b.is_armed(h2));
}

#[test]
fn suspend_returns_before_work_completes() {
    let mut b = Bridge::new();
    let (h, mut rx) = b.open().unwrap();
    assert_eq!(b.status(h), CallStatus::AwaitingWork);
    assert_eq!(rx.try_recv(), Err(TryRecvError::Empty));
}

#[test]
fn uncancelled_call_is_resumed_once() {
    let mut b = Bridge::new();
    let (h, mut rx) = b.open().unwrap();
    assert!(b.finish(h));
    assert_eq!(b.status(h), CallStatus::Queued);
    assert!(b.resume(h));
    assert_eq!(b.status(h), CallStatus::Resumed);
    assert!(!b.resume(h));
    assert!(!b.finish(h));
    assert_eq!(rx.try_recv(), Err(TryRecvError::Empty));
}

#[test]
fn cancellation_before_completion_is_observed_and_still_resumes() {
    let mut b = Bridge::new();
    let (h, mut rx) = b.open().unwrap();
    assert_eq!(b.invoke(h), InvokeOutcome::Signalled);
    assert_eq!(rx.try_recv(), Ok(()));
    assert_eq!(b.status(h), CallStatus::Cancelling);
    assert!(!b.is_armed(h));
    assert!(b.finish(h));
    assert!(b.resume(h));
    assert!(!b.resume(h));
}

#[test]
fn cancellation_after_completion_is_a_no_op() {
    let mut b = Bridge::new();
    let (h, rx) = b.open().unwrap();
    drop(rx);
    assert!(b.finish(h));
    assert_eq!(b.invoke(h), InvokeOutcome::ReceiverGone);
    assert_eq!(b.status(h), CallStatus::Queued);
    assert!(b.resume(h));
    assert_eq!(b.invoke(h), InvokeOutcome::NotArmed);
    assert_eq!(b.status(h), CallStatus::Resumed);
}

#[test]
fn invoke_then_release_frees_once() {
    let mut b = Bridge::new();
    let (h, _rx) = b.open().unwrap();
    assert_eq!(b.invoke(h), InvokeOutcome::Signalled);
    assert!(!b.release(h));
    assert_eq!(b.invoke(h), InvokeOutcome::NotArmed);
}

#[test]
fn release_then_invoke_frees_once() {
    let mut b = Bridge::new();
    let (h, mut rx) = b.open().unwrap();
    assert!(b.release(h));
    assert_eq!(rx.try_recv(), Err(TryRecvError::Closed));
    assert_eq!(b.invoke(h), InvokeOutcome::NotArmed);
    assert!(!b.release(h));
    assert_eq!(b.status(h), CallStatus::AwaitingWork);
}

#[test]
fn null_handle_is_never_armed() {
    let mut b = Bridge::new();
    let _call = b.open().unwrap();
    assert_eq!(b.invoke(0), InvokeOutcome::NotArmed);
    assert!(!b.release(0));
    assert!(!b.finish(0));
    assert!(!b.resume(0));
}

#[test]
fn claim_hands_out_the_sender_once() {
    let mut b = Bridge::new();
    let (h, mut rx) = b.open().unwrap();
    let s = b.claim(h);
    assert!(s.is_some());
    assert!(b.claim(h).is_none());
    s.unwrap().send(()).unwrap();
    assert_eq!(rx.try_recv(), Ok(()));
}

#[test]
fn note_signal_records_delivery() {
    let mut b = Bridge::new();
    let (h, _rx) = b.open().unwrap();
    assert_eq!(b.note_signal(h, false), InvokeOutcome::ReceiverGone);
    assert_eq!(b.status(h), CallStatus::AwaitingWork);
    assert_eq!(b.note_signal(h, true), InvokeOutcome::Signalled);
    assert_eq!(b.status(h), CallStatus::Cancelling);
}

#[test]
fn finish_before_open_does_nothing() {
    let mut b = Bridge::new();
    assert!(!b.finish(1));
    assert!(!b.resume(1));
    assert_eq!(b.status(1), CallStatus::Idle);
}

#[test]
fn hundred_concurrent_calls_resume_exactly_once_each() {
    let mut b = Bridge::new();
    let mut calls = Vec::new();
    for _ in 0..100 {
        calls.push(b.open().unwrap());
    }
    let mut handles: Vec<u64> = calls.iter().map(|(h, _)| *h).collect();
    handles.sort();
    handles.dedup();
    assert_eq!(handles.len(), 100);
    for (h, _) in calls.iter().rev() {
        assert!(b.finish(*h));
    }
    let mut resumed = 0;
    for (h, _) in calls.iter() {
        if b.resume(*h) {
            resumed += 1;
        }
        assert!(!b.resume(*h));
    }
    assert_eq!(resumed, 100);
}

#[test]
fn failed_resume_leaves_other_calls_queued() {
    let mut b = Bridge::new();
    let (h1, _r1) = b.open().unwrap();
    let (h2, _r2) = b.open().unwrap();
    assert!(b.finish(h1));
    assert!(b.finish(h2));
    assert!(b.resume(h1));
    assert_eq!(b.status(h2), CallStatus::Queued);
    assert!(b.resume(h2));
}
