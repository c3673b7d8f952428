//! The suspend/resume/cancel protocol: a table of cancellation senders keyed
//! by opaque non-zero handles, and the status of each suspended call.

use std::collections::HashMap;
use vstd::prelude::*;

verus! {

broadcast use vstd::std_specs::hash::group_hash_axioms;

#[verifier::external_type_specification]
#[verifier::external_body]
#[verifier::reject_recursive_types(T)]
pub struct ExOneshotSender<T>(tokio::sync::oneshot::Sender<T>);

#[verifier::external_type_specification]
#[verifier::external_body]
#[verifier::reject_recursive_types(T)]
pub struct ExOneshotReceiver<T>(tokio::sync::oneshot::Receiver<T>);

#[verifier::external_type_specification]
#[verifier::external_body]
pub struct ExOneshotRecvError(tokio::sync::oneshot::error::RecvError);

/// Relies on tokio's `oneshot::channel`: a fresh pair of ends of one
/// single-use channel.
pub assume_specification<T>[ tokio::sync::oneshot::channel::<T> ]() -> (
    tokio::sync::oneshot::Sender<T>,
    tokio::sync::oneshot::Receiver<T>,
);

/// Relies on tokio's `oneshot::Sender::send`: when the receiver is gone the
/// value is handed back unchanged.
pub assume_specification<T>[ tokio::sync::oneshot::Sender::<T>::send ](
    s: tokio::sync::oneshot::Sender<T>,
    t: T,
) -> (r: Result<(), T>)
    ensures
        r matches Err(back) ==> back == t,
;

/// Where a suspended call stands.
#[derive(Clone, Copy, Debug, PartialEq, Eq, Structural)]
pub enum CallStatus {
    /// No call holds this handle yet.
    Idle,
    /// The call's work runs and has not been asked to stop.
    AwaitingWork,
    /// Cancellation reached the call's work before it finished.
    Cancelling,
    /// The work is over and the call waits for its resumption.
    Queued,
    /// The call was resumed; nothing more happens to it.
    Resumed,
}

/// What a cancellation request on a handle came to.
#[derive(Clone, Copy, Debug, PartialEq, Eq, Structural)]
pub enum InvokeOutcome {
    /// The handle was not armed: it was claimed before, or never issued.
    NotArmed,
    /// The cancellation signal reached the call's work.
    Signalled,
    /// The sender was claimed, but the work had already dropped its end.
    ReceiverGone,
}

/// The state of a [`Bridge`] as mathematics.
pub struct BridgeView {
    /// The handle the next call receives; handles below it were issued.
    pub next: nat,
    /// Handles whose cancellation sender is still stored.
    pub armed: Set<u64>,
    /// The status of each call that is not yet resumed.
    pub calls: Map<u64, CallStatus>,
}

/// One operation on the bridge, with the outcome of the signal for a
/// cancellation that claimed its sender.
pub enum Event {
    /// A suspend call starts.
    Open,
    /// The callback of a handle is invoked; the flag says whether the signal
    /// reached the call's work.
    Invoke(u64, bool),
    /// The callback of a handle is finalized.
    Release(u64),
    /// The work of a call is over.
    Finish(u64),
    /// The worker takes up a call.
    Resume(u64),
}

/// The call was started and not yet resumed.
pub open spec fn in_flight(s: CallStatus) -> bool {
    s == CallStatus::AwaitingWork || s == CallStatus::Cancelling || s == CallStatus::Queued
}

impl BridgeView {
    pub open spec fn issued(self, h: u64) -> bool {
        1 <= h && h < self.next
    }

    pub open spec fn wf(self) -> bool {
        &&& self.next >= 1
        &&& self.next <= u64::MAX
        &&& forall|h: u64| #[trigger] self.armed.contains(h) ==> self.issued(h)
        &&& forall|h: u64| #[trigger] self.calls.contains_key(h) ==> self.issued(h) && in_flight(
            self.calls[h],
        )
    }

    pub open spec fn status(self, h: u64) -> CallStatus {
        if !self.issued(h) {
            CallStatus::Idle
        } else if self.calls.contains_key(h) {
            self.calls[h]
        } else {
            CallStatus::Resumed
        }
    }

    /// The work of the call is still running.
    pub open spec fn working(self, h: u64) -> bool {
        self.status(h) == CallStatus::AwaitingWork || self.status(h) == CallStatus::Cancelling
    }

    pub open spec fn opened(self) -> BridgeView {
        BridgeView {
            next: self.next + 1,
            armed: self.armed.insert(self.next as u64),
            calls: self.calls.insert(self.next as u64, CallStatus::AwaitingWork),
        }
    }

    pub open spec fn claimed(self, h: u64) -> BridgeView {
        BridgeView { armed: self.armed.remove(h), ..self }
    }

    pub open spec fn cancelled(self, h: u64) -> BridgeView {
        if self.status(h) == CallStatus::AwaitingWork {
            BridgeView { calls: self.calls.insert(h, CallStatus::Cancelling), ..self }
        } else {
            self
        }
    }

    pub open spec fn finished(self, h: u64) -> BridgeView {
        if self.working(h) {
            BridgeView { calls: self.calls.insert(h, CallStatus::Queued), ..self }
        } else {
            self
        }
    }

    pub open spec fn resumed(self, h: u64) -> BridgeView {
        if self.status(h) == CallStatus::Queued {
            BridgeView { calls: self.calls.remove(h), ..self }
        } else {
            self
        }
    }
}

/// The state after an event, and whether the event took effect: a handle was
/// issued, a sender claimed, a call queued or a call resumed.
pub open spec fn apply(v: BridgeView, e: Event) -> (BridgeView, bool) {
    match e {
        Event::Open => if v.next < u64::MAX {
            (v.opened(), true)
        } else {
            (v, false)
        },
        Event::Invoke(h, delivered) => if v.armed.contains(h) {
            (if delivered {
                v.claimed(h).cancelled(h)
            } else {
                v.claimed(h)
            }, true)
        } else {
            (v, false)
        },
        Event::Release(h) => (v.claimed(h), v.armed.contains(h)),
        Event::Finish(h) => (v.finished(h), v.working(h)),
        Event::Resume(h) => (v.resumed(h), v.status(h) == CallStatus::Queued),
    }
}

/// Whether an event tries to claim the cancellation sender of `h`.
pub open spec fn claims_sender(e: Event, h: u64) -> bool {
    match e {
        Event::Invoke(k, _) => k == h,
        Event::Release(k) => k == h,
        _ => false,
    }
}

/// The state after a sequence of events.
pub open spec fn run(v: BridgeView, evs: Seq<Event>) -> BridgeView
    decreases evs.len(),
{
    if evs.len() == 0 {
        v
    } else {
        run(apply(v, evs[0]).0, evs.drop_first())
    }
}

/// What an event can do to one call.
pub enum Effect {
    /// Its cancellation sender is freed.
    Free,
    /// It is queued for resumption.
    Enqueue,
    /// It is resumed.
    Resume,
}

/// Whether an event, if it takes effect, does `f` to the call behind `h`.
pub open spec fn does(e: Event, h: u64, f: Effect) -> bool {
    match f {
        Effect::Free => claims_sender(e, h),
        Effect::Enqueue => e == Event::Finish(h),
        Effect::Resume => e == Event::Resume(h),
    }
}

/// How many events of a sequence take effect and do `f` to the call behind `h`.
pub open spec fn count(v: BridgeView, evs: Seq<Event>, h: u64, f: Effect) -> nat
    decreases evs.len(),
{
    if evs.len() == 0 {
        0
    } else {
        let (w, took) = apply(v, evs[0]);
        (if took && does(evs[0], h, f) {
            1nat
        } else {
            0nat
        }) + count(w, evs.drop_first(), h, f)
    }
}

/// How many times the sender of `h` is freed, by `invoke` or by `release`.
pub open spec fn frees(v: BridgeView, evs: Seq<Event>, h: u64) -> nat {
    count(v, evs, h, Effect::Free)
}

/// How many times the call behind `h` is queued for resumption.
pub open spec fn enqueues(v: BridgeView, evs: Seq<Event>, h: u64) -> nat {
    count(v, evs, h, Effect::Enqueue)
}

/// How many times the call behind `h` is resumed.
pub open spec fn resumptions(v: BridgeView, evs: Seq<Event>, h: u64) -> nat {
    count(v, evs, h, Effect::Resume)
}

/// What one event does to the handle `k`, whatever the event.
proof fn lemma_apply_facts(v: BridgeView, e: Event, k: u64)
    requires
        v.wf(),
    ensures
        ({
            let w = apply(v, e).0;
            &&& w.wf()
            &&& w.next >= v.next
            &&& v.issued(k) ==> w.issued(k)
            &&& v.issued(k) && !v.armed.contains(k) ==> !w.armed.contains(k)
            &&& v.armed.contains(k) && !claims_sender(e, k) ==> w.armed.contains(k)
            &&& v.status(k) == CallStatus::Resumed ==> w.status(k) == CallStatus::Resumed
            &&& v.status(k) == CallStatus::Queued && e != Event::Resume(k) ==> w.status(k)
                == CallStatus::Queued
            &&& in_flight(v.status(k)) && e != Event::Resume(k) ==> in_flight(w.status(k))
            &&& v.working(k) && e != Event::Finish(k) ==> w.working(k)
            &&& v.status(k) == CallStatus::Queued ==> w.status(k) == CallStatus::Queued
                || w.status(k) == CallStatus::Resumed
        }),
{
    let w = apply(v, e).0;
    assert forall|j: u64| #[trigger] w.armed.contains(j) implies w.issued(j) by {
        if v.armed.contains(j) {
        }
    }
    assert forall|j: u64| #[trigger] w.calls.contains_key(j) implies w.issued(j) && in_flight(
        w.calls[j],
    ) by {
        if v.calls.contains_key(j) {
        }
    }
}

/// The facts of `lemma_apply_facts`, carried along a whole sequence.
proof fn lemma_run_facts(v: BridgeView, evs: Seq<Event>, k: u64)
    requires
        v.wf(),
    ensures
        ({
            let w = run(v, evs);
            &&& w.wf()
            &&& v.issued(k) && !v.armed.contains(k) ==> !w.armed.contains(k)
            &&& v.status(k) == CallStatus::Resumed ==> w.status(k) == CallStatus::Resumed
            &&& v.status(k) == CallStatus::Queued && !evs.contains(Event::Resume(k))
                ==> w.status(k) == CallStatus::Queued
            &&& in_flight(v.status(k)) && !evs.contains(Event::Resume(k)) ==> in_flight(
                w.status(k),
            )
        }),
    decreases evs.len(),
{
    if evs.len() > 0 {
        lemma_apply_facts(v, evs[0], k);
        let rest = evs.drop_first();
        if !evs.contains(Event::Resume(k)) {
            assert(evs[0] != Event::Resume(k));
            assert forall|i: int| 0 <= i < rest.len() implies rest[i] != Event::Resume(k) by {
                assert(evs[i + 1] == rest[i]);
            }
        }
        lemma_run_facts(apply(v, evs[0]).0, rest, k);
    }
}

/// The call behind `h` can still undergo `f`.
pub open spec fn pending(v: BridgeView, h: u64, f: Effect) -> bool {
    match f {
        Effect::Free => v.armed.contains(h),
        Effect::Enqueue => v.working(h),
        Effect::Resume => v.status(h) == CallStatus::Queued,
    }
}

/// The call behind `h` was issued and has undergone `f` for good.
pub open spec fn spent(v: BridgeView, h: u64, f: Effect) -> bool {
    &&& v.issued(h)
    &&& match f {
        Effect::Free => !v.armed.contains(h),
        Effect::Enqueue => v.status(h) == CallStatus::Queued || v.status(h) == CallStatus::Resumed,
        Effect::Resume => v.status(h) == CallStatus::Resumed,
    }
}

/// What one event does to whether `f` is still to come or already done.
proof fn lemma_step(v: BridgeView, e: Event, h: u64, f: Effect)
    requires
        v.wf(),
    ensures
        ({
            let (w, took) = apply(v, e);
            &&& took && does(e, h, f) ==> pending(v, h, f) && spent(w, h, f)
            &&& spent(v, h, f) ==> spent(w, h, f)
            &&& pending(v, h, f) && !does(e, h, f) ==> pending(w, h, f)
            &&& pending(v, h, f) && does(e, h, f) ==> took
        }),
{
    lemma_apply_facts(v, e, h);
}

/// Nothing more of `f` happens to a call that has undergone it.
proof fn lemma_none_once_spent(v: BridgeView, evs: Seq<Event>, h: u64, f: Effect)
    requires
        v.wf(),
        spent(v, h, f),
    ensures
        count(v, evs, h, f) == 0,
    decreases evs.len(),
{
    if evs.len() > 0 {
        lemma_step(v, evs[0], h, f);
        lemma_apply_facts(v, evs[0], h);
        lemma_none_once_spent(apply(v, evs[0]).0, evs.drop_first(), h, f);
    }
}

/// No call undergoes `f` twice.
proof fn lemma_at_most_once(v: BridgeView, evs: Seq<Event>, h: u64, f: Effect)
    requires
        v.wf(),
    ensures
        count(v, evs, h, f) <= 1,
    decreases evs.len(),
{
    if evs.len() > 0 {
        let (w, took) = apply(v, evs[0]);
        lemma_step(v, evs[0], h, f);
        lemma_apply_facts(v, evs[0], h);
        if took && does(evs[0], h, f) {
            lemma_none_once_spent(w, evs.drop_first(), h, f);
        } else {
            lemma_at_most_once(w, evs.drop_first(), h, f);
        }
    }
}

/// A call for which `f` is still to come undergoes it exactly when an event
/// asks for it.
proof fn lemma_exactly_once(v: BridgeView, evs: Seq<Event>, h: u64, f: Effect)
    requires
        v.wf(),
        pending(v, h, f),
    ensures
        count(v, evs, h, f) == 1 <==> exists|i: int| 0 <= i < evs.len() && #[trigger] does(evs[i], h, f),
        count(v, evs, h, f) <= 1,
    decreases evs.len(),
{
    lemma_at_most_once(v, evs, h, f);
    if evs.len() > 0 {
        let (w, took) = apply(v, evs[0]);
        let rest = evs.drop_first();
        lemma_step(v, evs[0], h, f);
        lemma_apply_facts(v, evs[0], h);
        if does(evs[0], h, f) {
            lemma_none_once_spent(w, rest, h, f);
        } else {
            lemma_exactly_once(w, rest, h, f);
            if exists|i: int| 0 <= i < evs.len() && #[trigger] does(evs[i], h, f) {
                let i = choose|i: int| 0 <= i < evs.len() && #[trigger] does(evs[i], h, f);
                assert(rest[i - 1] == evs[i]);
            }
            if exists|i: int| 0 <= i < rest.len() && #[trigger] does(rest[i], h, f) {
                let i = choose|i: int| 0 <= i < rest.len() && #[trigger] does(rest[i], h, f);
                assert(evs[i + 1] == rest[i]);
            }
        }
    }
}

/// Freeing the boxed cancellation sender of a handle is idempotent and
/// exclusive between `invoke` and `release`: whatever the events, the
/// sender of `h` is freed at most once, and a sender that is armed now is
/// freed exactly once if and only if some later event claims it.
pub proof fn lemma_sender_freed_once(v: BridgeView, evs: Seq<Event>, h: u64)
    requires
        v.wf(),
    ensures
        frees(v, evs, h) <= 1,
        v.armed.contains(h) ==> (frees(v, evs, h) == 1 <==> exists|i: int|
            0 <= i < evs.len() && #[trigger] claims_sender(evs[i], h)),
{
    lemma_at_most_once(v, evs, h, Effect::Free);
    if v.armed.contains(h) {
        lemma_exactly_once(v, evs, h, Effect::Free);
        assert(forall|i: int| #[trigger] claims_sender(evs[i], h) == does(evs[i], h, Effect::Free));
    }
}

/// Every call is queued and resumed at most once; a call whose work still
/// runs is queued exactly when its work reports that it finished, and a
/// queued call is resumed exactly when the worker takes it up. A call in
/// flight stays in flight until it is resumed: no event drops it.
pub proof fn lemma_resumed_once(v: BridgeView, evs: Seq<Event>, h: u64)
    requires
        v.wf(),
    ensures
        enqueues(v, evs, h) <= 1,
        resumptions(v, evs, h) <= 1,
        v.working(h) ==> (enqueues(v, evs, h) == 1 <==> evs.contains(Event::Finish(h))),
        v.status(h) == CallStatus::Queued ==> (resumptions(v, evs, h) == 1 <==> evs.contains(
            Event::Resume(h),
        )),
        in_flight(v.status(h)) && !evs.contains(Event::Resume(h)) ==> in_flight(
            run(v, evs).status(h),
        ),
{
    lemma_at_most_once(v, evs, h, Effect::Enqueue);
    lemma_at_most_once(v, evs, h, Effect::Resume);
    lemma_run_facts(v, evs, h);
    if v.working(h) {
        lemma_exactly_once(v, evs, h, Effect::Enqueue);
        if evs.contains(Event::Finish(h)) {
            let i = choose|i: int| 0 <= i < evs.len() && evs[i] == Event::Finish(h);
            assert(does(evs[i], h, Effect::Enqueue));
        }
    }
    if v.status(h) == CallStatus::Queued {
        lemma_exactly_once(v, evs, h, Effect::Resume);
        if evs.contains(Event::Resume(h)) {
            let i = choose|i: int| 0 <= i < evs.len() && evs[i] == Event::Resume(h);
            assert(does(evs[i], h, Effect::Resume));
        }
    }
}

/// Cancellation is advisory: it moves a call whose work still runs to
/// cancelling when the signal reaches the work, and changes nothing
/// otherwise; it never ends a call. A cancelled call is still queued when
/// its work finishes, and then resumed like any other.
pub proof fn lemma_cancellation_keeps_call(v: BridgeView, h: u64, delivered: bool)
    requires
        v.wf(),
    ensures
        ({
            let w = apply(v, Event::Invoke(h, delivered)).0;
            &&& w.wf()
            &&& w.status(h) == (if delivered && v.armed.contains(h) && v.status(h)
                == CallStatus::AwaitingWork {
                CallStatus::Cancelling
            } else {
                v.status(h)
            })
            &&& w.status(h) == CallStatus::Cancelling ==> apply(w, Event::Finish(h)).1 && apply(
                w,
                Event::Finish(h),
            ).0.status(h) == CallStatus::Queued
        }),
{
    lemma_apply_facts(v, Event::Invoke(h, delivered), h);
}

/// The handle an event names; opening a call names none yet.
pub open spec fn subject(e: Event) -> Option<u64> {
    match e {
        Event::Open => None,
        Event::Invoke(h, _) => Some(h),
        Event::Release(h) => Some(h),
        Event::Finish(h) => Some(h),
        Event::Resume(h) => Some(h),
    }
}

/// Calls are independent: an event on one handle, failed resumptions
/// included, leaves the sender and the status of every other issued call as
/// they were, so the worker goes on with the other queued calls.
pub proof fn lemma_other_calls_untouched(v: BridgeView, e: Event, k: u64)
    requires
        v.wf(),
        v.issued(k),
        subject(e) != Some(k),
    ensures
        apply(v, e).0.status(k) == v.status(k),
        apply(v, e).0.armed.contains(k) == v.armed.contains(k),
{
}

/// Holds the cancellation senders of suspended calls under opaque handles,
/// and the status of every call that has not been resumed yet.
pub struct Bridge {
    next: u64,
    senders: HashMap<u64, tokio::sync::oneshot::Sender<()>>,
    calls: HashMap<u64, CallStatus>,
}

impl View for Bridge {
    type V = BridgeView;

    closed spec fn view(&self) -> BridgeView {
        BridgeView { next: self.next as nat, armed: self.senders@.dom(), calls: self.calls@ }
    }
}

impl Bridge {
    /// A bridge on which no call was made.
    pub fn new() -> (r: Bridge)
        ensures
            r@.wf(),
            r@.next == 1,
            r@.armed.is_empty(),
            r@.calls.is_empty(),
    {
        let r = Bridge { next: 1, senders: HashMap::new(), calls: HashMap::new() };
        proof {
            assert(r@.armed =~= Set::empty());
        }
        r
    }

    /// Starts a call: issues a fresh handle, arms it with the sending end of
    /// a new cancellation channel and hands back the receiving end for the
    /// call's work. `None` once every handle has been issued.
    pub fn open(&mut self) -> (r: Option<(u64, tokio::sync::oneshot::Receiver<()>)>)
        requires
            old(self)@.wf(),
        ensures
            final(self)@.wf(),
            r is Some <==> old(self)@.next < u64::MAX,
            (final(self)@, r is Some) == apply(old(self)@, Event::Open),
            r matches Some((h, _)) ==> h == old(self)@.next && h != 0 && old(self)@.status(h)
                == CallStatus::Idle && final(self)@.status(h) == CallStatus::AwaitingWork
                && final(self)@.armed.contains(h),
    {
        if self.next == u64::MAX {
            return None;
        }
        let h = self.next;
        let (s, rx) = tokio::sync::oneshot::channel::<()>();
        self.senders.insert(h, s);
        self.calls.insert(h, CallStatus::AwaitingWork);
        self.next = h + 1;
        proof {
            assert(self@.armed =~= old(self)@.opened().armed);
        }
        Some((h, rx))
    }

    /// Takes the cancellation sender of a handle out of the table. Only the
    /// first claim of an armed handle gets it.
    pub fn claim(&mut self, h: u64) -> (r: Option<tokio::sync::oneshot::Sender<()>>)
        requires
            old(self)@.wf(),
        ensures
            final(self)@.wf(),
            final(self)@ == old(self)@.claimed(h),
            r is Some <==> old(self)@.armed.contains(h),
            r is None ==> final(self)@ == old(self)@,
    {
        let r = self.senders.remove(&h);
        proof {
            assert(self@.armed =~= old(self)@.armed.remove(h));
            assert forall|k: u64| #[trigger] self@.armed.contains(k) implies self@.issued(k) by {
                assert(old(self)@.armed.contains(k));
            }
            assert(self@.calls == old(self)@.calls);
            if r is None {
                assert(self@.armed =~= old(self)@.armed);
            }
        }
        r
    }

    /// Records the outcome of a signal sent through a claimed sender: a
    /// delivered signal moves a running call to cancelling.
    pub fn note_signal(&mut self, h: u64, delivered: bool) -> (r: InvokeOutcome)
        requires
            old(self)@.wf(),
        ensures
            final(self)@.wf(),
            final(self)@ == (if delivered {
                old(self)@.cancelled(h)
            } else {
                old(self)@
            }),
            r == (if delivered {
                InvokeOutcome::Signalled
            } else {
                InvokeOutcome::ReceiverGone
            }),
    {
        if !delivered {
            return InvokeOutcome::ReceiverGone;
        }
        let running = match self.calls.get(&h) {
            Some(s) => *s == CallStatus::AwaitingWork,
            None => false,
        };
        if running {
            self.calls.insert(h, CallStatus::Cancelling);
        }
        InvokeOutcome::Signalled
    }

    /// The managed side asks the call behind `h` to stop: the first claim of
    /// the handle sends the cancellation signal; any later one does nothing.
    pub fn invoke(&mut self, h: u64) -> (r: InvokeOutcome)
        requires
            old(self)@.wf(),
        ensures
            final(self)@.wf(),
            r == InvokeOutcome::NotArmed <==> !old(self)@.armed.contains(h),
            (final(self)@, r != InvokeOutcome::NotArmed) == apply(
                old(self)@,
                Event::Invoke(h, r == InvokeOutcome::Signalled),
            ),
    {
        match self.claim(h) {
            None => InvokeOutcome::NotArmed,
            Some(s) => {
                let delivered = match s.send(()) {
                    Ok(()) => true,
                    Err(_) => false,
                };
                self.note_signal(h, delivered)
            },
        }
    }

    /// The managed side dropped the callback object of `h`: its sender, if
    /// still armed, is freed without a signal. Returns whether it was freed.
    pub fn release(&mut self, h: u64) -> (r: bool)
        requires
            old(self)@.wf(),
        ensures
            final(self)@.wf(),
            (final(self)@, r) == apply(old(self)@, Event::Release(h)),
    {
        let s = self.claim(h);
        s.is_some()
    }

    /// The work of the call behind `h` is over, completed or cancelled.
    /// Returns whether the call must now be queued for resumption; that is
    /// the case exactly once for each call.
    pub fn finish(&mut self, h: u64) -> (r: bool)
        requires
            old(self)@.wf(),
        ensures
            final(self)@.wf(),
            (final(self)@, r) == apply(old(self)@, Event::Finish(h)),
    {
        let working = match self.calls.get(&h) {
            Some(s) => *s == CallStatus::AwaitingWork || *s == CallStatus::Cancelling,
            None => false,
        };
        if working {
            self.calls.insert(h, CallStatus::Queued);
        }
        working
    }

    /// The resumption worker is about to resume the call behind `h`. Returns
    /// whether it must: only a queued call is resumed, and only once.
    pub fn resume(&mut self, h: u64) -> (r: bool)
        requires
            old(self)@.wf(),
        ensures
            final(self)@.wf(),
            (final(self)@, r) == apply(old(self)@, Event::Resume(h)),
    {
        let queued = match self.calls.get(&h) {
            Some(s) => *s == CallStatus::Queued,
            None => false,
        };
        if queued {
            self.calls.remove(&h);
        }
        queued
    }

    /// Where the call behind `h` stands.
    pub fn status(&self, h: u64) -> (r: CallStatus)
        requires
            self@.wf(),
        ensures
            r == self@.status(h),
    {
        if h == 0 || h >= self.next {
            return CallStatus::Idle;
        }
        match self.calls.get(&h) {
            Some(s) => *s,
            None => CallStatus::Resumed,
        }
    }

    /// Whether the cancellation sender of `h` is still stored.
    pub fn is_armed(&self, h: u64) -> (r: bool)
        ensures
            r == self@.armed.contains(h),
    {
        self.senders.contains_key(&h)
    }
}

} // verus!
