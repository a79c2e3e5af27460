//! The dispatcher: the send loop over the pending roster, with persistence
//! after every successful send and a single re-login retry when the session
//! was silently lost.
//!
//! The dispatcher is a state machine. The driver asks it for the next
//! recipient, performs the submit, classifies the response, and hands the
//! outcome back; the machine decides whether to persist and wait, to
//! re-login and retry exactly once, or to abort the run. Every transition is
//! also a spec function, and the laws of the loop — one retry per session
//! loss, and a restart resuming exactly where the store left off — are
//! proved over those spec functions.

use vstd::prelude::*;

use crate::codec::{json_of, lemma_round_trip, spec_parse};
use crate::errors::{DispatchError, DispatchOutcome};
use crate::queue::DispatchQueue;

verus! {

/// The message applied identically to every recipient.
pub struct MessageTemplate {
    /// The message's subject field.
    pub subject: String,
    /// The message's body.
    pub body: String,
}

/// The form fields of one message submission: the recipient, the subject and
/// the body, under the field names the write endpoint expects.
pub fn message_form(template: &MessageTemplate, recipient: &String) -> (r: Vec<(String, String)>)
    ensures
        r@.len() == 3,
        r@[0].0@ == "an"@ && r@[0].1@ == recipient@,
        r@[1].0@ == "be"@ && r@[1].1@ == template.subject@,
        r@[2].0@ == "message"@ && r@[2].1@ == template.body@,
{
    let mut form: Vec<(String, String)> = Vec::new();
    form.push((String::from_str("an"), recipient.clone()));
    form.push((String::from_str("be"), template.subject.clone()));
    form.push((String::from_str("message"), template.body.clone()));
    form
}

/// Where the dispatcher stands between two driver calls.
pub enum Phase {
    /// No submit is in flight; the next recipient can be taken.
    Ready,
    /// A submit for this recipient is in flight; `retried` says whether it
    /// is already the single post-re-login retry.
    Submitting { recipient: String, retried: bool },
    /// The session was lost on this recipient's submit; a re-login is owed.
    Reauth { recipient: String },
}

/// The spec value of a `Phase`.
pub enum PhaseView {
    Ready,
    Submitting { recipient: Seq<char>, retried: bool },
    Reauth { recipient: Seq<char> },
}

impl View for Phase {
    type V = PhaseView;

    open spec fn view(&self) -> PhaseView {
        match self {
            Phase::Ready => PhaseView::Ready,
            Phase::Submitting { recipient, retried } => PhaseView::Submitting {
                recipient: recipient@,
                retried: *retried,
            },
            Phase::Reauth { recipient } => PhaseView::Reauth { recipient: recipient@ },
        }
    }
}

/// The spec value of a `Dispatcher`: the pending roster and the phase.
pub struct DispatcherView {
    /// The pending recipients, in stored order; sends take the last first.
    pub queue: Seq<Seq<char>>,
    /// Where the machine stands.
    pub phase: PhaseView,
}

/// How the driver's submit went, as classified by the session-loss policy.
#[derive(Clone, Copy, PartialEq, Eq, Structural)]
pub enum SubmitEvent {
    /// The request resolved; `session_lost` is the session-loss
    /// classification of its final URL.
    Landed { session_lost: bool },
    /// The request failed at the transport level.
    TransportFailed,
}

/// What the machine tells the driver after a submit event.
#[derive(Debug, Clone, PartialEq, Eq)]
pub enum SubmitDisposition {
    /// The send concluded; persist the queue, then wait the delay.
    Accepted(DispatchOutcome),
    /// The session was lost for the first time on this recipient: re-login,
    /// then retry the same submit exactly once.
    ReloginNeeded,
}

// ---------------------------------------------------------------------------
// The transitions, as spec functions.
// ---------------------------------------------------------------------------

/// Taking the next recipient: the last of the queue, which moves into an
/// in-flight submit; an empty queue ends the run.
pub open spec fn spec_begin_next(d: DispatcherView) -> (DispatcherView, Option<Seq<char>>) {
    if d.queue.len() == 0 {
        (d, None)
    } else {
        (
            DispatcherView {
                queue: d.queue.drop_last(),
                phase: PhaseView::Submitting { recipient: d.queue.last(), retried: false },
            },
            Some(d.queue.last()),
        )
    }
}

/// The submit event decides the recipient's fate: a landing on the expected
/// page concludes the send; a first session loss demands one re-login; a
/// second consecutive session loss, or a transport failure, aborts the run
/// with the queue left as it stands.
pub open spec fn spec_on_submit(d: DispatcherView, ev: SubmitEvent) -> (
    DispatcherView,
    Result<SubmitDisposition, DispatchError>,
) {
    match d.phase {
        PhaseView::Submitting { recipient, retried } => match ev {
            SubmitEvent::TransportFailed => (d, Err(DispatchError::Transport)),
            SubmitEvent::Landed { session_lost } => if !session_lost {
                (
                    DispatcherView { queue: d.queue, phase: PhaseView::Ready },
                    Ok(
                        SubmitDisposition::Accepted(
                            if retried {
                                DispatchOutcome::SentAfterReauth
                            } else {
                                DispatchOutcome::Sent
                            },
                        ),
                    ),
                )
            } else if !retried {
                (
                    DispatcherView { queue: d.queue, phase: PhaseView::Reauth { recipient } },
                    Ok(SubmitDisposition::ReloginNeeded),
                )
            } else {
                (d, Err(DispatchError::SessionLostTwice))
            },
        },
        _ => (d, Err(DispatchError::Failed)),
    }
}

/// The re-login's fate: on success the same recipient is retried, marked as
/// the single retry; a failed re-login aborts the run.
pub open spec fn spec_on_relogin(d: DispatcherView, ok: bool) -> (
    DispatcherView,
    Result<Seq<char>, DispatchError>,
) {
    match d.phase {
        PhaseView::Reauth { recipient } => if ok {
            (
                DispatcherView {
                    queue: d.queue,
                    phase: PhaseView::Submitting { recipient, retried: true },
                },
                Ok(recipient),
            )
        } else {
            (d, Err(DispatchError::Failed))
        },
        _ => (d, Err(DispatchError::Failed)),
    }
}

// ---------------------------------------------------------------------------
// The laws of the loop.
// ---------------------------------------------------------------------------

/// One full successful send round, as the machine makes it: take the next
/// recipient, submit, land on the expected page.
pub open spec fn spec_send_round(d: DispatcherView) -> DispatcherView {
    spec_on_submit(spec_begin_next(d).0, SubmitEvent::Landed { session_lost: false }).0
}

/// The machine after `k` successful send rounds.
pub open spec fn spec_run(d: DispatcherView, k: int) -> DispatcherView
    decreases k,
{
    if k <= 0 {
        d
    } else {
        spec_run(spec_send_round(d), k - 1)
    }
}

/// The recipients that `k` successful send rounds submit, in send order.
pub open spec fn spec_run_sends(d: DispatcherView, k: int) -> Seq<Seq<char>>
    decreases k,
{
    if k <= 0 {
        Seq::empty()
    } else {
        seq![spec_begin_next(d).1.unwrap()] + spec_run_sends(spec_send_round(d), k - 1)
    }
}

/// Session-loss recovery: on a submit classified as session loss the machine
/// demands exactly one re-login and then one retried submit, which concludes
/// the recipient as sent-after-reauth or fails; a second consecutive session
/// loss ends the run as `SessionLostTwice`, with no third attempt and the
/// queue left as it stands.
pub proof fn lemma_session_loss_recovery(d: DispatcherView, recipient: Seq<char>)
    requires
        d.phase == (PhaseView::Submitting { recipient, retried: false }),
    ensures
        ({
            let lost = SubmitEvent::Landed { session_lost: true };
            let fine = SubmitEvent::Landed { session_lost: false };
            let (d1, r1) = spec_on_submit(d, lost);
            let (d2, r2) = spec_on_relogin(d1, true);
            &&& r1 == Ok::<SubmitDisposition, DispatchError>(SubmitDisposition::ReloginNeeded)
            &&& d1.phase == (PhaseView::Reauth { recipient })
            &&& d1.queue == d.queue
            &&& r2 == Ok::<Seq<char>, DispatchError>(recipient)
            &&& d2.phase == (PhaseView::Submitting { recipient, retried: true })
            &&& d2.queue == d.queue
            &&& spec_on_submit(d2, fine).1 == Ok::<SubmitDisposition, DispatchError>(
                SubmitDisposition::Accepted(DispatchOutcome::SentAfterReauth),
            )
            &&& spec_on_submit(d2, fine).0.phase == PhaseView::Ready
            &&& spec_on_submit(d2, lost) == (
                d2,
                Err::<SubmitDisposition, DispatchError>(DispatchError::SessionLostTwice),
            )
        }),
{
}

/// Draining a ready machine: `k` successful rounds leave exactly the first
/// `len - k` recipients pending, the machine ready again, and submit exactly
/// the last `k` stored recipients, in reverse stored order — each exactly
/// once.
pub proof fn lemma_dispatch_drains(d: DispatcherView, k: int)
    requires
        d.phase is Ready,
        0 <= k <= d.queue.len(),
    ensures
        spec_run(d, k).phase is Ready,
        spec_run(d, k).queue == d.queue.take(d.queue.len() - k),
        spec_run_sends(d, k) == d.queue.subrange(
            d.queue.len() - k,
            d.queue.len() as int,
        ).reverse(),
    decreases k,
{
    let n = d.queue.len() as int;
    if k == 0 {
        assert(d.queue.take(n) =~= d.queue);
        assert(d.queue.subrange(n, n).reverse() =~= Seq::<Seq<char>>::empty());
    } else {
        let d1 = spec_send_round(d);
        assert(d1.phase is Ready);
        assert(d1.queue == d.queue.drop_last());
        lemma_dispatch_drains(d1, k - 1);
        assert(d.queue.drop_last().take(n - k) =~= d.queue.take(n - k));
        let tail_sends = spec_run_sends(d1, k - 1);
        assert(tail_sends == d.queue.drop_last().subrange(n - k, n - 1).reverse());
        assert(spec_run_sends(d, k) == seq![d.queue.last()] + tail_sends);
        assert(seq![d.queue.last()] + d.queue.drop_last().subrange(n - k, n - 1).reverse()
            =~= d.queue.subrange(n - k, n).reverse());
    }
}

/// Resume idempotence: after exactly `k` of `N` pending sends succeed, what
/// the store holds decodes to exactly the `N - k` still-pending recipients,
/// and a restarted run over that reloaded roster submits each of them
/// exactly once, in reverse stored order.
pub proof fn lemma_resume_after_restart(roster: Seq<Seq<char>>, k: int)
    requires
        0 <= k <= roster.len(),
    ensures
        ({
            let n = roster.len() as int;
            let d = DispatcherView { queue: roster, phase: PhaseView::Ready };
            let remaining = roster.take(n - k);
            &&& spec_run(d, k).queue == remaining
            &&& remaining.len() == n - k
            &&& spec_parse(json_of(remaining)) == Some(remaining)
            &&& spec_run_sends(
                DispatcherView { queue: remaining, phase: PhaseView::Ready },
                n - k,
            ) == remaining.reverse()
        }),
{
    let n = roster.len() as int;
    let d = DispatcherView { queue: roster, phase: PhaseView::Ready };
    let remaining = roster.take(n - k);
    lemma_dispatch_drains(d, k);
    lemma_round_trip(remaining);
    let d2 = DispatcherView { queue: remaining, phase: PhaseView::Ready };
    lemma_dispatch_drains(d2, n - k);
    assert(remaining.subrange(0, n - k) =~= remaining);
}

// ---------------------------------------------------------------------------
// The executable machine.
// ---------------------------------------------------------------------------

/// Drives the send loop over a pending roster.
pub struct Dispatcher {
    /// The pending roster; the single source of truth for what remains.
    pub queue: DispatchQueue,
    /// Where the machine stands.
    pub phase: Phase,
    /// Seconds the driver owes between two sends.
    pub delay_secs: u64,
}

impl View for Dispatcher {
    type V = DispatcherView;

    open spec fn view(&self) -> DispatcherView {
        DispatcherView { queue: self.queue@, phase: self.phase@ }
    }
}

impl Dispatcher {
    /// A dispatcher over the given pending roster, ready to send.
    pub fn new(queue: DispatchQueue, delay_secs: u64) -> (d: Self)
        ensures
            d@.queue == queue@,
            d@.phase == PhaseView::Ready,
            d.delay_secs == delay_secs,
    {
        Dispatcher { queue, phase: Phase::Ready, delay_secs }
    }

    /// How many recipients are still pending.
    pub fn pending(&self) -> (n: usize)
        ensures
            n == self@.queue.len(),
    {
        self.queue.len()
    }

    /// Takes the next recipient off the queue and into an in-flight submit;
    /// `None` ends the run with the roster drained.
    pub fn begin_next(&mut self) -> (r: Option<String>)
        requires
            old(self)@.phase is Ready,
        ensures
            (final(self)@, r.deep_view()) == spec_begin_next(old(self)@),
            final(self).delay_secs == old(self).delay_secs,
    {
        match self.queue.pop_next() {
            None => None,
            Some(recipient) => {
                let retry_copy = recipient.clone();
                self.phase = Phase::Submitting { recipient, retried: false };
                Some(retry_copy)
            },
        }
    }

    /// Hands the machine the classified result of the in-flight submit.
    pub fn on_submit(&mut self, ev: SubmitEvent) -> (r: Result<SubmitDisposition, DispatchError>)
        requires
            old(self)@.phase is Submitting,
        ensures
            (final(self)@, r) == spec_on_submit(old(self)@, ev),
            final(self).delay_secs == old(self).delay_secs,
    {
        match ev {
            SubmitEvent::TransportFailed => Err(DispatchError::Transport),
            SubmitEvent::Landed { session_lost } => {
                if !session_lost {
                    let retried = match &self.phase {
                        Phase::Submitting { retried, .. } => *retried,
                        _ => false,
                    };
                    self.phase = Phase::Ready;
                    Ok(
                        SubmitDisposition::Accepted(
                            if retried {
                                DispatchOutcome::SentAfterReauth
                            } else {
                                DispatchOutcome::Sent
                            },
                        ),
                    )
                } else {
                    let (recipient, retried) = match &self.phase {
                        Phase::Submitting { recipient, retried } => (recipient.clone(), *retried),
                        _ => (String::new(), false),
                    };
                    if !retried {
                        self.phase = Phase::Reauth { recipient };
                        Ok(SubmitDisposition::ReloginNeeded)
                    } else {
                        self.phase = Phase::Submitting { recipient, retried };
                        Err(DispatchError::SessionLostTwice)
                    }
                }
            },
        }
    }

    /// Hands the machine the re-login's fate; on success the returned
    /// recipient is to be submitted once more.
    pub fn on_relogin(&mut self, ok: bool) -> (r: Result<String, DispatchError>)
        requires
            old(self)@.phase is Reauth,
        ensures
            final(self)@ == spec_on_relogin(old(self)@, ok).0,
            match r {
                Ok(recipient) => spec_on_relogin(old(self)@, ok).1 == Ok::<
                    Seq<char>,
                    DispatchError,
                >(recipient@),
                Err(e) => spec_on_relogin(old(self)@, ok).1 == Err::<Seq<char>, DispatchError>(e),
            },
            final(self).delay_secs == old(self).delay_secs,
    {
        if !ok {
            return Err(DispatchError::Failed);
        }
        let recipient = match &self.phase {
            Phase::Reauth { recipient } => recipient.clone(),
            _ => String::new(),
        };
        let retry_copy = recipient.clone();
        self.phase = Phase::Submitting { recipient, retried: true };
        Ok(retry_copy)
    }

    /// The text to persist after a concluded send: the canonical encoding of
    /// what still remains.
    pub fn persist_text(&self) -> (r: String)
        ensures
            r@ == json_of(self@.queue),
    {
        self.queue.save()
    }
}

} // verus!
