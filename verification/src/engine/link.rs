//! Decisions of one link: reconnect budget, bounded playback backlog, energy
//! windows for loop detection, and the latest-frame upstream queue.

use crate::audio::frame::PcmFrame;
use crate::audio::ring::{producer_capacity, pushed_samples, AudioProducer};
use crate::diagnostics::meter::FrameEnergy;
use crate::engine::control::SessionState;
use crate::gemini::session::{
    drop_stale_frames, flush_err_leaves, flush_ok_leaves, flush_pending, keep_latest, lemma_flush_single, FrameSender,
};
use crate::text::{concat_str, decimal, u32_to_decimal};
use vstd::prelude::*;
use vstd::string::StringExecFns;

verus! {

/// Upstream frames waiting for a full session channel: only the newest is kept.
pub const UPSTREAM_PENDING_KEEP: usize = 1;

/// Reconnect attempts allowed after a connection drops.
pub struct ReconnectBudget {
    max_attempts: u32,
    next_attempt: u32,
}

/// Mathematical state of a reconnect budget.
pub struct BudgetView {
    pub max_attempts: u32,
    /// 0 before the first connection and while connected; otherwise the
    /// number of the reconnect attempt in progress.
    pub next_attempt: u32,
}

impl View for ReconnectBudget {
    type V = BudgetView;

    closed spec fn view(&self) -> BudgetView {
        BudgetView { max_attempts: self.max_attempts, next_attempt: self.next_attempt }
    }
}

/// What to do after a failed connection attempt.
#[derive(Debug)]
pub enum ReconnectDecision {
    Retry(SessionState),
    GiveUp(SessionState),
}

/// Message reported when the reconnect budget is exhausted.
pub open spec fn give_up_message(attempts: u32, error: Seq<char>) -> Seq<char> {
    "重连失败，已尝试 "@ + decimal(attempts as nat) + " 次: "@ + error
}

/// Decision and next budget state after a failed connection attempt.
pub open spec fn connect_failed_spec(b: BudgetView, error: String) -> (BudgetView, ReconnectDecision) {
    if b.next_attempt == 0 {
        (b, ReconnectDecision::GiveUp(SessionState::Error(error)))
    } else if b.next_attempt >= b.max_attempts {
        (b, ReconnectDecision::GiveUp(SessionState::Error(error)))
    } else {
        let next = (b.next_attempt + 1) as u32;
        (
            BudgetView { next_attempt: next, ..b },
            ReconnectDecision::Retry(SessionState::Reconnecting { attempt: next }),
        )
    }
}

impl ReconnectBudget {
    pub fn new(max_attempts: u32) -> (r: Self)
        ensures
            r@ == (BudgetView { max_attempts, next_attempt: 0 }),
    {
        Self { max_attempts, next_attempt: 0 }
    }

    /// A session is up: the budget is fully restored.
    pub fn connected(&mut self)
        ensures
            final(self)@ == (BudgetView { next_attempt: 0, ..old(self)@ }),
    {
        self.next_attempt = 0;
    }

    /// A session dropped: the first reconnect attempt starts.
    pub fn disconnected(&mut self) -> (r: SessionState)
        ensures
            final(self)@ == (BudgetView { next_attempt: 1, ..old(self)@ }),
            r == (SessionState::Reconnecting { attempt: 1 }),
    {
        self.next_attempt = 1;
        SessionState::Reconnecting { attempt: 1 }
    }

    /// A connection attempt failed with `error`. Failing before any session was
    /// ever up gives up at once; a reconnect is retried with the next attempt
    /// number until `max_attempts` is reached.
    pub fn connect_failed(&mut self, error: String) -> (r: ReconnectDecision)
        ensures
            final(self)@ == connect_failed_spec(old(self)@, error).0,
            old(self)@.next_attempt == 0 ==> r == connect_failed_spec(old(self)@, error).1,
            0 < old(self)@.next_attempt < old(self)@.max_attempts ==> r == connect_failed_spec(
                old(self)@,
                error,
            ).1,
            old(self)@.next_attempt != 0 && old(self)@.next_attempt >= old(self)@.max_attempts ==> (
            r matches ReconnectDecision::GiveUp(SessionState::Error(msg)) && msg@ == give_up_message(
                old(self)@.next_attempt,
                error@,
            )),
    {
        if self.next_attempt == 0 {
            return ReconnectDecision::GiveUp(SessionState::Error(error));
        }
        if self.next_attempt >= self.max_attempts {
            let count = u32_to_decimal(self.next_attempt);
            let mut msg = concat_str("重连失败，已尝试 ", count.as_str());
            msg.append(" 次: ");
            msg.append(error.as_str());
            return ReconnectDecision::GiveUp(SessionState::Error(msg));
        }
        self.next_attempt += 1;
        ReconnectDecision::Retry(SessionState::Reconnecting { attempt: self.next_attempt })
    }
}

/// Reconnect budget law: failing before any session was up gives up at once;
/// after a drop, retries carry strictly increasing attempt numbers and stop
/// (give up) once `max_attempts` is reached, so at most `max_attempts - 1`
/// retries follow one disconnection.
pub proof fn law_reconnect_budget(b: BudgetView, error: String)
    ensures
        b.next_attempt == 0 ==> connect_failed_spec(b, error).1 is GiveUp,
        connect_failed_spec(b, error).1 matches ReconnectDecision::Retry(SessionState::Reconnecting { attempt })
            ==> attempt == b.next_attempt + 1 && attempt <= b.max_attempts && connect_failed_spec(
            b,
            error,
        ).0.next_attempt == attempt,
        connect_failed_spec(b, error).1 is Retry ==> connect_failed_spec(
            b,
            error,
        ).1->Retry_0 is Reconnecting,
        b.next_attempt >= b.max_attempts ==> connect_failed_spec(b, error).1 is GiveUp,
{
}

/// Number of consecutive retries that follow a disconnection when every
/// attempt fails: attempts 2, 3, ... up to `max_attempts`.
pub open spec fn retries_after_drop(max_attempts: u32) -> nat {
    if max_attempts >= 1 {
        (max_attempts - 1) as nat
    } else {
        0
    }
}

/// Budget state after `n` consecutive failed attempts following a drop.
pub open spec fn after_failures(b: BudgetView, n: nat, error: String) -> BudgetView
    decreases n,
{
    if n == 0 {
        b
    } else {
        connect_failed_spec(after_failures(b, (n - 1) as nat, error), error).0
    }
}

/// After a drop (attempt 1 running), every one of the first
/// `max_attempts - 1` failures is retried, and the failure after that gives up.
pub proof fn law_retries_are_bounded(max_attempts: u32, error: String, n: nat)
    requires
        n <= retries_after_drop(max_attempts),
    ensures
        after_failures(BudgetView { max_attempts, next_attempt: 1 }, n, error).next_attempt == n + 1,
        after_failures(BudgetView { max_attempts, next_attempt: 1 }, n, error).max_attempts
            == max_attempts,
        n < retries_after_drop(max_attempts) ==> connect_failed_spec(
            after_failures(BudgetView { max_attempts, next_attempt: 1 }, n, error),
            error,
        ).1 is Retry,
        n == retries_after_drop(max_attempts) ==> connect_failed_spec(
            after_failures(BudgetView { max_attempts, next_attempt: 1 }, n, error),
            error,
        ).1 is GiveUp,
    decreases n,
{
    if n > 0 {
        law_retries_are_bounded(max_attempts, error, (n - 1) as nat);
    }
}

/// Backlog after appending `samples` to `pending` and trimming to `max` samples:
/// the newest `max` samples (nothing at all when `max` is 0).
pub open spec fn bounded_backlog(pending: Seq<i16>, samples: Seq<i16>, max: nat) -> Seq<i16> {
    let all = pending + samples;
    if all.len() <= max {
        all
    } else {
        all.subrange(all.len() - max, all.len() as int)
    }
}

/// Appends playback samples and drops the oldest beyond `max_samples`, bounding
/// the extra latency; returns how many were dropped.
pub fn append_bounded_downstream(pending: &mut Vec<i16>, samples: &[i16], max_samples: usize) -> (r: usize)
    ensures
        final(pending)@ == bounded_backlog(old(pending)@, samples@, max_samples as nat),
        r == old(pending)@.len() + samples@.len() - final(pending)@.len(),
{
    let ghost all = old(pending)@ + samples@;
    pending.extend_from_slice(samples);
    assert(pending@ =~= all);
    if max_samples == 0 {
        let dropped = pending.len();
        pending.clear();
        assert(all.subrange(all.len() - 0, all.len() as int) =~= Seq::<i16>::empty());
        return dropped;
    }
    if pending.len() <= max_samples {
        return 0;
    }
    let dropped = pending.len() - max_samples;
    let kept = pending.split_off(dropped);
    *pending = kept;
    dropped
}

/// Moves as much pending playback as the ring buffer accepts; returns how many
/// samples left the backlog: always its oldest ones, and exactly those were
/// written to the buffer, in order.
pub fn flush_downstream(output: &mut AudioProducer, pending: &mut Vec<i16>) -> (r: usize)
    ensures
        r <= old(pending)@.len(),
        final(pending)@ == old(pending)@.subrange(r as int, old(pending)@.len() as int),
        producer_capacity(*final(output)) == producer_capacity(*old(output)),
        pushed_samples(*final(output)) == pushed_samples(*old(output)) + old(pending)@.subrange(0, r as int),
{
    if pending.is_empty() {
        assert(pending@.subrange(0, 0) =~= pending@);
        assert(pushed_samples(*output) + pending@.subrange(0, 0) =~= pushed_samples(*output));
        return 0;
    }
    let written = output.push_slice(pending.as_slice());
    if written > 0 {
        let kept = pending.split_off(written);
        *pending = kept;
    } else {
        assert(pending@.subrange(0, pending@.len() as int) =~= pending@);
    }
    written
}

/// Samples in `ms` milliseconds at `rate`, at least one.
pub fn samples_for_ms(rate: u32, ms: usize) -> (r: usize)
    requires
        rate * ms <= usize::MAX,
    ensures
        r == if rate * ms / 1000 >= 1 {
            rate * ms / 1000
        } else {
            1
        },
{
    let n = (rate as usize) * ms / 1_000;
    if n >= 1 {
        n
    } else {
        1
    }
}

/// Sliding window of frame energies: the newest `max_len` entries.
pub open spec fn energy_window(window: Seq<FrameEnergy>, energy: FrameEnergy, max_len: nat) -> Seq<
    FrameEnergy,
> {
    if max_len == 0 {
        window
    } else {
        keep_latest(window.push(energy), max_len)
    }
}

/// Appends an energy to the window and drops the oldest entries beyond `max_len`
/// (a zero-length window never changes).
pub fn push_energy_window(window: &mut Vec<FrameEnergy>, energy: FrameEnergy, max_len: usize)
    ensures
        final(window)@ == energy_window(old(window)@, energy, max_len as nat),
{
    if max_len == 0 {
        return;
    }
    window.push(energy);
    if window.len() > max_len {
        let excess = window.len() - max_len;
        let kept = window.split_off(excess);
        *window = kept;
    }
}

/// Sends pending upstream frames without waiting; on a full channel only the
/// newest pending frame is kept. Fails when the session channel is closed.
pub fn try_flush_upstream(audio_tx: &mut FrameSender, pending: &mut Vec<PcmFrame>) -> (r: Result<(), ()>)
    ensures
        r is Ok ==> flush_ok_leaves(
            old(pending)@,
            final(pending)@,
            old(audio_tx).sent(),
            final(audio_tx).sent(),
            UPSTREAM_PENDING_KEEP as nat,
        ),
        r is Err ==> flush_err_leaves(old(pending)@, final(pending)@, old(audio_tx).sent(), final(audio_tx).sent()),
{
    flush_pending(audio_tx, pending, UPSTREAM_PENDING_KEEP)
}

/// Queues a captured frame for the session, keeping only the newest when the
/// session lags, then flushes without waiting: afterwards either this frame
/// went out and nothing is pending, or the session was full and only this
/// frame is pending, so latency cannot pile up. A closed session fails with
/// nothing pending and nothing sent.
pub fn enqueue_latest_upstream(audio_tx: &mut FrameSender, pending: &mut Vec<PcmFrame>, frame: PcmFrame) -> (r: Result<(), ()>)
    ensures
        r is Ok ==> (final(pending)@.len() == 0 && final(audio_tx).sent() == old(audio_tx).sent().push(frame@))
            || (final(pending)@ == seq![frame] && final(audio_tx).sent() == old(audio_tx).sent()),
        r is Err ==> final(pending)@.len() == 0 && final(audio_tx).sent() == old(audio_tx).sent(),
{
    pending.push(frame);
    drop_stale_frames(pending, UPSTREAM_PENDING_KEEP);
    assert(pending@ =~= seq![frame]);
    let r = try_flush_upstream(audio_tx, pending);
    proof {
        lemma_flush_single(frame, pending@, old(audio_tx).sent(), audio_tx.sent(), r is Ok);
    }
    r
}

/// The playback backlog never exceeds its bound, and what it keeps is always
/// the newest samples, in order.
pub proof fn law_backlog_bounded_and_newest(pending: Seq<i16>, samples: Seq<i16>, max: nat)
    ensures
        bounded_backlog(pending, samples, max).len() <= max || bounded_backlog(pending, samples, max)
            == pending + samples,
        bounded_backlog(pending, samples, max).len() == if (pending + samples).len() <= max {
            (pending + samples).len()
        } else {
            max
        },
        forall|i: int|
            0 <= i < bounded_backlog(pending, samples, max).len() ==> #[trigger] bounded_backlog(
                pending,
                samples,
                max,
            )[i] == (pending + samples)[(pending + samples).len() - bounded_backlog(
                pending,
                samples,
                max,
            ).len() + i],
{
}

} // verus!
