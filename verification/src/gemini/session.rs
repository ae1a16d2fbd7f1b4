//! Session-side helpers: error and configuration types, and the lossy frame
//! queues that keep latency from piling up when a channel is full.

use crate::audio::frame::{PcmFrame, PcmFrameView};
use crate::gemini::codec::{decode_audio, message_frames};
use crate::gemini::protocol::ServerMessage;
use crate::text::concat_str;
use tokio::sync::mpsc::error::TrySendError;
use tokio::sync::mpsc::Sender;
use vstd::prelude::*;

verus! {

/// Frames waiting for the downstream channel beyond this many are dropped, oldest first.
pub const DOWNSTREAM_PENDING_KEEP: usize = 1;

#[derive(Debug)]
pub enum SessionError {
    Connect(String),
    Send(String),
}

impl SessionError {
    /// Human-readable description of the error.
    pub fn message(&self) -> (r: String)
        ensures
            r@ == match self {
                SessionError::Connect(d) => "连接失败: "@ + d@,
                SessionError::Send(d) => "发送失败: "@ + d@,
            },
    {
        match self {
            SessionError::Connect(d) => concat_str("连接失败: ", d.as_str()),
            SessionError::Send(d) => concat_str("发送失败: ", d.as_str()),
        }
    }
}

/// Parameters of one session.
pub struct SessionConfig {
    pub url: String,
    pub model: String,
    pub out_rate: u32,
    /// Target language, BCP-47 (the listener's language).
    pub target_lang: String,
    /// Whether input already in the target language is echoed (true) or muted (false).
    pub echo_target_language: bool,
}

/// The latest `keep` frames of a queue (the whole queue if it is shorter).
pub open spec fn keep_latest<T>(queue: Seq<T>, keep: nat) -> Seq<T> {
    if queue.len() > keep {
        queue.subrange(queue.len() - keep, queue.len() as int)
    } else {
        queue
    }
}

/// When the queue holds more than `keep` frames, drops the oldest and keeps the latest `keep`.
pub fn drop_stale_frames(queue: &mut Vec<PcmFrame>, keep: usize)
    ensures
        final(queue)@ == keep_latest(old(queue)@, keep as nat),
{
    if queue.len() > keep {
        let drop_n = queue.len() - keep;
        let kept = queue.split_off(drop_n);
        *queue = kept;
    }
}

/// Declares `tokio::sync::mpsc::Sender`.
#[verifier::external_type_specification]
#[verifier::external_body]
#[verifier::reject_recursive_types(T)]
pub struct ExSender<T>(Sender<T>);

/// Outcome of a non-blocking send.
pub enum SendOutcome {
    Sent,
    /// The channel is full; the frame comes back.
    Full(PcmFrame),
    /// The receiver is gone; the frame comes back.
    Closed(PcmFrame),
}

/// Calls `Sender::try_send`. Whether the channel has room or is closed depends
/// on the receiving task, so the outcome is not stated; a frame that was not
/// sent comes back unchanged.
#[verifier::external_body]
fn channel_try_send(tx: &Sender<PcmFrame>, frame: PcmFrame) -> (r: SendOutcome)
    ensures
        r matches SendOutcome::Full(f) ==> f == frame,
        r matches SendOutcome::Closed(f) ==> f == frame,
{
    match tx.try_send(frame) {
        Ok(()) => SendOutcome::Sent,
        Err(TrySendError::Full(f)) => SendOutcome::Full(f),
        Err(TrySendError::Closed(f)) => SendOutcome::Closed(f),
    }
}

/// The views of a queue of frames.
pub open spec fn frame_views(q: Seq<PcmFrame>) -> Seq<PcmFrameView> {
    q.map_values(|f: PcmFrame| f@)
}

/// The sending half of a session's frame channel, with a record of every
/// frame the channel accepted from it.
pub struct FrameSender {
    tx: Sender<PcmFrame>,
    sent: Ghost<Seq<PcmFrameView>>,
}

impl FrameSender {
    /// The frames the channel accepted through this sender, oldest first.
    pub closed spec fn sent(&self) -> Seq<PcmFrameView> {
        self.sent@
    }

    pub fn new(tx: Sender<PcmFrame>) -> (r: Self)
        ensures
            r.sent() == Seq::<PcmFrameView>::empty(),
    {
        FrameSender { tx, sent: Ghost(Seq::empty()) }
    }

    /// Offers a frame to the channel without waiting. An accepted frame is
    /// recorded as sent; a refused one comes back unchanged.
    pub fn try_send(&mut self, frame: PcmFrame) -> (r: SendOutcome)
        ensures
            r is Sent ==> final(self).sent() == old(self).sent().push(frame@),
            !(r is Sent) ==> final(self).sent() == old(self).sent(),
            r matches SendOutcome::Full(f) ==> f == frame,
            r matches SendOutcome::Closed(f) ==> f == frame,
    {
        let ghost v = frame@;
        let r = channel_try_send(&self.tx, frame);
        if let SendOutcome::Sent = r {
            self.sent = Ghost(self.sent@.push(v));
        }
        r
    }
}

/// A successful flush of a queue that held `old`, with `sent` recorded before
/// and `sent2` after: the first `k` queued frames went out in order; either
/// that was all of them and the queue is empty, or the channel filled up and
/// the queue keeps the latest `keep` of the frames not sent.
pub open spec fn flush_ok_leaves(
    old: Seq<PcmFrame>,
    new: Seq<PcmFrame>,
    sent: Seq<PcmFrameView>,
    sent2: Seq<PcmFrameView>,
    keep: nat,
) -> bool {
    exists|k: int|
        0 <= k <= old.len() && sent2 == sent + frame_views(#[trigger] old.subrange(0, k)) && if k
            == old.len() {
            new.len() == 0
        } else {
            new == keep_latest(old.subrange(k, old.len() as int), keep)
        }
}

/// A flush that found the channel closed: the frames before the failed one
/// went out in order, the failed one is dropped, the rest stay queued.
pub open spec fn flush_err_leaves(
    old: Seq<PcmFrame>,
    new: Seq<PcmFrame>,
    sent: Seq<PcmFrameView>,
    sent2: Seq<PcmFrameView>,
) -> bool {
    exists|k: int|
        1 <= k <= old.len() && sent2 == sent + frame_views(old.subrange(0, k - 1)) && new
            == #[trigger] old.subrange(k, old.len() as int)
}

/// Sends queued frames in order without waiting. When the channel is full the
/// unsent frame goes back to the front and only the latest `keep` frames are
/// kept; when the channel is closed the flush fails.
pub fn flush_pending(tx: &mut FrameSender, pending: &mut Vec<PcmFrame>, keep: usize) -> (r: Result<(), ()>)
    ensures
        r is Ok ==> flush_ok_leaves(old(pending)@, final(pending)@, old(tx).sent(), final(tx).sent(), keep as nat),
        r is Err ==> flush_err_leaves(old(pending)@, final(pending)@, old(tx).sent(), final(tx).sent()),
{
    let ghost start = pending@;
    let ghost sent0 = tx.sent();
    let ghost mut k: int = 0;
    assert(frame_views(start.subrange(0, 0)) =~= Seq::<PcmFrameView>::empty());
    assert(start.subrange(0, start.len() as int) =~= start);
    while !pending.is_empty()
        invariant
            start == old(pending)@,
            sent0 == old(tx).sent(),
            0 <= k <= start.len(),
            pending@ == start.subrange(k, start.len() as int),
            tx.sent() == sent0 + frame_views(start.subrange(0, k)),
        decreases pending@.len(),
    {
        let frame = pending.remove(0);
        assert(frame == start[k]);
        match tx.try_send(frame) {
            SendOutcome::Sent => {
                assert(frame_views(start.subrange(0, k + 1)) =~= frame_views(start.subrange(0, k)).push(
                    start[k]@,
                ));
                proof {
                    k = k + 1;
                }
                assert(pending@ =~= start.subrange(k, start.len() as int));
            },
            SendOutcome::Full(f) => {
                pending.insert(0, f);
                assert(pending@ =~= start.subrange(k, start.len() as int));
                drop_stale_frames(pending, keep);
                assert(k < start.len());
                return Ok(());
            },
            SendOutcome::Closed(_) => {
                assert(pending@ =~= start.subrange(k + 1, start.len() as int));
                let ghost k1 = k + 1;
                assert(start.subrange(0, k1 - 1) =~= start.subrange(0, k));
                assert(pending@ == start.subrange(k1, start.len() as int));
                return Err(());
            },
        }
    }
    assert(k == start.len());
    Ok(())
}

/// Queues a frame for the output channel, keeping only the newest pending
/// frame, and flushes without waiting: afterwards either this frame went out
/// and nothing is pending, or the channel was full and only this frame is
/// pending. A closed channel fails with nothing pending and nothing sent.
pub fn try_send_lossy_output(audio_out: &mut FrameSender, pending: &mut Vec<PcmFrame>, frame: PcmFrame) -> (r: Result<(), ()>)
    ensures
        r is Ok ==> (final(pending)@.len() == 0 && final(audio_out).sent() == old(audio_out).sent().push(frame@))
            || (final(pending)@ == seq![frame] && final(audio_out).sent() == old(audio_out).sent()),
        r is Err ==> final(pending)@.len() == 0 && final(audio_out).sent() == old(audio_out).sent(),
{
    pending.push(frame);
    drop_stale_frames(pending, DOWNSTREAM_PENDING_KEEP);
    assert(pending@ =~= seq![frame]);
    let r = flush_lossy_output(audio_out, pending);
    proof {
        lemma_flush_single(frame, pending@, old(audio_out).sent(), audio_out.sent(), r is Ok);
    }
    r
}

/// A flush of a queue holding the single frame `frame` (keeping at most one)
/// either sent it and left nothing, or left it queued and sent nothing; a
/// failed one left nothing and sent nothing.
pub proof fn lemma_flush_single(
    frame: PcmFrame,
    new: Seq<PcmFrame>,
    sent: Seq<PcmFrameView>,
    sent2: Seq<PcmFrameView>,
    ok: bool,
)
    requires
        ok ==> flush_ok_leaves(seq![frame], new, sent, sent2, 1),
        !ok ==> flush_err_leaves(seq![frame], new, sent, sent2),
    ensures
        ok ==> (new.len() == 0 && sent2 == sent.push(frame@)) || (new == seq![frame] && sent2 == sent),
        !ok ==> new.len() == 0 && sent2 == sent,
{
    let one = seq![frame];
    if ok {
        let k = choose|k: int|
            0 <= k <= one.len() && sent2 == sent + frame_views(#[trigger] one.subrange(0, k)) && if k
                == one.len() {
                new.len() == 0
            } else {
                new == keep_latest(one.subrange(k, one.len() as int), 1)
            };
        if k == 0 {
            assert(one.subrange(0, 0) =~= Seq::<PcmFrame>::empty());
            assert(frame_views(one.subrange(0, 0)) =~= Seq::<PcmFrameView>::empty());
            assert(one.subrange(0, 1) =~= one);
        } else {
            assert(one.subrange(0, 1) =~= one);
            assert(frame_views(one) =~= seq![frame@]);
        }
    } else {
        let k = choose|k: int|
            1 <= k <= one.len() && sent2 == sent + frame_views(one.subrange(0, k - 1)) && new
                == #[trigger] one.subrange(k, one.len() as int);
        assert(frame_views(one.subrange(0, 0)) =~= Seq::<PcmFrameView>::empty());
        assert(new =~= Seq::<PcmFrame>::empty());
    }
}

/// Flushes the pending output frames without waiting, keeping only the newest
/// when the channel is full.
pub fn flush_lossy_output(audio_out: &mut FrameSender, pending: &mut Vec<PcmFrame>) -> (r: Result<(), ()>)
    ensures
        r is Ok ==> flush_ok_leaves(
            old(pending)@,
            final(pending)@,
            old(audio_out).sent(),
            final(audio_out).sent(),
            DOWNSTREAM_PENDING_KEEP as nat,
        ),
        r is Err ==> flush_err_leaves(old(pending)@, final(pending)@, old(audio_out).sent(), final(audio_out).sent()),
{
    flush_pending(audio_out, pending, DOWNSTREAM_PENDING_KEEP)
}

/// Longest wait between two connection attempts.
pub const MAX_BACKOFF_MS: u64 = 8_000;

/// Exponential backoff: the wait doubles after each failed attempt, up to
/// `MAX_BACKOFF_MS`.
pub fn next_backoff_ms(delay_ms: u64) -> (r: u64)
    requires
        delay_ms <= u64::MAX / 2,
    ensures
        r == if 2 * delay_ms <= MAX_BACKOFF_MS { 2 * delay_ms } else { MAX_BACKOFF_MS as int },
{
    let doubled = delay_ms * 2;
    if doubled <= MAX_BACKOFF_MS {
        doubled
    } else {
        MAX_BACKOFF_MS
    }
}

/// The frames, in order, whose sends the channel accepted, given the outcome
/// of each of the first `accepted.len()` frames.
pub open spec fn accepted_frames(frames: Seq<PcmFrameView>, accepted: Seq<bool>) -> Seq<PcmFrameView>
    decreases accepted.len(),
{
    if accepted.len() == 0 {
        Seq::empty()
    } else {
        accepted_frames(frames, accepted.drop_last()) + if accepted.last() {
            seq![frames[accepted.len() - 1]]
        } else {
            Seq::empty()
        }
    }
}

/// Forwards the audio frames of a server message, in order, to the output
/// channel without waiting; on a full channel only the newest pending frame
/// is kept. Fails, and stops, when the channel is closed.
pub fn forward_decoded(
    audio_out: &mut FrameSender,
    pending: &mut Vec<PcmFrame>,
    msg: &ServerMessage,
    out_rate: u32,
) -> (r: Result<(), ()>)
    ensures
        message_frames(*msg, out_rate).len() == 0 ==> r is Ok && final(pending)@ == old(pending)@
            && final(audio_out).sent() == old(audio_out).sent(),
        r is Ok ==> exists|acc: Seq<bool>|
            acc.len() == message_frames(*msg, out_rate).len()
                && final(audio_out).sent() == old(audio_out).sent()
                + #[trigger] accepted_frames(message_frames(*msg, out_rate), acc)
                && (acc.len() > 0 ==> (acc.last() ==> final(pending)@.len() == 0)
                && (!acc.last() ==> final(pending)@.len() == 1
                && final(pending)@[0]@ == message_frames(*msg, out_rate).last())),
        r is Err ==> final(pending)@.len() == 0 && exists|acc: Seq<bool>|
            acc.len() < message_frames(*msg, out_rate).len()
                && final(audio_out).sent() == old(audio_out).sent()
                + #[trigger] accepted_frames(message_frames(*msg, out_rate), acc),
{
    let frames = decode_audio(msg, out_rate);
    let ghost views = frames@.map_values(|f: PcmFrame| f@);
    let ghost sent0 = audio_out.sent();
    let ghost mut acc: Seq<bool> = Seq::empty();
    let n = frames.len();
    assert(sent0 + accepted_frames(views, acc) =~= sent0);
    for i in 0..n
        invariant
            n == frames@.len(),
            views == frames@.map_values(|f: PcmFrame| f@),
            views == message_frames(*msg, out_rate),
            sent0 == old(audio_out).sent(),
            acc.len() == i,
            audio_out.sent() == sent0 + accepted_frames(views, acc),
            i == 0 ==> pending@ == old(pending)@,
            i > 0 ==> (acc.last() ==> pending@.len() == 0) && (!acc.last() ==> pending@.len() == 1
                && pending@[0]@ == views[i - 1]),
    {
        let frame = frames[i].clone();
        assert(frame@ == views[i as int]);
        let sent = try_send_lossy_output(audio_out, pending, frame);
        if sent.is_err() {
            assert(audio_out.sent() == sent0 + accepted_frames(views, acc));
            return Err(());
        }
        let ghost b = pending@.len() == 0;
        let ghost before = acc;
        proof {
            acc = acc.push(b);
        }
        proof {
            assert(acc.drop_last() =~= before);
            if b {
                assert(accepted_frames(views, acc) =~= accepted_frames(views, before).push(views[i as int]));
            } else {
                assert(accepted_frames(views, acc) =~= accepted_frames(views, before));
            }
        }
    }
    Ok(())
}

/// Dropping stale frames never lengthens a queue, keeps the newest frames in
/// order, and leaves a queue within the limit untouched.
pub proof fn law_drop_stale_keeps_newest<T>(queue: Seq<T>, keep: nat)
    ensures
        keep_latest(queue, keep).len() <= keep || keep_latest(queue, keep) == queue,
        keep_latest(queue, keep).len() == if queue.len() > keep { keep } else { queue.len() },
        forall|i: int|
            0 <= i < keep_latest(queue, keep).len() ==> #[trigger] keep_latest(queue, keep)[i]
                == queue[queue.len() - keep_latest(queue, keep).len() + i],
        queue.len() <= keep ==> keep_latest(queue, keep) == queue,
{
}

} // verus!
