//! A connected client: its identity, its outbound queue and its liveness.

use vstd::prelude::*;
use std::sync::Arc;
use crossbeam::channel::{Sender, TrySendError};
use crate::frame::Frame;

verus! {

#[verifier::external_type_specification]
#[verifier::external_body]
#[verifier::reject_recursive_types(T)]
pub struct ExSender<T>(Sender<T>);

/// How a non-blocking enqueue ended.
#[derive(Clone, Copy, Debug, PartialEq, Eq, Structural)]
pub enum SendOutcome {
    /// The frame is in the queue.
    Sent,
    /// The queue is at capacity.
    Full,
    /// The receiving side is gone.
    Disconnected,
}

/// Relies on `crossbeam::channel::Sender::try_send`, which never blocks and
/// either enqueues the frame or fails because the queue is full or because the
/// receiver is gone. Which of these happens depends on the other threads, so
/// nothing is promised of it.
#[verifier::external_body]
pub(crate) fn try_send_frame(sender: &Sender<Arc<Frame>>, frame: Arc<Frame>) -> (r: SendOutcome) {
    match sender.try_send(frame) {
        Ok(()) => SendOutcome::Sent,
        Err(TrySendError::Full(_)) => SendOutcome::Full,
        Err(TrySendError::Disconnected(_)) => SendOutcome::Disconnected,
    }
}

/// Relies on `Arc::clone`, which returns another handle to the same value.
#[verifier::external_body]
pub(crate) fn share_frame(frame: &Arc<Frame>) -> (r: Arc<Frame>)
    ensures
        r == *frame,
{
    Arc::clone(frame)
}

pub struct ClientEntry {
    pub client_id: u128,
    pub writer_sender: Sender<Arc<Frame>>,
    /// Time of the last frame received from the client, in milliseconds.
    pub last_activity_ms: u64,
}

/// Milliseconds from the client's last activity to `now_ms`, and 0 where the
/// clock reads earlier than that activity.
pub open spec fn idle_ms(c: ClientEntry, now_ms: u64) -> int {
    if now_ms >= c.last_activity_ms {
        now_ms - c.last_activity_ms
    } else {
        0
    }
}

/// The client has been silent for longer than `timeout_ms`.
pub open spec fn timed_out(c: ClientEntry, timeout_ms: u64, now_ms: u64) -> bool {
    idle_ms(c, now_ms) > timeout_ms
}

impl ClientEntry {
    /// A client that was last active at `now_ms`.
    pub fn new(client_id: u128, writer_sender: Sender<Arc<Frame>>, now_ms: u64) -> (r: ClientEntry)
        ensures
            r.client_id == client_id,
            r.writer_sender == writer_sender,
            r.last_activity_ms == now_ms,
    {
        ClientEntry { client_id, writer_sender, last_activity_ms: now_ms }
    }

    /// Records activity at `now_ms`.
    pub fn touch(&mut self, now_ms: u64)
        ensures
            *final(self) == (ClientEntry { last_activity_ms: now_ms, ..*old(self) }),
    {
        self.last_activity_ms = now_ms;
    }

    pub fn ms_since_last_activity(&self, now_ms: u64) -> (r: u64)
        ensures
            r == idle_ms(*self, now_ms),
    {
        now_ms.saturating_sub(self.last_activity_ms)
    }

    pub fn is_timed_out(&self, timeout_ms: u64, now_ms: u64) -> (r: bool)
        ensures
            r == timed_out(*self, timeout_ms, now_ms),
    {
        self.ms_since_last_activity(now_ms) > timeout_ms
    }
}

} // verus!
