//! A breakpoint that tasks can wait on: each notification is broadcast to the
//! waiters that subscribed before it.
use vstd::prelude::*;
use tokio::sync::broadcast::{Receiver, Sender};

verus! {

#[verifier::external_type_specification]
#[verifier::external_body]
#[verifier::reject_recursive_types(T)]
pub struct ExSender<T>(Sender<T>);

#[verifier::external_type_specification]
#[verifier::external_body]
#[verifier::reject_recursive_types(T)]
pub struct ExReceiver<T>(Receiver<T>);

/// Room for one message: the payload carries nothing, so a waiter that lags behind
/// has still seen that the breakpoint was reached.
pub const CHANNEL_CAPACITY: usize = 1;

/// What one look at a waiter's channel found.
#[derive(Clone, Copy, Debug, PartialEq, Eq, Structural)]
pub enum RecvOutcome {
    /// A notification.
    Message,
    /// Nothing yet.
    Empty,
    /// The breakpoint is gone; nothing more will come.
    Closed,
    /// Notifications came faster than the waiter read them; this many were lost.
    Lagged(u64),
}

/// Whether an outcome completes a wait: anything but an empty channel does, since
/// a waiter cares only that something happened.
pub fn reached(outcome: RecvOutcome) -> (r: bool)
    ensures
        r == !(outcome is Empty),
{
    match outcome {
        RecvOutcome::Empty => false,
        _ => true,
    }
}

/// Relies on `tokio::sync::broadcast::channel`, which panics only on a capacity of
/// zero or above `usize::MAX / 2`; the sender is kept and the first receiver dropped.
#[verifier::external_body]
fn open_channel(capacity: usize) -> (r: Sender<()>)
    requires
        0 < capacity <= usize::MAX / 2,
{
    tokio::sync::broadcast::channel(capacity).0
}

/// Relies on `Sender::send`: it fails when no receiver is subscribed, and otherwise
/// returns how many receivers the message went to.
#[verifier::external_body]
fn send_unit(tx: &Sender<()>) -> (r: Option<usize>)
    ensures
        r matches Some(n) ==> n > 0,
{
    tx.send(()).ok()
}

/// Relies on `Sender::subscribe`: a receiver of the messages sent after this call.
/// It panics only when the channel already has `usize::MAX >> 2` receivers, a count
/// that memory rules out.
#[verifier::external_body]
fn subscribe_to(tx: &Sender<()>) -> (r: Receiver<()>) {
    tx.subscribe()
}

/// Relies on `Receiver::try_recv`: a look at the channel that never waits.
#[verifier::external_body]
fn try_receive(rx: &mut Receiver<()>) -> (r: RecvOutcome) {
    match rx.try_recv() {
        Ok(()) => RecvOutcome::Message,
        Err(tokio::sync::broadcast::error::TryRecvError::Empty) => RecvOutcome::Empty,
        Err(tokio::sync::broadcast::error::TryRecvError::Closed) => RecvOutcome::Closed,
        Err(tokio::sync::broadcast::error::TryRecvError::Lagged(n)) => RecvOutcome::Lagged(n),
    }
}

pub struct Breakpoint {
    reached_tx: Sender<()>,
}

impl Breakpoint {
    /// A breakpoint that nobody waits on yet.
    pub fn new() -> (r: Self) {
        Breakpoint { reached_tx: open_channel(CHANNEL_CAPACITY) }
    }

    /// A breakpoint that nobody waits on yet; the same as `new`.
    pub fn dummy() -> (r: Self) {
        Self::new()
    }

    /// Tells every current waiter that the breakpoint was reached. With no waiter the
    /// notification is dropped.
    pub fn notify_reached(&self) {
        let _ = send_unit(&self.reached_tx);
    }

    /// A waiter that completes on the first notification after this call.
    pub fn subscribe(&self) -> (r: BreakpointReachedFuture) {
        BreakpointReachedFuture::new(subscribe_to(&self.reached_tx))
    }
}

/// A waiter on a breakpoint.
pub struct BreakpointReachedFuture {
    receiver: Receiver<()>,
}

impl BreakpointReachedFuture {
    /// The subscriber this waiter reads.
    pub closed spec fn receiver_view(&self) -> Receiver<()> {
        self.receiver
    }

    /// A waiter over `receiver`.
    pub fn new(receiver: Receiver<()>) -> (r: Self)
        ensures
            r.receiver_view() == receiver,
    {
        BreakpointReachedFuture { receiver }
    }

    /// Looks once, without waiting, whether the breakpoint was reached since the
    /// subscription (or the breakpoint is gone).
    pub fn poll_reached(&mut self) -> (r: bool) {
        let outcome = try_receive(&mut self.receiver);
        reached(outcome)
    }

    /// The channel, for a caller that waits on it asynchronously and hands each
    /// outcome to `reached`.
    pub fn into_receiver(self) -> (r: Receiver<()>)
        ensures
            r == self.receiver_view(),
    {
        self.receiver
    }
}

} // verus!
