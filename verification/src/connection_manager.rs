//! The decisions of a connection to a remote peer: when a heartbeat is due, whether a queued
//! message can be sent, and what a failed send or heartbeat does to the connection state.
//!
//! The caller owns the socket, the secure channel and the clock (milliseconds of a
//! monotonic clock); it sleeps for a second between attempts.

use vstd::prelude::*;
use crate::p2p::ConnectionState;

verus! {

/// Silence after which a heartbeat is sent, in milliseconds.
pub const HEARTBEAT_INTERVAL_MS: u64 = 5000;

/// Attempts at sending a message before it is dropped.
pub const MAX_SEND_RETRIES: u32 = 3;

/// Whether a heartbeat is due at `now` when the last one went at `last` (an earlier `now`
/// counts as no time elapsed).
pub open spec fn heartbeat_is_due(now: u64, last: u64) -> bool {
    now >= last && now - last > HEARTBEAT_INTERVAL_MS
}

/// Whether a heartbeat is due at `now` when the last one went at `last`.
pub fn heartbeat_due(now: u64, last: u64) -> (b: bool)
    ensures
        b == heartbeat_is_due(now, last),
{
    now >= last && now - last > HEARTBEAT_INTERVAL_MS
}

/// Whether a due heartbeat is sent: only on a connected link with a channel.
pub fn should_send_heartbeat(state: ConnectionState, has_channel: bool) -> (b: bool)
    ensures
        b == (state == ConnectionState::Connected && has_channel),
{
    state == ConnectionState::Connected && has_channel
}

/// The state after a heartbeat was tried in state `state`: a failed one marks the link
/// as reconnecting.
pub fn after_heartbeat(state: ConnectionState, sent: bool) -> (r: ConnectionState)
    ensures
        sent ==> r == state,
        !sent ==> r == ConnectionState::Connecting,
{
    if sent {
        state
    } else {
        ConnectionState::Connecting
    }
}

/// Whether the reconnection task tries to reconnect: when the link is reconnecting.
pub fn should_reconnect(state: ConnectionState) -> (b: bool)
    ensures
        b == (state == ConnectionState::Connecting),
{
    state == ConnectionState::Connecting
}

/// What to do with a queued message.
#[derive(Debug, Clone, Copy, PartialEq, Eq, Structural)]
pub enum SendPlan {
    /// Send it on the channel.
    Send,
    /// Mark the link as reconnecting, then wait a second.
    MarkAndWait,
    /// Wait a second for the link to come up.
    Wait,
}

/// What to do with a queued message in state `state`: send it on a connected link with a
/// channel; on a connected link without one, mark the link as reconnecting and wait;
/// otherwise wait.
pub fn send_plan(state: ConnectionState, has_channel: bool) -> (p: SendPlan)
    ensures
        state == ConnectionState::Connected && has_channel ==> p == SendPlan::Send,
        state == ConnectionState::Connected && !has_channel ==> p == SendPlan::MarkAndWait,
        state != ConnectionState::Connected ==> p == SendPlan::Wait,
{
    if state == ConnectionState::Connected {
        if has_channel {
            SendPlan::Send
        } else {
            SendPlan::MarkAndWait
        }
    } else {
        SendPlan::Wait
    }
}

/// After the `retries`-th failed attempt at sending a message: the new count of failures,
/// and whether to give up (after [`MAX_SEND_RETRIES`] failures); when not giving up, the
/// link is marked as reconnecting and the caller waits a second.
pub fn after_send_failure(retries: u32) -> (r: (u32, bool))
    requires
        retries < MAX_SEND_RETRIES,
    ensures
        r.0 == retries + 1,
        r.1 == (retries + 1 >= MAX_SEND_RETRIES),
{
    let n = retries + 1;
    (n, n >= MAX_SEND_RETRIES)
}

} // verus!
