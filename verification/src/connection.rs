//! The decisions of the server's connection loop over its cache of packets
//! waiting to be sent: what a received event, and the outcome of a send, do
//! to the cache, and how the cache is kept from growing without bound.

use vstd::prelude::*;

verus! {

/// Cache size beyond which the oldest part of the cache's top is dropped.
pub const MAX_CASE_SIZE: usize = 1024;

/// Number of packets dropped from the cache when it grows too large.
pub const CACHE_DROP: usize = 341;

/// What waiting for the next packet gave.
pub enum Received<T> {
    /// A packet arrived.
    Package(T),
    /// None arrived in time.
    Timeout,
    /// The producer of packets has gone.
    Disconnected,
}

/// How sending a packet to the client ended.
#[derive(Debug, Clone, Copy, PartialEq, Eq, Structural)]
pub enum SendOutcome {
    /// The packet was written.
    Written,
    /// The socket was not ready; nothing was written.
    WouldBlock,
    /// The client is not connected.
    NotConnected,
    /// Writing failed otherwise.
    Failed,
}

/// What the connection loop does after a send.
#[derive(Debug, Clone, Copy, PartialEq, Eq, Structural)]
pub enum SendAction {
    /// Flush the socket and go on.
    Flush,
    /// Pause briefly, then go on.
    Pause,
    /// End the connection with the error.
    Stop,
    /// Mark the client as gone, pause, and end the connection with the error.
    Disconnect,
}

/// Takes a received event into the cache: a packet is put on top of it.
/// Returns whether the connection goes on, which it does unless the
/// producer has gone.
pub fn on_receive<T>(cache: &mut Vec<T>, event: Received<T>) -> (go_on: bool)
    ensures
        match event {
            Received::Package(p) => final(cache)@ == old(cache)@.push(p) && go_on,
            Received::Timeout => final(cache)@ == old(cache)@ && go_on,
            Received::Disconnected => final(cache)@ == old(cache)@ && !go_on,
        },
{
    match event {
        Received::Package(p) => {
            cache.push(p);
            true
        },
        Received::Timeout => true,
        Received::Disconnected => false,
    }
}

/// Takes the packet to send next: the one on top of the cache, which
/// leaves it; none where the cache is empty.
pub fn next_package<T>(cache: &mut Vec<T>) -> (next: Option<T>)
    ensures
        old(cache)@.len() == 0 ==> next is None && final(cache)@ == old(cache)@,
        old(cache)@.len() > 0 ==> next == Some(old(cache)@.last()) && final(cache)@
            == old(cache)@.drop_last(),
{
    cache.pop()
}

/// Takes the outcome of sending `package`, the packet last taken from the
/// top of the cache: a packet the socket was not ready for goes back on
/// top. Returns what the loop does next.
pub fn on_sent<T>(cache: &mut Vec<T>, package: T, outcome: SendOutcome) -> (action: SendAction)
    ensures
        outcome == SendOutcome::WouldBlock ==> final(cache)@ == old(cache)@.push(package),
        outcome != SendOutcome::WouldBlock ==> final(cache)@ == old(cache)@,
        action == match outcome {
            SendOutcome::Written => SendAction::Flush,
            SendOutcome::WouldBlock => SendAction::Pause,
            SendOutcome::NotConnected => SendAction::Stop,
            SendOutcome::Failed => SendAction::Disconnect,
        },
{
    match outcome {
        SendOutcome::Written => SendAction::Flush,
        SendOutcome::WouldBlock => {
            cache.push(package);
            SendAction::Pause
        },
        SendOutcome::NotConnected => SendAction::Stop,
        SendOutcome::Failed => SendAction::Disconnect,
    }
}

/// Keeps the cache from growing without bound: once it holds more than
/// [`MAX_CASE_SIZE`] packets, the [`CACHE_DROP`] packets on its top are
/// dropped. A cache that held at most one packet more than the limit holds
/// no more than the limit afterwards.
pub fn enforce_cache_limit<T>(cache: &mut Vec<T>)
    ensures
        old(cache)@.len() > MAX_CASE_SIZE ==> final(cache)@ == old(cache)@.take(
            old(cache)@.len() - CACHE_DROP,
        ),
        old(cache)@.len() <= MAX_CASE_SIZE ==> final(cache)@ == old(cache)@,
        old(cache)@.len() <= MAX_CASE_SIZE + 1 ==> final(cache)@.len() <= MAX_CASE_SIZE,
{
    if cache.len() > MAX_CASE_SIZE {
        let ghost before = cache@;
        for i in 0..CACHE_DROP
            invariant
                before.len() > MAX_CASE_SIZE,
                cache@ == before.take(before.len() - i),
        {
            let _ = cache.pop();
            assert(before.take(before.len() - i).drop_last() =~= before.take(before.len() - i - 1));
        }
    }
}

} // verus!
