//! Building blocks for a native addon that bridges a single-threaded host
//! runtime to native threads.
//!
//! The host runs callbacks on one thread only. Work that happens elsewhere
//! reaches it through a dispatch channel: a request submitted to the channel
//! runs on the host's thread, after the requests submitted before it. This
//! crate holds what is decided on the native side of that channel: which
//! request to submit, with what, and when to stop. Submitting, blocking and
//! sleeping are left to the caller.
//!
//! - [`event_aggregator`] publishes typed events to a host-side callback,
//!   fire and forget.
//! - [`invoker`] calls a host-side callback repeatedly, on the calling thread
//!   or from a background worker, one blocking round trip at a time.
//! - [`task`] plans long-running work that settles a promise once at its end.
//! - [`event_json`] is the text that events travel in, with [`json`],
//!   [`json_read`] and [`text`] underneath.

use vstd::prelude::*;

pub mod event_aggregator;
pub mod event_json;
pub mod invoker;
pub mod json;
pub mod json_read;
pub mod task;
pub mod text;

verus! {

/// The greeting handed to the host.
pub open spec fn greeting_text() -> Seq<char> {
    "hello node"@
}

/// Returns the greeting.
pub fn hello() -> (greeting: String)
    ensures
        greeting@ == greeting_text(),
{
    "hello node".to_owned()
}

/// Calls `num_cpus::get`, the number of logical processors available to the
/// process. The number depends on the machine and on the limits set for the
/// process; the crate's documentation promises that it is at least one.
#[verifier::external_body]
fn logical_cpus() -> (count: usize)
    ensures
        count >= 1,
{
    num_cpus::get()
}

/// The number of logical processors available, which is at least one.
pub fn get_num_cpu() -> (count: usize)
    ensures
        count >= 1,
{
    logical_cpus()
}

} // verus!
