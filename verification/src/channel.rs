//! Trusted boundary to the inter-thread channels.
//!
//! The ingestion worker runs in another thread and hands records and
//! diagnostic messages over unbounded channels; the dashboard drains them
//! without blocking on each tick.  What a drain returns depends on what the
//! other thread has sent so far, so nothing can be promised about the
//! values: the callers state what holds whatever came back.

use vstd::prelude::*;

verus! {

#[verifier::external_type_specification]
#[verifier::external_body]
#[verifier::reject_recursive_types(T)]
pub struct ExReceiver<T>(crossbeam_channel::Receiver<T>);

/// Relies on crossbeam_channel::Receiver::try_iter: yields the messages
/// currently queued on the channel, in arrival order, without blocking,
/// until the channel reports empty.  What arrives depends on the sending
/// thread, so no more can be stated of the result.
#[verifier::external_body]
pub(crate) fn drain_channel<T>(rx: &crossbeam_channel::Receiver<T>) -> (r: Vec<T>) {
    rx.try_iter().collect()
}

} // verus!
