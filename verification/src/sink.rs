//! The per-connection outbound sink: the write end of an unbounded queue
//! that feeds a connection's transport write side. Broadcast delivery is
//! best effort, so nothing is assumed of a send's outcome.

use vstd::prelude::*;

verus! {

/// `futures_channel`'s unbounded sender. Declared so that a live connection
/// can hold the write end of its outbound queue; the library sees nothing of
/// the value's inside.
#[verifier::external_type_specification]
#[verifier::external_body]
#[verifier::reject_recursive_types(T)]
pub struct ExUnboundedSender<T>(futures_channel::mpsc::UnboundedSender<T>);

/// The write end of a connection's outbound frame queue. Frames are carried
/// as their encoded JSON text.
pub type Tx = futures_channel::mpsc::UnboundedSender<String>;

/// Relies on `UnboundedSender::clone`: another handle to the same queue.
/// Which queue a handle feeds is not modelled, so nothing is stated.
pub assume_specification<T>[ <futures_channel::mpsc::UnboundedSender<T> as Clone>::clone ](
    t: &futures_channel::mpsc::UnboundedSender<T>,
) -> (r: futures_channel::mpsc::UnboundedSender<T>);

/// Relies on `UnboundedSender::unbounded_send`: queues the frame for the
/// reading half, failing exactly when the receiver is gone. The queue's
/// content is not modelled, so nothing is stated of the outcome.
#[verifier::external_body]
pub fn sink_send(tx: &Tx, frame: String) -> (r: bool) {
    tx.unbounded_send(frame).is_ok()
}

} // verus!
