//! The queues between tasks.
//!
//! A queue is an unbounded channel of the `futures` crate. This module is
//! the only place that touches one; nothing in it is proved.

use futures::channel::mpsc::UnboundedSender;
use vstd::prelude::*;

verus! {

/// The sending half of an unbounded `futures` channel, carried as an opaque
/// value.
#[verifier::external_type_specification]
#[verifier::external_body]
#[verifier::reject_recursive_types(T)]
pub struct ExUnboundedSender<T>(UnboundedSender<T>);

/// `UnboundedSender::clone`: another handle to a queue. Nothing is claimed
/// of the handle that comes back.
pub assume_specification<T>[ <UnboundedSender<T> as Clone>::clone ](
    tx: &UnboundedSender<T>,
) -> (other: UnboundedSender<T>)
;

/// `UnboundedSender::unbounded_send`: puts `item` on the queue without
/// waiting and tells whether the queue took it. Whether it does depends on
/// the receiving half, which is out of sight here, so nothing is claimed of
/// the answer. The call itself gives up only when the queue already holds
/// more items than memory can.
#[verifier::external_body]
pub(crate) fn offer<T>(tx: &UnboundedSender<T>, item: T) -> (taken: bool) {
    tx.unbounded_send(item).is_ok()
}

} // verus!
