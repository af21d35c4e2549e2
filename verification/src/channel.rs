//! The unbounded, non-blocking channels that carry messages from one domain
//! of the pipeline to the other.

use crossbeam_channel::{Receiver, Sender};
use vstd::prelude::*;

verus! {

#[verifier::external_type_specification]
#[verifier::external_body]
#[verifier::reject_recursive_types(T)]
pub struct ExSender<T>(Sender<T>);

#[verifier::external_type_specification]
#[verifier::external_body]
#[verifier::reject_recursive_types(T)]
pub struct ExReceiver<T>(Receiver<T>);

/// `crossbeam_channel::unbounded`: makes the two ends of a new channel.
/// Nothing is claimed of them.
pub assume_specification<T>[ crossbeam_channel::unbounded::<T> ]() -> (ends: (
    Sender<T>,
    Receiver<T>,
));

/// `Clone::clone` of `crossbeam_channel::Sender`: another sending end of the
/// same channel. Nothing is claimed of it.
pub assume_specification<T>[ <Sender<T> as Clone>::clone ](sender: &Sender<T>) -> (other: Sender<
    T,
>);

/// `crossbeam_channel::Sender::try_send`, with the error turned into the
/// message it holds by `TrySendError::into_inner`. The call does not block.
/// Claimed: a message that could not be sent comes back as it was handed in.
/// Whether the send succeeds is not claimed: it fails once every receiver is
/// gone.
#[verifier::external_body]
pub(crate) fn try_send<T>(sender: &Sender<T>, message: T) -> (r: Result<(), T>)
    ensures
        r matches Err(returned) ==> returned == message,
{
    match sender.try_send(message) {
        Ok(()) => Ok(()),
        Err(e) => Err(e.into_inner()),
    }
}

/// `crossbeam_channel::Receiver::try_iter`, collected: the messages that are
/// in the channel at the time of the call, oldest first, without waiting for
/// more. Nothing is claimed of them, since other threads fill the channel.
#[verifier::external_body]
pub(crate) fn try_drain<T>(receiver: &Receiver<T>) -> (arrived: Vec<T>) {
    receiver.try_iter().collect()
}

} // verus!
