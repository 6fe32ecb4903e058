//! The channels through which the tasks of the daemon hand packets and
//! datagrams to each other.
use smol::channel::{Receiver, Sender};
use vstd::prelude::*;

verus! {

/// `smol::channel::Sender`, the sending end of a channel between tasks.
#[verifier::external_type_specification]
#[verifier::external_body]
#[verifier::reject_recursive_types(T)]
pub struct ExSender<T>(Sender<T>);

/// `smol::channel::Receiver`, the receiving end of a channel between tasks.
#[verifier::external_type_specification]
#[verifier::external_body]
#[verifier::reject_recursive_types(T)]
pub struct ExReceiver<T>(Receiver<T>);

/// `smol::channel::bounded`: the two ends of a new channel that holds up to
/// `cap` messages. A channel for no message cannot be made and is left out.
/// What a channel holds changes with what other tasks do to it, so nothing
/// is claimed of it, here or below.
#[verifier::external_body]
pub(crate) fn channel_bounded<T>(cap: usize) -> (Sender<T>, Receiver<T>)
    requires
        cap > 0,
{
    smol::channel::bounded(cap)
}

/// `Sender::try_send`: whether the channel took the message. It does not
/// when it is full or closed, and the message is then lost.
#[verifier::external_body]
pub(crate) fn channel_try_send<T>(tx: &Sender<T>, msg: T) -> bool {
    tx.try_send(msg).is_ok()
}

/// `Receiver::try_recv`: a message that waited in the channel, if there
/// was one.
#[verifier::external_body]
pub(crate) fn channel_try_recv<T>(rx: &Receiver<T>) -> Option<T> {
    rx.try_recv().ok()
}

} // verus!
