//! The producer side of the dispatch channel, as the library sees it.
use std::sync::mpsc::Sender;
use vstd::prelude::*;

use crate::event::OutputEvent;

verus! {

#[verifier::external_type_specification]
#[verifier::external_body]
#[verifier::reject_recursive_types(T)]
pub struct ExSender<T>(Sender<T>);

/// Relies on `std::sync::mpsc::Sender::send`: it fails only when the receiving
/// half is gone, and then hands the unsent value back.
#[verifier::external_body]
pub(crate) fn send_event(tx: &Sender<OutputEvent>, event: OutputEvent) -> (r: Result<(), OutputEvent>)
    ensures
        r matches Err(back) ==> back == event,
{
    tx.send(event).map_err(|e| e.0)
}

/// Relies on `Clone` for `std::sync::mpsc::Sender`: a further producer handle
/// onto the same channel.
#[verifier::external_body]
pub(crate) fn clone_sender(tx: &Sender<OutputEvent>) -> (r: Sender<OutputEvent>)
{
    tx.clone()
}

} // verus!
