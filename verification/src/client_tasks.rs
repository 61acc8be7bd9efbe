//! The decisions of the client's cyclic connection manager, which sends one
//! request and waits for its answer before it sends the next.
use vstd::prelude::*;

verus! {

/// What the caller of a request is told: the answer that was received, or
/// `None` when none could be read or deserialised.
pub fn answer_for<T, E>(received: Result<T, E>) -> (answer: Option<T>)
    ensures
        answer == match received {
            Ok(v) => Some(v),
            Err(_) => None::<T>,
        },
{
    match received {
        Ok(v) => Some(v),
        Err(_) => None,
    }
}

/// The manager goes on only while its requests can be sent.
pub fn continue_after_send(sent: bool) -> (go_on: bool)
    ensures
        go_on == sent,
{
    sent
}

} // verus!
