//! Operations of the standard library that the engine relies on and whose
//! contracts are taken on trust.

use vstd::prelude::*;
use std::sync::Arc;

verus! {

/// Equality of two string slices, as `str`'s `==` decides it: two slices are
/// equal exactly when they hold the same characters.
#[verifier::external_body]
pub(crate) fn text_eq(left: &str, right: &str) -> (same: bool)
    ensures
        same == (left@ == right@),
{
    left == right
}

/// Another handle to a shared value, made with `Arc::clone`: the new handle
/// points to the same value as the given one.
#[verifier::external_body]
pub(crate) fn share<V>(handle: &Arc<V>) -> (other: Arc<V>)
    ensures
        other == *handle,
{
    Arc::clone(handle)
}

/// The receiving end of a channel of the standard library.
#[verifier::external_type_specification]
#[verifier::external_body]
#[verifier::reject_recursive_types(T)]
pub struct ExReceiver<T>(std::sync::mpsc::Receiver<T>);

/// Waits for the next value on the channel with `Receiver::recv`. What
/// arrives, and whether the senders are still there, is up to them:
/// nothing is known of the result. `None` says that every sender is gone.
#[verifier::external_body]
pub(crate) fn receive<V>(channel: &std::sync::mpsc::Receiver<V>) -> (received: Option<V>) {
    match channel.recv() {
        Ok(value) => Some(value),
        Err(_) => None,
    }
}

} // verus!
