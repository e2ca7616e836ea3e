//! The per-peer channels of the server: an unbounded mailbox of responses
//! and a kill signal, both tokio unbounded channels.
use vstd::prelude::*;

verus! {

/// The sending half of a tokio unbounded channel, carried through opaque.
#[verifier::external_type_specification]
#[verifier::external_body]
#[verifier::reject_recursive_types(T)]
pub struct ExUnboundedSender<T>(tokio::sync::mpsc::UnboundedSender<T>);

/// tokio's error for a send into a closed channel; it hands the value back.
#[verifier::external_type_specification]
#[verifier::external_body]
#[verifier::reject_recursive_types(T)]
pub struct ExSendError<T>(tokio::sync::mpsc::error::SendError<T>);

/// Relies on tokio's `UnboundedSender::send`: it never blocks and never
/// panics (it aborts the process only if the count of queued messages
/// overflows); it fails when the receiving half is gone, which nothing here
/// can know in advance, so nothing is promised of the result.
pub assume_specification<T>[ tokio::sync::mpsc::UnboundedSender::<T>::send ](
    tx: &tokio::sync::mpsc::UnboundedSender<T>,
    message: T,
) -> Result<(), tokio::sync::mpsc::error::SendError<T>>;

/// Relies on tokio's `Clone` for `UnboundedSender`: another handle on the
/// same channel; it never panics.
pub assume_specification<T>[ <tokio::sync::mpsc::UnboundedSender<T> as Clone>::clone ](
    tx: &tokio::sync::mpsc::UnboundedSender<T>,
) -> tokio::sync::mpsc::UnboundedSender<T>;

} // verus!
