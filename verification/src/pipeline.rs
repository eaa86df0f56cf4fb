//! The sending half of the queue that carries decoded records from the
//! decoder to the dispatcher.

use vstd::prelude::*;

verus! {

/// `tokio::sync::mpsc::UnboundedSender`, carried through as an opaque value:
/// nothing is known of what the queue holds or of whether anyone still
/// receives from it.
#[verifier::external_type_specification]
#[verifier::external_body]
#[verifier::reject_recursive_types(T)]
pub struct ExUnboundedSender<T>(tokio::sync::mpsc::UnboundedSender<T>);

} // verus!
