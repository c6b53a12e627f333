use vstd::prelude::*;

use crate::node::NodeAddress;

verus! {

/// The receiving end of a `futures` bounded channel, carried through opaquely.
#[verifier::external_type_specification]
#[verifier::external_body]
#[verifier::reject_recursive_types(T)]
pub struct ExReceiver<T>(futures::channel::mpsc::Receiver<T>);

/// Relies on `futures::channel::mpsc::Receiver::try_recv`, which takes the
/// next queued message without waiting. An empty channel and a closed one
/// both give `None`. What arrives depends on the senders, so nothing is
/// promised of the result.
#[verifier::external_body]
pub(crate) fn try_recv(rx: &mut futures::channel::mpsc::Receiver<NodeAddress>) -> (r: Option<
    NodeAddress,
>) {
    rx.try_recv().ok()
}

} // verus!
