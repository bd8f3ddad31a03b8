//! Reply handles that travel inside Knot's messages. They are carried
//! through the routing logic unread, and used by the tasks at the edges.
use vstd::prelude::*;

verus! {

/// The sending half of a one-shot reply channel of tokio.
#[verifier::external_type_specification]
#[verifier::external_body]
#[verifier::reject_recursive_types(T)]
pub struct ExOneshotSender<T>(tokio::sync::oneshot::Sender<T>);

} // verus!
