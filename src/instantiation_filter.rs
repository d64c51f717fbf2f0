use vstd::prelude::*;

use crate::definitions::{Bookkeeping, ClientId, Instantiation, WaylandRequest};
use crate::registry::{
    first_client, has_client, registry_instantiate, ClientEntryView, ClientRegistry,
};
use crate::DispatchContext;

verus! {

/// What the instantiation bridge reports for `event` of client `owner`.
pub open spec fn instantiation_outcome(
    clients: Seq<ClientEntryView>,
    owner: Option<ClientId>,
    event: Instantiation,
) -> Bookkeeping {
    match owner {
        Some(id) => if !has_client(clients, id) {
            Bookkeeping::MissingClient
        } else if clients[first_client(clients, id)].resources.accepts(event) {
            Bookkeeping::Recorded
        } else {
            Bookkeeping::MissingEntry
        },
        None => Bookkeeping::MissingClient,
    }
}

/// Handles an object that a client has just created: the object joins the
/// registry of its owner (where the owner is known and has one) and an
/// `Instantiation` event joins the queue in every case.
pub fn filter(
    context: &mut DispatchContext,
    clients: &mut ClientRegistry,
    owner: Option<ClientId>,
    event: Instantiation,
) -> (r: Bookkeeping)
    ensures
        final(clients)@ == (match owner {
            Some(id) => registry_instantiate(old(clients)@, id, event),
            None => old(clients)@,
        }),
        final(context)@ == old(context)@.push(
            WaylandRequest::Instantiation { client: owner, event },
        ),
        r == instantiation_outcome(old(clients)@, owner, event),
{
    let r = match owner {
        Some(id) => clients.instantiate(id, event),
        None => Bookkeeping::MissingClient,
    };
    context.push(WaylandRequest::Instantiation { client: owner, event });
    r
}

} // verus!
