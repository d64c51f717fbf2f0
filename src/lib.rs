//! Bookkeeping for an embedded display server: per-client registries of
//! live protocol objects, the bridges that keep them as objects are created
//! and destroyed, identities for clients and surfaces, seat and output
//! globals, and the queue of events that the host drains with `dispatch`.
//! The protocol engine itself (sockets, wire format, surface state) stays
//! outside; it reports what happens through `EmbeddedWaylandServer`'s
//! `on_*` methods.

pub mod definitions;
pub mod destruction_filter;
pub mod instantiation_filter;
pub mod positions;
pub mod registry;
pub mod server;

pub use definitions::{
    surface_id, surface_kind, Bookkeeping, BufferInfo, Capability, ClientId, CursorImageStatus, Destruction,
    DndEvent, DrmFormat, IdAllocator, Instantiation, ObjectHandle, ObjectKind, Parameters, SeatId,
    SeatRequest, ShellRequest, SurfaceData, SurfaceId, SurfaceKind, WaylandRequest,
};
pub use registry::{seat_id, ClientRegistry, ClientResources, SeatResources};
pub use server::{
    Cursor, EmbeddedWaylandServer, KeyboardConfig, OutputGlobal, PhysicalProperties, SeatGlobal,
    Subpixel, SurfaceEntry,
};

use vstd::prelude::*;

verus! {

/// The outgoing event queue: every event appended since the last drain, in
/// the order in which it was appended.
#[derive(Debug)]
pub struct DispatchContext {
    requests: Vec<WaylandRequest>,
}

impl View for DispatchContext {
    type V = Seq<WaylandRequest>;

    closed spec fn view(&self) -> Seq<WaylandRequest> {
        self.requests@
    }
}

impl DispatchContext {
    pub fn new() -> (r: DispatchContext)
        ensures
            r@ == Seq::<WaylandRequest>::empty(),
    {
        DispatchContext { requests: Vec::new() }
    }

    pub fn push(&mut self, request: WaylandRequest)
        ensures
            final(self)@ == old(self)@.push(request),
    {
        self.requests.push(request);
    }

    /// Appends `records`, in order.
    pub fn push_all(&mut self, records: Vec<WaylandRequest>)
        ensures
            final(self)@ == old(self)@ + records@,
    {
        let mut records = records;
        self.requests.append(&mut records);
    }

    pub fn len(&self) -> (r: usize)
        ensures
            r == self@.len(),
    {
        self.requests.len()
    }

    /// Takes out every queued event, oldest first, and leaves the queue empty.
    pub fn drain(&mut self) -> (r: Vec<WaylandRequest>)
        ensures
            r@ == old(self)@,
            final(self)@ == Seq::<WaylandRequest>::empty(),
    {
        let mut taken: Vec<WaylandRequest> = Vec::new();
        std::mem::swap(&mut taken, &mut self.requests);
        taken
    }
}

} // verus!
