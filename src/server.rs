use vstd::prelude::*;

use crate::definitions::{
    Bookkeeping, BufferInfo, ClientId, CursorImageStatus, Destruction, DndEvent, DrmFormat,
    IdAllocator,
    Instantiation, ObjectHandle, Parameters, SeatId, SeatRequest, ShellRequest, SurfaceData,
    SurfaceId, SurfaceKind, WaylandRequest,
};
use crate::destruction_filter;
use crate::destruction_filter::{removal_records, removal_records_of};
use crate::instantiation_filter;
use crate::positions::{
    exists_where, first_where, is_first_where, lemma_exists_first, lemma_first_where,
};
use crate::registry::{
    has_client, lemma_registry_destroy_ids, resources_of, lemma_registry_instantiate_ids, lemma_without_client,
    registry_destroy, registry_instantiate, unique_clients, without_client, ClientEntryView,
    ClientRegistry, ClientResourcesView,
};
use crate::DispatchContext;

verus! {

// Seat and output globals.

/// Key repeat settings of a seat's keyboard.
#[derive(Clone, Copy, Debug, PartialEq, Eq, Structural)]
pub struct KeyboardConfig {
    pub repeat_delay: i32,
    pub repeat_rate: i32,
}

/// A seat's pointer, with the cursor image its focused client last asked for.
#[derive(Clone, Copy, Debug, PartialEq, Eq, Structural)]
pub struct Cursor {
    pub image: CursorImageStatus,
}

/// A seat global created by the host.
#[derive(Clone, Debug)]
pub struct SeatGlobal {
    pub id: SeatId,
    pub name: String,
    pub keyboard: Option<KeyboardConfig>,
    pub cursor: Option<Cursor>,
}

#[derive(Clone, Copy, Debug, PartialEq, Eq, Structural)]
pub enum Subpixel {
    Unknown,
    NoSubpixels,
    HorizontalRgb,
    HorizontalBgr,
    VerticalRgb,
    VerticalBgr,
}

/// What an output reports of its hardware.
#[derive(Clone, Debug)]
pub struct PhysicalProperties {
    pub width: i32,
    pub height: i32,
    pub subpixel: Subpixel,
    pub make: String,
    pub model: String,
}

/// An output global created by the host.
#[derive(Clone, Debug)]
pub struct OutputGlobal {
    pub id: usize,
    pub name: String,
    pub physical_properties: PhysicalProperties,
}

/// A surface that carries data of this library.
#[derive(Clone, Copy, Debug, PartialEq, Eq, Structural)]
pub struct SurfaceEntry {
    pub handle: ObjectHandle,
    pub data: SurfaceData,
}

pub open spec fn seat_is(id: usize) -> spec_fn(SeatGlobal) -> bool {
    |g: SeatGlobal| g.id.0 == id
}

pub open spec fn output_is(id: usize) -> spec_fn(OutputGlobal) -> bool {
    |o: OutputGlobal| o.id == id
}

pub open spec fn surface_is(handle: ObjectHandle) -> spec_fn(SurfaceEntry) -> bool {
    |e: SurfaceEntry| e.handle == handle
}

/// The seat global `id`, where there is one.
pub open spec fn seat_of(seats: Seq<SeatGlobal>, id: usize) -> Option<SeatGlobal> {
    if exists_where(seats, seat_is(id)) {
        Some(seats[first_where(seats, seat_is(id))])
    } else {
        None
    }
}

pub open spec fn output_of(outputs: Seq<OutputGlobal>, id: usize) -> Option<OutputGlobal> {
    if exists_where(outputs, output_is(id)) {
        Some(outputs[first_where(outputs, output_is(id))])
    } else {
        None
    }
}

pub open spec fn surface_of(surfaces: Seq<SurfaceEntry>, handle: ObjectHandle) -> Option<SurfaceData> {
    if exists_where(surfaces, surface_is(handle)) {
        Some(surfaces[first_where(surfaces, surface_is(handle))].data)
    } else {
        None
    }
}

/// Applies `f` to the seat global `id`; nothing changes where there is none.
pub open spec fn update_seat(
    seats: Seq<SeatGlobal>,
    id: usize,
    f: spec_fn(SeatGlobal) -> SeatGlobal,
) -> Seq<SeatGlobal> {
    if exists_where(seats, seat_is(id)) {
        let i = first_where(seats, seat_is(id));
        seats.update(i, f(seats[i]))
    } else {
        seats
    }
}

/// A seat global `id` with neither keyboard nor cursor takes the place of
/// the previous one of that id, or joins the table.
pub open spec fn seats_create(seats: Seq<SeatGlobal>, id: usize, name: String) -> Seq<SeatGlobal> {
    let fresh = SeatGlobal { id: SeatId(id), name, keyboard: None, cursor: None };
    if exists_where(seats, seat_is(id)) {
        seats.update(first_where(seats, seat_is(id)), fresh)
    } else {
        seats.push(fresh)
    }
}

pub open spec fn seats_destroy(seats: Seq<SeatGlobal>, id: usize) -> Seq<SeatGlobal> {
    if exists_where(seats, seat_is(id)) {
        seats.remove(first_where(seats, seat_is(id)))
    } else {
        seats
    }
}

/// A seat without a keyboard gets one; a seat that has one keeps it as it is.
pub open spec fn seats_add_keyboard(seats: Seq<SeatGlobal>, id: usize, config: KeyboardConfig) -> Seq<
    SeatGlobal,
> {
    update_seat(
        seats,
        id,
        |g: SeatGlobal|
            if g.keyboard is None {
                SeatGlobal { keyboard: Some(config), ..g }
            } else {
                g
            },
    )
}

pub open spec fn seats_del_keyboard(seats: Seq<SeatGlobal>, id: usize) -> Seq<SeatGlobal> {
    update_seat(seats, id, |g: SeatGlobal| SeatGlobal { keyboard: None, ..g })
}

/// A seat without a cursor gets one that shows the default image; a seat
/// that has one keeps it as it is.
pub open spec fn seats_add_cursor(seats: Seq<SeatGlobal>, id: usize) -> Seq<SeatGlobal> {
    update_seat(
        seats,
        id,
        |g: SeatGlobal|
            if g.cursor is None {
                SeatGlobal { cursor: Some(Cursor { image: CursorImageStatus::Default }), ..g }
            } else {
                g
            },
    )
}

pub open spec fn seats_del_cursor(seats: Seq<SeatGlobal>, id: usize) -> Seq<SeatGlobal> {
    update_seat(seats, id, |g: SeatGlobal| SeatGlobal { cursor: None, ..g })
}

pub open spec fn outputs_create(
    outputs: Seq<OutputGlobal>,
    id: usize,
    name: String,
    physical_properties: PhysicalProperties,
) -> Seq<OutputGlobal> {
    let fresh = OutputGlobal { id, name, physical_properties };
    if exists_where(outputs, output_is(id)) {
        outputs.update(first_where(outputs, output_is(id)), fresh)
    } else {
        outputs.push(fresh)
    }
}

pub open spec fn outputs_destroy(outputs: Seq<OutputGlobal>, id: usize) -> Seq<OutputGlobal> {
    if exists_where(outputs, output_is(id)) {
        outputs.remove(first_where(outputs, output_is(id)))
    } else {
        outputs
    }
}

// Surfaces of a disconnecting client.

/// The surfaces of `s` that do not belong to client `c`, in order.
pub open spec fn surfaces_kept(s: Seq<SurfaceEntry>, c: ClientId) -> Seq<SurfaceEntry>
    decreases s.len(),
{
    if s.len() == 0 {
        s
    } else if s.last().handle.client == c {
        surfaces_kept(s.drop_last(), c)
    } else {
        surfaces_kept(s.drop_last(), c).push(s.last())
    }
}

/// One `SurfaceRemoved` event for each surface of client `c` in `s` that
/// has an identity, in order.
pub open spec fn surfaces_removed(s: Seq<SurfaceEntry>, c: ClientId) -> Seq<WaylandRequest>
    decreases s.len(),
{
    if s.len() == 0 {
        Seq::empty()
    } else if s.last().handle.client == c && s.last().data.surface_id is Some {
        surfaces_removed(s.drop_last(), c).push(
            WaylandRequest::SurfaceRemoved { id: s.last().data.surface_id.unwrap().0 },
        )
    } else {
        surfaces_removed(s.drop_last(), c)
    }
}

/// One `Destruction` record for each object in the registry of client `c`,
/// where it has one.
pub open spec fn registry_removed(clients: Seq<ClientEntryView>, c: ClientId) -> Seq<WaylandRequest> {
    match resources_of(clients, c) {
        Some(r) => removal_records(c, r),
        None => Seq::empty(),
    }
}

/// Two distinct surfaces: different handles, and different identities where
/// both have one.
pub open spec fn distinct_surfaces(a: SurfaceEntry, b: SurfaceEntry) -> bool {
    &&& a.handle != b.handle
    &&& (a.data.surface_id is Some && b.data.surface_id is Some) ==> a.data.surface_id
        != b.data.surface_id
}

pub open spec fn pairwise_distinct(s: Seq<SurfaceEntry>) -> bool {
    forall|i: int, j: int|
        0 <= i < s.len() && 0 <= j < s.len() && i != j ==> distinct_surfaces(s[i], s[j])
}

proof fn lemma_surfaces_kept(s: Seq<SurfaceEntry>, c: ClientId)
    requires
        pairwise_distinct(s),
    ensures
        pairwise_distinct(surfaces_kept(s, c)),
        forall|k: int|
            0 <= k < surfaces_kept(s, c).len() ==> s.contains(#[trigger] surfaces_kept(s, c)[k]),
        forall|k: int|
            0 <= k < surfaces_kept(s, c).len() ==> #[trigger] surfaces_kept(s, c)[k].handle.client
                != c,
    decreases s.len(),
{
    if s.len() > 0 {
        let t = s.drop_last();
        assert(pairwise_distinct(t));
        lemma_surfaces_kept(t, c);
        let kt = surfaces_kept(t, c);
        assert forall|k: int| 0 <= k < kt.len() implies s.contains(#[trigger] kt[k]) by {
            assert(t.contains(kt[k]));
            let j = choose|j: int| 0 <= j < t.len() && t[j] == kt[k];
            assert(s[j] == kt[k]);
        }
        if s.last().handle.client != c {
            let ks = kt.push(s.last());
            assert forall|k: int| 0 <= k < kt.len() implies distinct_surfaces(
                #[trigger] kt[k],
                s.last(),
            ) by {
                assert(t.contains(kt[k]));
                let j = choose|j: int| 0 <= j < t.len() && t[j] == kt[k];
                assert(s[j] == t[j]);
                assert(distinct_surfaces(s[j], s[s.len() - 1]));
            }
            assert forall|i: int, j: int|
                0 <= i < ks.len() && 0 <= j < ks.len() && i != j implies distinct_surfaces(
                ks[i],
                ks[j],
            ) by {
                if i < kt.len() && j < kt.len() {
                    assert(ks[i] == kt[i] && ks[j] == kt[j]);
                } else if i < kt.len() {
                    assert(distinct_surfaces(kt[i], s.last()));
                } else {
                    assert(distinct_surfaces(kt[j], s.last()));
                }
            }
            assert(s.contains(s.last())) by {
                assert(s[s.len() - 1] == s.last());
            }
        }
    }
}

// The server.

proof fn lemma_same_identities(v: ServerView, w: ServerView)
    requires
        v.wf(),
        w.clients.len() == v.clients.len(),
        forall|i: int| 0 <= i < v.clients.len() ==> w.clients[i].id == v.clients[i].id,
        w.surfaces == v.surfaces,
        w.seats == v.seats,
        w.outputs == v.outputs,
        w.next_identity == v.next_identity,
    ensures
        w.wf(),
{
    assert forall|i: int, j: int|
        0 <= i < w.clients.len() && 0 <= j < w.clients.len() && i != j implies w.clients[i].id
        != w.clients[j].id by {
        assert(v.clients[i].id != v.clients[j].id);
    }
    assert forall|i: int| 0 <= i < w.clients.len() implies w.clients[i].id.0 < w.next_identity by {
        assert(v.clients[i].id.0 < v.next_identity);
    }
    assert forall|i: int, j: int|
        0 <= i < w.surfaces.len() && 0 <= j < w.clients.len() && w.surfaces[i].data.surface_id is Some
        implies w.surfaces[i].data.surface_id.unwrap().0 != w.clients[j].id.0 by {
        assert(v.surfaces[i].data.surface_id.unwrap().0 != v.clients[j].id.0);
    }
}

/// What a server holds, as plain values.
pub struct ServerView {
    /// Events appended since the last dispatch, oldest first.
    pub requests: Seq<WaylandRequest>,
    /// Registries of the connected clients, in order of connection.
    pub clients: Seq<ClientEntryView>,
    /// Surfaces that carry an identity or a role.
    pub surfaces: Seq<SurfaceEntry>,
    pub seats: Seq<SeatGlobal>,
    pub outputs: Seq<OutputGlobal>,
    /// The identity that the allocator hands out next.
    pub next_identity: nat,
    pub xdg_shell: bool,
    pub dma_buf: bool,
    pub dnd: bool,
    pub explicit_synchronization: bool,
    /// Shared-memory buffer formats offered.
    pub shm_formats: Seq<u32>,
    /// Hardware buffer formats offered.
    pub drm_formats: Seq<DrmFormat>,
    pub report_removals: bool,
}

impl ServerView {
    /// No two entities that are alive at once share an identity, and each
    /// identity is below the allocator's next one.
    pub open spec fn identities_unique(self) -> bool {
        &&& unique_clients(self.clients)
        &&& pairwise_distinct(self.surfaces)
        &&& forall|i: int| 0 <= i < self.clients.len() ==> self.clients[i].id.0 < self.next_identity
        &&& forall|i: int|
            0 <= i < self.surfaces.len() && self.surfaces[i].data.surface_id is Some
                ==> self.surfaces[i].data.surface_id.unwrap().0 < self.next_identity
        &&& forall|i: int, j: int|
            0 <= i < self.surfaces.len() && 0 <= j < self.clients.len()
                && self.surfaces[i].data.surface_id is Some
                ==> self.surfaces[i].data.surface_id.unwrap().0 != self.clients[j].id.0
    }

    pub open spec fn wf(self) -> bool {
        &&& self.identities_unique()
        &&& forall|i: int, j: int|
            0 <= i < self.seats.len() && 0 <= j < self.seats.len() && i != j ==> self.seats[i].id
                != self.seats[j].id
        &&& forall|i: int, j: int|
            0 <= i < self.outputs.len() && 0 <= j < self.outputs.len() && i != j
                ==> self.outputs[i].id != self.outputs[j].id
    }

    pub open spec fn queued(self, request: WaylandRequest) -> ServerView {
        ServerView { requests: self.requests.push(request), ..self }
    }

    /// The server after `dispatch`: the queue is empty.
    pub open spec fn drained(self) -> ServerView {
        ServerView { requests: Seq::empty(), ..self }
    }

    /// Attaches an identity (where the surface has none and one is left) and
    /// the role `kind` (where it has none) to surface `handle`.
    pub open spec fn with_role(self, handle: ObjectHandle, kind: SurfaceKind) -> ServerView {
        let present = exists_where(self.surfaces, surface_is(handle));
        let i = first_where(self.surfaces, surface_is(handle));
        let data = if present {
            self.surfaces[i].data
        } else {
            SurfaceData { surface_id: None, kind: None }
        };
        let allocates = data.surface_id is None && self.next_identity < usize::MAX;
        let surface_id = if allocates {
            Some(SurfaceId(self.next_identity as usize))
        } else {
            data.surface_id
        };
        let role = if data.kind is Some {
            data.kind
        } else {
            Some(kind)
        };
        let entry = SurfaceEntry { handle, data: SurfaceData { surface_id, kind: role } };
        ServerView {
            surfaces: if present {
                self.surfaces.update(i, entry)
            } else {
                self.surfaces.push(entry)
            },
            next_identity: if allocates {
                self.next_identity + 1
            } else {
                self.next_identity
            },
            ..self
        }
    }

    /// The server after a shell request.
    pub open spec fn after_shell_request(self, request: ShellRequest) -> ServerView {
        if !self.xdg_shell {
            self
        } else {
            let v = match request {
                ShellRequest::NewToplevel { surface } => self.with_role(
                    surface,
                    SurfaceKind::Toplevel,
                ),
                ShellRequest::NewPopup { surface } => self.with_role(surface, SurfaceKind::Popup),
                ShellRequest::AckConfigure { .. } => self,
            };
            v.queued(WaylandRequest::XdgRequest { request })
        }
    }

    /// Whether seat `seat` has a cursor.
    pub open spec fn has_cursor(self, seat: usize) -> bool {
        seat_of(self.seats, seat) matches Some(g) && g.cursor is Some
    }

    pub open spec fn has_keyboard(self, seat: usize) -> bool {
        seat_of(self.seats, seat) matches Some(g) && g.keyboard is Some
    }

    /// The server after the client focused on seat `seat` asks for a cursor
    /// image; nothing changes where the seat has no cursor.
    pub open spec fn after_cursor_image(self, seat: usize, status: CursorImageStatus) -> ServerView {
        if self.has_cursor(seat) {
            let v = ServerView {
                seats: update_seat(
                    self.seats,
                    seat,
                    |g: SeatGlobal| SeatGlobal { cursor: Some(Cursor { image: status }), ..g },
                ),
                ..self
            };
            let w = match status {
                CursorImageStatus::Image(surface) => v.with_role(surface, SurfaceKind::Cursor),
                _ => v,
            };
            w.queued(
                WaylandRequest::Seat { seat: SeatId(seat), request: SeatRequest::CursorImage(status) },
            )
        } else {
            self
        }
    }

    /// The server after a surface died.
    pub open spec fn after_surface_destroyed(self, handle: ObjectHandle) -> ServerView {
        if exists_where(self.surfaces, surface_is(handle)) {
            let i = first_where(self.surfaces, surface_is(handle));
            let v = ServerView { surfaces: self.surfaces.remove(i), ..self };
            if self.report_removals && self.surfaces[i].data.surface_id is Some {
                v.queued(
                    WaylandRequest::SurfaceRemoved { id: self.surfaces[i].data.surface_id.unwrap().0 },
                )
            } else {
                v
            }
        } else {
            self
        }
    }

    /// The server after client `c` disconnected: its registry and its
    /// surfaces are gone.
    pub open spec fn after_disconnect(self, c: ClientId) -> ServerView {
        ServerView {
            clients: without_client(self.clients, c),
            surfaces: surfaces_kept(self.surfaces, c),
            requests: if self.report_removals {
                self.requests + registry_removed(self.clients, c) + surfaces_removed(self.surfaces, c)
            } else {
                self.requests
            },
            ..self
        }
    }
}

/// The part of an embedded display server that keeps books: the registries
/// of the connected clients, the identities of surfaces, the seat and
/// output globals, and the queue of events for the host. The protocol
/// engine reports what happens through the `on_*` methods; the host reads
/// the events with `dispatch`.
#[derive(Debug)]
pub struct EmbeddedWaylandServer {
    dispatch_context: DispatchContext,
    clients: ClientRegistry,
    surfaces: Vec<SurfaceEntry>,
    seat_globals: Vec<SeatGlobal>,
    output_globals: Vec<OutputGlobal>,
    identities: IdAllocator,
    parameters: Parameters,
}

impl View for EmbeddedWaylandServer {
    type V = ServerView;

    closed spec fn view(&self) -> ServerView {
        ServerView {
            requests: self.dispatch_context@,
            clients: self.clients@,
            surfaces: self.surfaces@,
            seats: self.seat_globals@,
            outputs: self.output_globals@,
            next_identity: self.identities.next_id(),
            xdg_shell: self.parameters.xdg_shell,
            dma_buf: self.parameters.dma_buf,
            dnd: self.parameters.dnd,
            explicit_synchronization: self.parameters.explicit_synchronization,
            shm_formats: self.parameters.shm_formats@,
            drm_formats: self.parameters.drm_formats@,
            report_removals: self.parameters.removal_events,
        }
    }
}

impl EmbeddedWaylandServer {
    pub fn new(parameters: Parameters) -> (r: EmbeddedWaylandServer)
        ensures
            r@.wf(),
            r@.requests.len() == 0,
            r@.clients.len() == 0,
            r@.surfaces.len() == 0,
            r@.seats.len() == 0,
            r@.outputs.len() == 0,
            r@.next_identity == 0,
            r@.xdg_shell == parameters.xdg_shell,
            r@.dma_buf == parameters.dma_buf,
            r@.dnd == parameters.dnd,
            r@.explicit_synchronization == parameters.explicit_synchronization,
            r@.shm_formats == parameters.shm_formats@,
            r@.drm_formats == parameters.drm_formats@,
            r@.report_removals == parameters.removal_events,
    {
        EmbeddedWaylandServer {
            dispatch_context: DispatchContext::new(),
            clients: ClientRegistry::new(),
            surfaces: Vec::new(),
            seat_globals: Vec::new(),
            output_globals: Vec::new(),
            identities: IdAllocator::new(),
            parameters,
        }
    }

    /// The configuration the server was made with.
    pub fn parameters(&self) -> (r: &Parameters)
        ensures
            r.xdg_shell == self@.xdg_shell,
            r.dma_buf == self@.dma_buf,
            r.dnd == self@.dnd,
            r.explicit_synchronization == self@.explicit_synchronization,
            r.shm_formats@ == self@.shm_formats,
            r.drm_formats@ == self@.drm_formats,
            r.removal_events == self@.report_removals,
    {
        &self.parameters
    }

    /// Takes out every event appended since the previous call, oldest
    /// first; the queue is empty afterwards.
    pub fn dispatch(&mut self) -> (r: Vec<WaylandRequest>)
        requires
            old(self)@.wf(),
        ensures
            r@ == old(self)@.requests,
            final(self)@ == old(self)@.drained(),
            final(self)@.wf(),
    {
        self.dispatch_context.drain()
    }

    /// The registries of the connected clients.
    pub fn clients(&self) -> (r: &ClientRegistry)
        ensures
            r@ == self@.clients,
    {
        &self.clients
    }

    fn find_seat(&self, id: usize) -> (r: Option<usize>)
        ensures
            r.is_some() <==> exists_where(self@.seats, seat_is(id)),
            r.is_some() ==> r.unwrap() < self@.seats.len() && r.unwrap() as int == first_where(
                self@.seats,
                seat_is(id),
            ) && self@.seats[r.unwrap() as int].id.0 == id,
    {
        let mut i: usize = 0;
        while i < self.seat_globals.len()
            invariant
                i <= self.seat_globals@.len(),
                forall|j: int| 0 <= j < i ==> !(seat_is(id))(self.seat_globals@[j]),
            decreases self.seat_globals@.len() - i,
        {
            if self.seat_globals[i].id.0 == id {
                proof {
                    lemma_first_where(self@.seats, seat_is(id), i as int);
                }
                return Some(i);
            }
            i = i + 1;
        }
        None
    }

    fn find_output(&self, id: usize) -> (r: Option<usize>)
        ensures
            r.is_some() <==> exists_where(self@.outputs, output_is(id)),
            r.is_some() ==> r.unwrap() < self@.outputs.len() && r.unwrap() as int == first_where(
                self@.outputs,
                output_is(id),
            ) && self@.outputs[r.unwrap() as int].id == id,
    {
        let mut i: usize = 0;
        while i < self.output_globals.len()
            invariant
                i <= self.output_globals@.len(),
                forall|j: int| 0 <= j < i ==> !(output_is(id))(self.output_globals@[j]),
            decreases self.output_globals@.len() - i,
        {
            if self.output_globals[i].id == id {
                proof {
                    lemma_first_where(self@.outputs, output_is(id), i as int);
                }
                return Some(i);
            }
            i = i + 1;
        }
        None
    }

    fn find_surface(&self, handle: ObjectHandle) -> (r: Option<usize>)
        ensures
            r.is_some() <==> exists_where(self@.surfaces, surface_is(handle)),
            r.is_some() ==> r.unwrap() < self@.surfaces.len() && r.unwrap() as int == first_where(
                self@.surfaces,
                surface_is(handle),
            ) && self@.surfaces[r.unwrap() as int].handle == handle,
    {
        let mut i: usize = 0;
        while i < self.surfaces.len()
            invariant
                i <= self.surfaces@.len(),
                forall|j: int| 0 <= j < i ==> !(surface_is(handle))(self.surfaces@[j]),
            decreases self.surfaces@.len() - i,
        {
            if self.surfaces[i].handle == handle {
                proof {
                    lemma_first_where(self@.surfaces, surface_is(handle), i as int);
                }
                return Some(i);
            }
            i = i + 1;
        }
        None
    }

    /// Creates seat global `id`, in place of any previous one of that id.
    pub fn create_seat(&mut self, id: usize, name: String)
        requires
            old(self)@.wf(),
        ensures
            final(self)@ == (ServerView { seats: seats_create(old(self)@.seats, id, name), ..old(self)@ }),
            final(self)@.wf(),
    {
        let fresh = SeatGlobal { id: SeatId(id), name, keyboard: None, cursor: None };
        match self.find_seat(id) {
            Some(i) => {
                self.seat_globals.set(i, fresh);
            },
            None => {
                self.seat_globals.push(fresh);
            },
        }
    }

    pub fn destroy_seat(&mut self, id: usize)
        requires
            old(self)@.wf(),
        ensures
            final(self)@ == (ServerView { seats: seats_destroy(old(self)@.seats, id), ..old(self)@ }),
            final(self)@.wf(),
    {
        match self.find_seat(id) {
            Some(i) => {
                self.seat_globals.remove(i);
            },
            None => {},
        }
    }

    /// The seat globals, in order of creation.
    pub fn list_seats(&self) -> (r: &Vec<SeatGlobal>)
        ensures
            r@ == self@.seats,
    {
        &self.seat_globals
    }

    /// Gives seat `seat_id` a keyboard with the given repeat settings, unless
    /// it has one already. Reports whether a keyboard was added.
    pub fn add_keyboard(&mut self, seat_id: usize, repeat_delay: i32, repeat_rate: i32) -> (r: bool)
        requires
            old(self)@.wf(),
        ensures
            final(self)@ == (ServerView {
                seats: seats_add_keyboard(
                    old(self)@.seats,
                    seat_id,
                    KeyboardConfig { repeat_delay, repeat_rate },
                ),
                ..old(self)@
            }),
            r == (seat_of(old(self)@.seats, seat_id) matches Some(g) && g.keyboard is None),
            final(self)@.wf(),
    {
        match self.find_seat(seat_id) {
            Some(i) => {
                if self.seat_globals[i].keyboard.is_none() {
                    self.seat_globals[i].keyboard = Some(KeyboardConfig { repeat_delay, repeat_rate });
                    true
                } else {
                    assert(self@.seats.update(i as int, self@.seats[i as int]) =~= self@.seats);
                    false
                }
            },
            None => false,
        }
    }

    /// Takes the keyboard of seat `seat_id` away. Reports whether it had one.
    pub fn del_keyboard(&mut self, seat_id: usize) -> (r: bool)
        requires
            old(self)@.wf(),
        ensures
            final(self)@ == (ServerView {
                seats: seats_del_keyboard(old(self)@.seats, seat_id),
                ..old(self)@
            }),
            r == old(self)@.has_keyboard(seat_id),
            final(self)@.wf(),
    {
        match self.find_seat(seat_id) {
            Some(i) => {
                let had = self.seat_globals[i].keyboard.is_some();
                self.seat_globals[i].keyboard = None;
                had
            },
            None => false,
        }
    }

    pub fn get_keyboard(&self, seat_id: usize) -> (r: Option<KeyboardConfig>)
        ensures
            r == (match seat_of(self@.seats, seat_id) {
                Some(g) => g.keyboard,
                None => None,
            }),
    {
        match self.find_seat(seat_id) {
            Some(i) => self.seat_globals[i].keyboard,
            None => None,
        }
    }

    /// Gives seat `seat_id` a pointer whose cursor shows the default image,
    /// unless it has one already. Reports whether a pointer was added.
    pub fn add_cursor(&mut self, seat_id: usize) -> (r: bool)
        requires
            old(self)@.wf(),
        ensures
            final(self)@ == (ServerView {
                seats: seats_add_cursor(old(self)@.seats, seat_id),
                ..old(self)@
            }),
            r == (seat_of(old(self)@.seats, seat_id) matches Some(g) && g.cursor is None),
            final(self)@.wf(),
    {
        match self.find_seat(seat_id) {
            Some(i) => {
                if self.seat_globals[i].cursor.is_none() {
                    self.seat_globals[i].cursor = Some(Cursor { image: CursorImageStatus::Default });
                    true
                } else {
                    assert(self@.seats.update(i as int, self@.seats[i as int]) =~= self@.seats);
                    false
                }
            },
            None => false,
        }
    }

    pub fn del_cursor(&mut self, seat_id: usize) -> (r: bool)
        requires
            old(self)@.wf(),
        ensures
            final(self)@ == (ServerView {
                seats: seats_del_cursor(old(self)@.seats, seat_id),
                ..old(self)@
            }),
            r == old(self)@.has_cursor(seat_id),
            final(self)@.wf(),
    {
        match self.find_seat(seat_id) {
            Some(i) => {
                let had = self.seat_globals[i].cursor.is_some();
                self.seat_globals[i].cursor = None;
                had
            },
            None => false,
        }
    }

    pub fn get_cursor(&self, seat_id: usize) -> (r: Option<Cursor>)
        ensures
            r == (match seat_of(self@.seats, seat_id) {
                Some(g) => g.cursor,
                None => None,
            }),
    {
        match self.find_seat(seat_id) {
            Some(i) => self.seat_globals[i].cursor,
            None => None,
        }
    }

    /// Creates output global `output_id`, in place of any previous one of
    /// that id.
    pub fn create_output(
        &mut self,
        output_id: usize,
        name: String,
        physical_properties: PhysicalProperties,
    )
        requires
            old(self)@.wf(),
        ensures
            final(self)@ == (ServerView {
                outputs: outputs_create(old(self)@.outputs, output_id, name, physical_properties),
                ..old(self)@
            }),
            final(self)@.wf(),
    {
        let fresh = OutputGlobal { id: output_id, name, physical_properties };
        match self.find_output(output_id) {
            Some(i) => {
                self.output_globals.set(i, fresh);
            },
            None => {
                self.output_globals.push(fresh);
            },
        }
    }

    pub fn destroy_output(&mut self, output_id: usize)
        requires
            old(self)@.wf(),
        ensures
            final(self)@ == (ServerView {
                outputs: outputs_destroy(old(self)@.outputs, output_id),
                ..old(self)@
            }),
            final(self)@.wf(),
    {
        match self.find_output(output_id) {
            Some(i) => {
                self.output_globals.remove(i);
            },
            None => {},
        }
    }

    /// The output globals, in order of creation.
    pub fn list_outputs(&self) -> (r: &Vec<OutputGlobal>)
        ensures
            r@ == self@.outputs,
    {
        &self.output_globals
    }

    /// The data this library attached to surface `handle`.
    pub fn surface_data(&self, handle: ObjectHandle) -> (r: Option<SurfaceData>)
        ensures
            r == surface_of(self@.surfaces, handle),
    {
        match self.find_surface(handle) {
            Some(i) => Some(self.surfaces[i].data),
            None => None,
        }
    }

    /// The engine reports a new client connection: the client gets a fresh
    /// identity and an empty registry. `None` once identities are used up.
    pub fn client_connected(&mut self) -> (r: Option<ClientId>)
        requires
            old(self)@.wf(),
        ensures
            old(self)@.next_identity < usize::MAX ==> r == Some(
                ClientId(old(self)@.next_identity as usize),
            ) && final(self)@ == (ServerView {
                clients: old(self)@.clients.push(
                    ClientEntryView { id: r.unwrap(), resources: ClientResourcesView::empty() },
                ),
                next_identity: old(self)@.next_identity + 1,
                ..old(self)@
            }),
            old(self)@.next_identity >= usize::MAX ==> r.is_none() && final(self)@ == old(self)@,
            final(self)@.wf(),
    {
        match self.identities.allocate() {
            Some(n) => {
                let id = ClientId(n);
                proof {
                    if has_client(self@.clients, id) {
                        let k = choose|k: int| 0 <= k < self@.clients.len() && self@.clients[k].id == id;
                        assert(self@.clients[k].id.0 < old(self)@.next_identity);
                    }
                }
                self.clients.insert_client(id);
                Some(id)
            },
            None => None,
        }
    }

    /// The engine reports that client `client` disconnected: its registry and
    /// the data of its surfaces are dropped. Where removals are reported,
    /// each object its registry held is reported once by a `Destruction`
    /// record, then each of its surfaces that had an identity by a
    /// `SurfaceRemoved`.
    pub fn client_disconnected(&mut self, client: ClientId)
        requires
            old(self)@.wf(),
        ensures
            final(self)@ == old(self)@.after_disconnect(client),
            final(self)@.wf(),
    {
        let dropped = self.clients.remove_client(client);
        if self.parameters.removal_events {
            match dropped {
                Some(resources) => {
                    let records = removal_records_of(client, &resources);
                    self.dispatch_context.push_all(records);
                },
                None => {},
            }
        }
        let ghost s = self.surfaces@;
        let ghost q = self.dispatch_context@;
        let mut kept: Vec<SurfaceEntry> = Vec::new();
        let mut i: usize = 0;
        while i < self.surfaces.len()
            invariant
                self.surfaces@ == s,
                self.clients@ == without_client(old(self)@.clients, client),
                self.seat_globals@ == old(self)@.seats,
                self.output_globals@ == old(self)@.outputs,
                self.identities.next_id() == old(self)@.next_identity,
                self.parameters == old(self).parameters,
                i <= s.len(),
                kept@ == surfaces_kept(s.subrange(0, i as int), client),
                self.dispatch_context@ == (if self.parameters.removal_events {
                    q + surfaces_removed(s.subrange(0, i as int), client)
                } else {
                    q
                }),
            decreases s.len() - i,
        {
            let e = self.surfaces[i];
            proof {
                assert(s.subrange(0, i as int + 1).drop_last() =~= s.subrange(0, i as int));
                assert(s.subrange(0, i as int + 1).last() == e);
            }
            if e.handle.client == client {
                if self.parameters.removal_events {
                    match e.data.surface_id {
                        Some(id) => {
                            self.dispatch_context.push(WaylandRequest::SurfaceRemoved { id: id.0 });
                            assert(q + surfaces_removed(s.subrange(0, i as int + 1), client) =~= (q
                                + surfaces_removed(s.subrange(0, i as int), client)).push(
                                WaylandRequest::SurfaceRemoved { id: id.0 },
                            ));
                        },
                        None => {},
                    }
                }
            } else {
                kept.push(e);
            }
            i = i + 1;
        }
        proof {
            assert(s.subrange(0, s.len() as int) =~= s);
        }
        self.surfaces = kept;
        proof {
            lemma_disconnect_forgets(old(self)@, client);
        }
    }

    /// Attaches an identity and a role to surface `handle`.
    fn assign_role(&mut self, handle: ObjectHandle, kind: SurfaceKind)
        requires
            old(self)@.wf(),
        ensures
            final(self)@ == old(self)@.with_role(handle, kind),
            final(self)@.wf(),
    {
        let (present, data) = match self.find_surface(handle) {
            Some(i) => (Some(i), self.surfaces[i].data),
            None => (None, SurfaceData::new()),
        };
        let surface_id = match data.surface_id {
            Some(id) => Some(id),
            None => match self.identities.allocate() {
                Some(n) => Some(SurfaceId(n)),
                None => None,
            },
        };
        let role = match data.kind {
            Some(k) => Some(k),
            None => Some(kind),
        };
        let entry = SurfaceEntry { handle, data: SurfaceData { surface_id, kind: role } };
        match present {
            Some(i) => {
                self.surfaces.set(i, entry);
            },
            None => {
                self.surfaces.push(entry);
            },
        }
        proof {
            let o = old(self)@;
            let v = self@;
            assert(v == o.with_role(handle, kind));
            let last = if present.is_some() {
                present.unwrap() as int
            } else {
                o.surfaces.len() as int
            };
            assert(v.surfaces[last] == entry);
            assert forall|a: int| 0 <= a < v.surfaces.len() && a != last implies v.surfaces[a]
                == o.surfaces[a] && distinct_surfaces(v.surfaces[a], entry) by {
                if present.is_some() {
                    assert(distinct_surfaces(o.surfaces[a], o.surfaces[last]));
                } else {
                    assert(!(surface_is(handle))(o.surfaces[a]));
                }
            }
            assert forall|a: int, b: int|
                0 <= a < v.surfaces.len() && 0 <= b < v.surfaces.len() && a != b implies distinct_surfaces(
                v.surfaces[a],
                v.surfaces[b],
            ) by {
                if a != last && b != last {
                    assert(distinct_surfaces(o.surfaces[a], o.surfaces[b]));
                }
            }
        }
    }

    /// The engine reports a request of the xdg shell. A new toplevel or
    /// popup gives its surface an identity and a role. The request is queued
    /// for the host where the xdg shell is enabled; otherwise it is ignored.
    pub fn on_shell_request(&mut self, request: ShellRequest)
        requires
            old(self)@.wf(),
        ensures
            final(self)@ == old(self)@.after_shell_request(request),
            final(self)@.wf(),
    {
        if self.parameters.xdg_shell {
            match request {
                ShellRequest::NewToplevel { surface } => {
                    self.assign_role(surface, SurfaceKind::Toplevel);
                },
                ShellRequest::NewPopup { surface } => {
                    self.assign_role(surface, SurfaceKind::Popup);
                },
                ShellRequest::AckConfigure { .. } => {},
            }
            self.dispatch_context.push(WaylandRequest::XdgRequest { request });
        }
    }

    /// The engine reports a cursor image request on seat `seat_id`. The
    /// image surface gets an identity and the cursor role, the seat's cursor
    /// records the image, and the request is queued. Reports whether the
    /// seat has a cursor; where it has none, nothing changes.
    pub fn on_cursor_image(&mut self, seat_id: usize, status: CursorImageStatus) -> (r: bool)
        requires
            old(self)@.wf(),
        ensures
            final(self)@ == old(self)@.after_cursor_image(seat_id, status),
            r == old(self)@.has_cursor(seat_id),
            final(self)@.wf(),
    {
        match self.find_seat(seat_id) {
            Some(i) => {
                if self.seat_globals[i].cursor.is_some() {
                    self.seat_globals[i].cursor = Some(Cursor { image: status });
                    match status {
                        CursorImageStatus::Image(surface) => {
                            self.assign_role(surface, SurfaceKind::Cursor);
                        },
                        _ => {},
                    }
                    self.dispatch_context.push(
                        WaylandRequest::Seat {
                            seat: SeatId(seat_id),
                            request: SeatRequest::CursorImage(status),
                        },
                    );
                    true
                } else {
                    false
                }
            },
            None => false,
        }
    }

    /// The engine reports that the keyboard of seat `seat_id` moved its
    /// focus. Queued where the seat has a keyboard; reports whether it was.
    pub fn on_keyboard_focus(&mut self, seat_id: usize, focus: Option<ObjectHandle>) -> (r: bool)
        requires
            old(self)@.wf(),
        ensures
            r == old(self)@.has_keyboard(seat_id),
            final(self)@ == (if r {
                old(self)@.queued(
                    WaylandRequest::Seat {
                        seat: SeatId(seat_id),
                        request: SeatRequest::KeyboardFocus(focus),
                    },
                )
            } else {
                old(self)@
            }),
            final(self)@.wf(),
    {
        match self.find_seat(seat_id) {
            Some(i) => {
                if self.seat_globals[i].keyboard.is_some() {
                    self.dispatch_context.push(
                        WaylandRequest::Seat {
                            seat: SeatId(seat_id),
                            request: SeatRequest::KeyboardFocus(focus),
                        },
                    );
                    true
                } else {
                    false
                }
            },
            None => false,
        }
    }

    /// The engine reports a commit of surface `surface`.
    pub fn on_commit(&mut self, surface: ObjectHandle)
        requires
            old(self)@.wf(),
        ensures
            final(self)@ == old(self)@.queued(WaylandRequest::Commit { surface }),
            final(self)@.wf(),
    {
        self.dispatch_context.push(WaylandRequest::Commit { surface });
    }

    /// The engine reports an imported hardware buffer. Queued where buffer
    /// import is enabled; reports whether it was.
    pub fn on_dmabuf(&mut self, buffer: BufferInfo) -> (r: bool)
        requires
            old(self)@.wf(),
        ensures
            r == old(self)@.dma_buf,
            final(self)@ == (if r {
                old(self)@.queued(WaylandRequest::Dmabuf { buffer })
            } else {
                old(self)@
            }),
            final(self)@.wf(),
    {
        if self.parameters.dma_buf {
            self.dispatch_context.push(WaylandRequest::Dmabuf { buffer });
            true
        } else {
            false
        }
    }

    /// The engine reports drag-and-drop activity. Queued where drag-and-drop
    /// is enabled; reports whether it was.
    pub fn on_dnd(&mut self, dnd: DndEvent) -> (r: bool)
        requires
            old(self)@.wf(),
        ensures
            r == old(self)@.dnd,
            final(self)@ == (if r {
                old(self)@.queued(WaylandRequest::Dnd { dnd })
            } else {
                old(self)@
            }),
            final(self)@.wf(),
    {
        if self.parameters.dnd {
            self.dispatch_context.push(WaylandRequest::Dnd { dnd });
            true
        } else {
            false
        }
    }

    /// The engine reports that surface `handle` died: the data attached to
    /// it is dropped, and reported where removals are reported and it had
    /// an identity.
    pub fn on_surface_destroyed(&mut self, handle: ObjectHandle)
        requires
            old(self)@.wf(),
        ensures
            final(self)@ == old(self)@.after_surface_destroyed(handle),
            final(self)@.wf(),
    {
        match self.find_surface(handle) {
            Some(i) => {
                let e = self.surfaces.remove(i);
                if self.parameters.removal_events {
                    match e.data.surface_id {
                        Some(id) => {
                            self.dispatch_context.push(WaylandRequest::SurfaceRemoved { id: id.0 });
                        },
                        None => {},
                    }
                }
            },
            None => {},
        }
    }

    /// The engine reports an object that client `owner` created: it joins
    /// the client's registry and an `Instantiation` event is queued.
    pub fn on_instantiation(&mut self, owner: Option<ClientId>, event: Instantiation) -> (r:
        Bookkeeping)
        requires
            old(self)@.wf(),
        ensures
            final(self)@ == (ServerView {
                clients: match owner {
                    Some(id) => registry_instantiate(old(self)@.clients, id, event),
                    None => old(self)@.clients,
                },
                ..old(self)@.queued(WaylandRequest::Instantiation { client: owner, event })
            }),
            r == instantiation_filter::instantiation_outcome(old(self)@.clients, owner, event),
            final(self)@.wf(),
    {
        let r = instantiation_filter::filter(
            &mut self.dispatch_context,
            &mut self.clients,
            owner,
            event,
        );
        proof {
            lemma_registry_instantiate_ids(old(self)@.clients, owner, event);
            lemma_same_identities(old(self)@, self@);
        }
        r
    }

    /// The engine reports that an object of client `owner` died: it leaves
    /// the client's registry, and is reported where removals are reported.
    pub fn on_destruction(&mut self, owner: Option<ClientId>, event: Destruction) -> (r:
        Bookkeeping)
        requires
            old(self)@.wf(),
        ensures
            r == destruction_filter::destruction_outcome(old(self)@.clients, owner, event),
            final(self)@ == (ServerView {
                clients: match owner {
                    Some(id) => registry_destroy(old(self)@.clients, id, event),
                    None => old(self)@.clients,
                },
                requests: if old(self)@.report_removals && r == Bookkeeping::Recorded {
                    old(self)@.requests.push(
                        WaylandRequest::Destruction { client: owner.unwrap(), event },
                    )
                } else {
                    old(self)@.requests
                },
                ..old(self)@
            }),
            final(self)@.wf(),
    {
        let r = destruction_filter::filter(
            &mut self.dispatch_context,
            &mut self.clients,
            owner,
            event,
            self.parameters.removal_events,
        );
        proof {
            lemma_registry_destroy_ids(old(self)@.clients, owner, event);
            lemma_same_identities(old(self)@, self@);
        }
        r
    }
}

// Laws of the server.

/// Changing the seat found for `id` into one of the same id keeps it the
/// seat found for `id`.
proof fn lemma_update_seat(seats: Seq<SeatGlobal>, id: usize, g: SeatGlobal)
    requires
        exists_where(seats, seat_is(id)),
        g.id.0 == id,
    ensures
        ({
            let i = first_where(seats, seat_is(id));
            let t = seats.update(i, g);
            exists_where(t, seat_is(id)) && first_where(t, seat_is(id)) == i
        }),
{
    lemma_exists_first(seats, seat_is(id));
    let i = first_where(seats, seat_is(id));
    let t = seats.update(i, g);
    assert(is_first_where(t, seat_is(id), i));
    lemma_first_where(t, seat_is(id), i);
}

/// Identities are unique: no two clients, no two surfaces, and no client
/// and surface alive at once share one, and the next identity handed out
/// differs from all of them.
pub proof fn lemma_identity_uniqueness(v: ServerView)
    requires
        v.wf(),
    ensures
        forall|i: int, j: int|
            0 <= i < v.clients.len() && 0 <= j < v.clients.len() && i != j ==> v.clients[i].id
                != v.clients[j].id,
        forall|i: int, j: int|
            0 <= i < v.surfaces.len() && 0 <= j < v.surfaces.len() && i != j
                && v.surfaces[i].data.surface_id is Some ==> v.surfaces[i].data.surface_id
                != v.surfaces[j].data.surface_id,
        forall|i: int, j: int|
            0 <= i < v.surfaces.len() && 0 <= j < v.clients.len()
                && v.surfaces[i].data.surface_id is Some ==> v.surfaces[i].data.surface_id.unwrap().0
                != v.clients[j].id.0,
        forall|i: int| 0 <= i < v.clients.len() ==> v.clients[i].id.0 != v.next_identity,
        forall|i: int|
            0 <= i < v.surfaces.len() && v.surfaces[i].data.surface_id is Some
                ==> v.surfaces[i].data.surface_id.unwrap().0 != v.next_identity,
{
    assert forall|i: int, j: int|
        0 <= i < v.surfaces.len() && 0 <= j < v.surfaces.len() && i != j
            && v.surfaces[i].data.surface_id is Some implies v.surfaces[i].data.surface_id
        != v.surfaces[j].data.surface_id by {
        assert(distinct_surfaces(v.surfaces[i], v.surfaces[j]));
    }
}

/// Dispatch drains exactly what was queued: a second dispatch with nothing
/// queued in between hands out an empty batch and changes nothing.
pub proof fn lemma_dispatch_drains(v: ServerView)
    ensures
        v.drained().requests == Seq::<WaylandRequest>::empty(),
        v.drained().drained() == v.drained(),
{
}

/// Adding a keyboard to a seat that has none and taking it away again
/// restores the seat table; adding a keyboard to a seat that has one adds
/// no second keyboard and keeps the first one's settings.
pub proof fn lemma_keyboard_symmetry(
    seats: Seq<SeatGlobal>,
    id: usize,
    config: KeyboardConfig,
    other: KeyboardConfig,
)
    ensures
        (seat_of(seats, id) matches Some(g) && g.keyboard is None) ==> seats_del_keyboard(
            seats_add_keyboard(seats, id, config),
            id,
        ) == seats,
        seat_of(seats_del_keyboard(seats_add_keyboard(seats, id, config), id), id) matches Some(g)
            ==> g.keyboard is None,
        seats_add_keyboard(seats_add_keyboard(seats, id, config), id, other) == seats_add_keyboard(
            seats,
            id,
            config,
        ),
{
    if exists_where(seats, seat_is(id)) {
        lemma_exists_first(seats, seat_is(id));
        let i = first_where(seats, seat_is(id));
        let g = seats[i];
        let added = if g.keyboard is None {
            SeatGlobal { keyboard: Some(config), ..g }
        } else {
            g
        };
        lemma_update_seat(seats, id, added);
        let t = seats.update(i, added);
        assert(seats_add_keyboard(seats, id, config) == t);
        let removed = SeatGlobal { keyboard: None, ..added };
        lemma_update_seat(t, id, removed);
        assert(seats_del_keyboard(t, id) == t.update(i, removed));
        lemma_update_seat(t, id, added);
        assert(seats_add_keyboard(t, id, other) =~= t);
        if g.keyboard is None {
            assert(removed == g);
            assert(t.update(i, removed) =~= seats);
        }
        lemma_update_seat(t.update(i, removed), id, removed);
        assert(t.update(i, removed).update(i, removed) =~= t.update(i, removed));
    }
}

/// After client `c` disconnects, it has no registry and none of the
/// remaining surfaces is its own. Where removals are reported, the events
/// appended are one `Destruction` record for each object its registry held
/// (each seat object among them), then one `SurfaceRemoved` for each of its
/// surfaces that had an identity; otherwise none.
pub proof fn lemma_disconnect_forgets(v: ServerView, c: ClientId)
    requires
        v.wf(),
    ensures
        !has_client(v.after_disconnect(c).clients, c),
        forall|k: int|
            0 <= k < v.after_disconnect(c).surfaces.len() ==> #[trigger] v.after_disconnect(
                c,
            ).surfaces[k].handle.client != c,
        v.after_disconnect(c).requests == (if v.report_removals {
            v.requests + registry_removed(v.clients, c) + surfaces_removed(v.surfaces, c)
        } else {
            v.requests
        }),
        v.after_disconnect(c).wf(),
{
    lemma_without_client(v.clients, c);
    lemma_surfaces_kept(v.surfaces, c);
    let w = v.after_disconnect(c);
    assert forall|k: int| 0 <= k < w.clients.len() implies w.clients[k].id.0 < w.next_identity by {
        let j = choose|j: int| 0 <= j < v.clients.len() && v.clients[j] == w.clients[k];
    }
    assert forall|k: int| 0 <= k < w.surfaces.len() && w.surfaces[k].data.surface_id is Some
        implies w.surfaces[k].data.surface_id.unwrap().0 < w.next_identity by {
        assert(v.surfaces.contains(w.surfaces[k]));
        let j = choose|j: int| 0 <= j < v.surfaces.len() && v.surfaces[j] == w.surfaces[k];
    }
    assert forall|k: int, j: int|
        0 <= k < w.surfaces.len() && 0 <= j < w.clients.len() && w.surfaces[k].data.surface_id is Some
        implies w.surfaces[k].data.surface_id.unwrap().0 != w.clients[j].id.0 by {
        assert(v.surfaces.contains(w.surfaces[k]));
        let js = choose|js: int| 0 <= js < v.surfaces.len() && v.surfaces[js] == w.surfaces[k];
        let jc = choose|jc: int| 0 <= jc < v.clients.len() && v.clients[jc] == w.clients[j];
    }
}

/// A surface that takes a role without having an identity gets the
/// allocator's next identity: it differs from the identity of every other
/// surface and of every client alive, and every identity handed out later
/// is larger. Running out of identities needs `usize::MAX` of them.
pub proof fn lemma_new_surface_identity_fresh(v: ServerView, handle: ObjectHandle, kind: SurfaceKind)
    requires
        v.wf(),
        v.next_identity < usize::MAX,
        !(surface_of(v.surfaces, handle) matches Some(d) && d.surface_id is Some),
    ensures
        ({
            let w = v.with_role(handle, kind);
            let id = SurfaceId(v.next_identity as usize);
            &&& w.next_identity == v.next_identity + 1
            &&& exists|k: int|
                0 <= k < w.surfaces.len() && w.surfaces[k].handle == handle
                    && w.surfaces[k].data.surface_id == Some(id)
            &&& forall|j: int|
                0 <= j < w.surfaces.len() && w.surfaces[j].handle != handle
                    ==> w.surfaces[j].data.surface_id != Some(id)
            &&& forall|j: int| 0 <= j < w.clients.len() ==> w.clients[j].id.0 != id.0
        }),
{
    let w = v.with_role(handle, kind);
    let id = SurfaceId(v.next_identity as usize);
    if exists_where(v.surfaces, surface_is(handle)) {
        lemma_exists_first(v.surfaces, surface_is(handle));
        let i = first_where(v.surfaces, surface_is(handle));
        assert(w.surfaces[i].handle == handle && w.surfaces[i].data.surface_id == Some(id));
        assert forall|j: int|
            0 <= j < w.surfaces.len() && w.surfaces[j].handle != handle implies w.surfaces[j].data.surface_id
            != Some(id) by {
            assert(w.surfaces[j] == v.surfaces[j]);
        }
    } else {
        let k = v.surfaces.len() as int;
        assert(w.surfaces[k].handle == handle && w.surfaces[k].data.surface_id == Some(id));
        assert forall|j: int|
            0 <= j < w.surfaces.len() && w.surfaces[j].handle != handle implies w.surfaces[j].data.surface_id
            != Some(id) by {
            assert(w.surfaces[j] == v.surfaces[j]);
        }
    }
}

} // verus!
