use vstd::prelude::*;

use crate::definitions::{
    Bookkeeping, Capability, ClientId, Destruction, Instantiation, ObjectKind, SeatId,
};
use crate::positions::{exists_where, first_where, lemma_exists_first, lemma_first_where};

verus! {

// Object numbers held in an ordered list.

pub open spec fn value_is(x: u32) -> spec_fn(u32) -> bool {
    |y: u32| y == x
}

/// `s` without the first occurrence of `x`; `s` itself where `x` is absent.
pub open spec fn remove_first(s: Seq<u32>, x: u32) -> Seq<u32> {
    if s.contains(x) {
        s.remove(first_where(s, value_is(x)))
    } else {
        s
    }
}

/// Removes the first occurrence of `object` from `list` and reports whether
/// there was one.
pub fn remove_object(list: &mut Vec<u32>, object: u32) -> (r: bool)
    ensures
        final(list)@ == remove_first(old(list)@, object),
        r == old(list)@.contains(object),
{
    let mut i: usize = 0;
    while i < list.len()
        invariant
            list@ == old(list)@,
            i <= list@.len(),
            forall|j: int| 0 <= j < i ==> !(value_is(object))(list@[j]),
        decreases list@.len() - i,
    {
        if list[i] == object {
            proof {
                lemma_first_where(list@, value_is(object), i as int);
            }
            list.remove(i);
            return true;
        }
        i = i + 1;
    }
    assert(!list@.contains(object));
    false
}

// Seats of one client and the capability objects created from them.

/// A seat object of a client, with the capability objects created from it.
#[derive(Debug)]
pub struct SeatResources {
    /// Protocol number of the seat object.
    pub handle: u32,
    /// The seat global that the object was created from.
    pub global: Option<SeatId>,
    pub pointers: Vec<u32>,
    pub keyboards: Vec<u32>,
    pub touchs: Vec<u32>,
}

pub struct SeatView {
    pub handle: u32,
    pub global: Option<SeatId>,
    pub pointers: Seq<u32>,
    pub keyboards: Seq<u32>,
    pub touchs: Seq<u32>,
}

impl View for SeatResources {
    type V = SeatView;

    open spec fn view(&self) -> SeatView {
        SeatView {
            handle: self.handle,
            global: self.global,
            pointers: self.pointers@,
            keyboards: self.keyboards@,
            touchs: self.touchs@,
        }
    }
}

impl SeatView {
    pub open spec fn fresh(handle: u32, global: Option<SeatId>) -> SeatView {
        SeatView {
            handle,
            global,
            pointers: Seq::empty(),
            keyboards: Seq::empty(),
            touchs: Seq::empty(),
        }
    }

    /// The live objects of one capability.
    pub open spec fn capability(self, c: Capability) -> Seq<u32> {
        match c {
            Capability::Pointer => self.pointers,
            Capability::Keyboard => self.keyboards,
            Capability::Touch => self.touchs,
        }
    }

    pub open spec fn with_capability(self, c: Capability, l: Seq<u32>) -> SeatView {
        match c {
            Capability::Pointer => SeatView { pointers: l, ..self },
            Capability::Keyboard => SeatView { keyboards: l, ..self },
            Capability::Touch => SeatView { touchs: l, ..self },
        }
    }
}

/// The seat global that a client's seat object was created from.
pub fn seat_id(seat: &SeatResources) -> (r: Option<usize>)
    ensures
        r == (match seat.global {
            Some(id) => Some(id.0),
            None => None,
        }),
{
    match seat.global {
        Some(id) => Some(id.into()),
        None => None,
    }
}

impl SeatResources {
    pub fn new(handle: u32, global: Option<SeatId>) -> (r: SeatResources)
        ensures
            r@ == SeatView::fresh(handle, global),
    {
        SeatResources {
            handle,
            global,
            pointers: Vec::new(),
            keyboards: Vec::new(),
            touchs: Vec::new(),
        }
    }

    pub fn push_capability(&mut self, c: Capability, object: u32)
        ensures
            final(self)@ == old(self)@.with_capability(c, old(self)@.capability(c).push(object)),
    {
        match c {
            Capability::Pointer => self.pointers.push(object),
            Capability::Keyboard => self.keyboards.push(object),
            Capability::Touch => self.touchs.push(object),
        }
    }

    pub fn remove_capability(&mut self, c: Capability, object: u32) -> (r: bool)
        ensures
            final(self)@ == old(self)@.with_capability(
                c,
                remove_first(old(self)@.capability(c), object),
            ),
            r == old(self)@.capability(c).contains(object),
    {
        match c {
            Capability::Pointer => remove_object(&mut self.pointers, object),
            Capability::Keyboard => remove_object(&mut self.keyboards, object),
            Capability::Touch => remove_object(&mut self.touchs, object),
        }
    }

    pub fn holds(&self, c: Capability, object: u32) -> (r: bool)
        ensures
            r == self@.capability(c).contains(object),
    {
        let list = match c {
            Capability::Pointer => &self.pointers,
            Capability::Keyboard => &self.keyboards,
            Capability::Touch => &self.touchs,
        };
        let mut i: usize = 0;
        while i < list.len()
            invariant
                list@ == self@.capability(c),
                i <= list@.len(),
                forall|j: int| 0 <= j < i ==> list@[j] != object,
            decreases list@.len() - i,
        {
            if list[i] == object {
                assert(list@[i as int] == object);
                return true;
            }
            i = i + 1;
        }
        false
    }
}

pub open spec fn seat_handle_is(handle: u32) -> spec_fn(SeatView) -> bool {
    |s: SeatView| s.handle == handle
}

pub open spec fn has_seat(seats: Seq<SeatView>, handle: u32) -> bool {
    exists_where(seats, seat_handle_is(handle))
}

/// The first seat in `seats` whose object is `handle`.
pub open spec fn first_seat(seats: Seq<SeatView>, handle: u32) -> int {
    first_where(seats, seat_handle_is(handle))
}

pub open spec fn holds_capability(c: Capability, object: u32) -> spec_fn(SeatView) -> bool {
    |s: SeatView| s.capability(c).contains(object)
}

pub open spec fn has_holder(seats: Seq<SeatView>, c: Capability, object: u32) -> bool {
    exists_where(seats, holds_capability(c, object))
}

/// The first seat in `seats` that holds `object` among its capability
/// objects of kind `c`.
pub open spec fn first_holder(seats: Seq<SeatView>, c: Capability, object: u32) -> int {
    first_where(seats, holds_capability(c, object))
}

// The live protocol objects of one client.

/// Object kinds of which a client holds at most one live instance: a new
/// one takes the place of the previous one.
pub open spec fn is_singleton(kind: ObjectKind) -> bool {
    match kind {
        ObjectKind::Compositor | ObjectKind::Subcompositor | ObjectKind::Shm
        | ObjectKind::XdgWmBase => true,
        _ => false,
    }
}

/// The live protocol objects of one connected client.
#[derive(Debug)]
pub struct ClientResources {
    pub compositor: Option<u32>,
    pub subcompositor: Option<u32>,
    pub shm: Option<u32>,
    pub xdg_wm_base: Option<u32>,
    pub shells: Vec<u32>,
    pub outputs: Vec<u32>,
    pub shm_pools: Vec<u32>,
    pub xdg_surfaces: Vec<u32>,
    pub xdg_popups: Vec<u32>,
    pub xdg_positioners: Vec<u32>,
    pub xdg_top_levels: Vec<u32>,
    pub seats: Vec<SeatResources>,
}

pub struct ClientResourcesView {
    pub compositor: Option<u32>,
    pub subcompositor: Option<u32>,
    pub shm: Option<u32>,
    pub xdg_wm_base: Option<u32>,
    pub shells: Seq<u32>,
    pub outputs: Seq<u32>,
    pub shm_pools: Seq<u32>,
    pub xdg_surfaces: Seq<u32>,
    pub xdg_popups: Seq<u32>,
    pub xdg_positioners: Seq<u32>,
    pub xdg_top_levels: Seq<u32>,
    pub seats: Seq<SeatView>,
}

impl View for ClientResources {
    type V = ClientResourcesView;

    open spec fn view(&self) -> ClientResourcesView {
        ClientResourcesView {
            compositor: self.compositor,
            subcompositor: self.subcompositor,
            shm: self.shm,
            xdg_wm_base: self.xdg_wm_base,
            shells: self.shells@,
            outputs: self.outputs@,
            shm_pools: self.shm_pools@,
            xdg_surfaces: self.xdg_surfaces@,
            xdg_popups: self.xdg_popups@,
            xdg_positioners: self.xdg_positioners@,
            xdg_top_levels: self.xdg_top_levels@,
            seats: self.seats@.map_values(|s: SeatResources| s@),
        }
    }
}

impl ClientResourcesView {
    pub open spec fn empty() -> ClientResourcesView {
        ClientResourcesView {
            compositor: None,
            subcompositor: None,
            shm: None,
            xdg_wm_base: None,
            shells: Seq::empty(),
            outputs: Seq::empty(),
            shm_pools: Seq::empty(),
            xdg_surfaces: Seq::empty(),
            xdg_popups: Seq::empty(),
            xdg_positioners: Seq::empty(),
            xdg_top_levels: Seq::empty(),
            seats: Seq::empty(),
        }
    }

    /// The slot of a singleton kind.
    pub open spec fn single(self, kind: ObjectKind) -> Option<u32> {
        match kind {
            ObjectKind::Compositor => self.compositor,
            ObjectKind::Subcompositor => self.subcompositor,
            ObjectKind::Shm => self.shm,
            ObjectKind::XdgWmBase => self.xdg_wm_base,
            _ => None,
        }
    }

    pub open spec fn with_single(self, kind: ObjectKind, v: Option<u32>) -> ClientResourcesView {
        match kind {
            ObjectKind::Compositor => ClientResourcesView { compositor: v, ..self },
            ObjectKind::Subcompositor => ClientResourcesView { subcompositor: v, ..self },
            ObjectKind::Shm => ClientResourcesView { shm: v, ..self },
            ObjectKind::XdgWmBase => ClientResourcesView { xdg_wm_base: v, ..self },
            _ => self,
        }
    }

    /// The ordered list of a multi-instance kind.
    pub open spec fn list(self, kind: ObjectKind) -> Seq<u32> {
        match kind {
            ObjectKind::Shell => self.shells,
            ObjectKind::Output => self.outputs,
            ObjectKind::ShmPool => self.shm_pools,
            ObjectKind::XdgSurface => self.xdg_surfaces,
            ObjectKind::XdgPopup => self.xdg_popups,
            ObjectKind::XdgPositioner => self.xdg_positioners,
            ObjectKind::XdgToplevel => self.xdg_top_levels,
            _ => Seq::empty(),
        }
    }

    pub open spec fn with_list(self, kind: ObjectKind, l: Seq<u32>) -> ClientResourcesView {
        match kind {
            ObjectKind::Shell => ClientResourcesView { shells: l, ..self },
            ObjectKind::Output => ClientResourcesView { outputs: l, ..self },
            ObjectKind::ShmPool => ClientResourcesView { shm_pools: l, ..self },
            ObjectKind::XdgSurface => ClientResourcesView { xdg_surfaces: l, ..self },
            ObjectKind::XdgPopup => ClientResourcesView { xdg_popups: l, ..self },
            ObjectKind::XdgPositioner => ClientResourcesView { xdg_positioners: l, ..self },
            ObjectKind::XdgToplevel => ClientResourcesView { xdg_top_levels: l, ..self },
            _ => self,
        }
    }

    /// Whether `object` is live in the slot of `kind`.
    pub open spec fn holds(self, kind: ObjectKind, object: u32) -> bool {
        if is_singleton(kind) {
            self.single(kind) == Some(object)
        } else {
            self.list(kind).contains(object)
        }
    }

    /// A singleton kind takes the new object in place of any previous one;
    /// a multi-instance kind appends it.
    pub open spec fn register(self, kind: ObjectKind, object: u32) -> ClientResourcesView {
        if is_singleton(kind) {
            self.with_single(kind, Some(object))
        } else {
            self.with_list(kind, self.list(kind).push(object))
        }
    }

    /// Removes the entry that is `object`; nothing changes where there is none.
    pub open spec fn unregister(self, kind: ObjectKind, object: u32) -> ClientResourcesView {
        if is_singleton(kind) {
            if self.single(kind) == Some(object) {
                self.with_single(kind, None)
            } else {
                self
            }
        } else {
            self.with_list(kind, remove_first(self.list(kind), object))
        }
    }

    pub open spec fn add_seat(self, handle: u32, global: Option<SeatId>) -> ClientResourcesView {
        ClientResourcesView { seats: self.seats.push(SeatView::fresh(handle, global)), ..self }
    }

    pub open spec fn remove_seat(self, handle: u32) -> ClientResourcesView {
        if has_seat(self.seats, handle) {
            ClientResourcesView {
                seats: self.seats.remove(first_seat(self.seats, handle)),
                ..self
            }
        } else {
            self
        }
    }

    /// A capability object joins the first seat whose object is `seat`;
    /// nothing changes where the client has no such seat.
    pub open spec fn add_capability(self, c: Capability, seat: u32, object: u32) -> ClientResourcesView {
        if has_seat(self.seats, seat) {
            let i = first_seat(self.seats, seat);
            ClientResourcesView {
                seats: self.seats.update(
                    i,
                    self.seats[i].with_capability(c, self.seats[i].capability(c).push(object)),
                ),
                ..self
            }
        } else {
            self
        }
    }

    /// A capability object leaves the first seat that holds it.
    pub open spec fn remove_capability(self, c: Capability, object: u32) -> ClientResourcesView {
        if has_holder(self.seats, c, object) {
            let i = first_holder(self.seats, c, object);
            ClientResourcesView {
                seats: self.seats.update(
                    i,
                    self.seats[i].with_capability(
                        c,
                        remove_first(self.seats[i].capability(c), object),
                    ),
                ),
                ..self
            }
        } else {
            self
        }
    }

    /// The registry after an object is created.
    pub open spec fn instantiate(self, event: Instantiation) -> ClientResourcesView {
        match event {
            Instantiation::Object { kind, object, .. } => self.register(kind, object),
            Instantiation::Seat { object, global, .. } => self.add_seat(object, global),
            Instantiation::Capability { capability, seat, object } => self.add_capability(
                capability,
                seat,
                object,
            ),
        }
    }

    /// Whether the registry has a place for the object that `event` creates:
    /// a capability object needs its seat.
    pub open spec fn accepts(self, event: Instantiation) -> bool {
        match event {
            Instantiation::Capability { seat, .. } => has_seat(self.seats, seat),
            _ => true,
        }
    }

    /// The registry after an object dies.
    pub open spec fn destroy(self, event: Destruction) -> ClientResourcesView {
        match event {
            Destruction::Object { kind, object } => self.unregister(kind, object),
            Destruction::Seat { object } => self.remove_seat(object),
            Destruction::Capability { capability, object } => self.remove_capability(
                capability,
                object,
            ),
        }
    }

    /// Whether the object that `event` reports dead is live in the registry.
    pub open spec fn tracks(self, event: Destruction) -> bool {
        match event {
            Destruction::Object { kind, object } => self.holds(kind, object),
            Destruction::Seat { object } => has_seat(self.seats, object),
            Destruction::Capability { capability, object } => has_holder(
                self.seats,
                capability,
                object,
            ),
        }
    }
}

impl ClientResources {
    pub fn new() -> (r: ClientResources)
        ensures
            r@ == ClientResourcesView::empty(),
    {
        let r = ClientResources {
            compositor: None,
            subcompositor: None,
            shm: None,
            xdg_wm_base: None,
            shells: Vec::new(),
            outputs: Vec::new(),
            shm_pools: Vec::new(),
            xdg_surfaces: Vec::new(),
            xdg_popups: Vec::new(),
            xdg_positioners: Vec::new(),
            xdg_top_levels: Vec::new(),
            seats: Vec::new(),
        };
        assert(r@.seats =~= Seq::<SeatView>::empty());
        r
    }

    pub fn register(&mut self, kind: ObjectKind, object: u32)
        ensures
            final(self)@ == old(self)@.register(kind, object),
    {
        match kind {
            ObjectKind::Compositor => self.compositor = Some(object),
            ObjectKind::Subcompositor => self.subcompositor = Some(object),
            ObjectKind::Shm => self.shm = Some(object),
            ObjectKind::XdgWmBase => self.xdg_wm_base = Some(object),
            ObjectKind::Shell => self.shells.push(object),
            ObjectKind::Output => self.outputs.push(object),
            ObjectKind::ShmPool => self.shm_pools.push(object),
            ObjectKind::XdgSurface => self.xdg_surfaces.push(object),
            ObjectKind::XdgPopup => self.xdg_popups.push(object),
            ObjectKind::XdgPositioner => self.xdg_positioners.push(object),
            ObjectKind::XdgToplevel => self.xdg_top_levels.push(object),
        }
    }

    fn clear_single(slot: &mut Option<u32>, object: u32) -> (r: bool)
        ensures
            r == (*old(slot) == Some(object)),
            *final(slot) == (if r {
                None
            } else {
                *old(slot)
            }),
    {
        if *slot == Some(object) {
            *slot = None;
            true
        } else {
            false
        }
    }

    pub fn unregister(&mut self, kind: ObjectKind, object: u32) -> (r: bool)
        ensures
            final(self)@ == old(self)@.unregister(kind, object),
            r == old(self)@.holds(kind, object),
    {
        match kind {
            ObjectKind::Compositor => Self::clear_single(&mut self.compositor, object),
            ObjectKind::Subcompositor => Self::clear_single(&mut self.subcompositor, object),
            ObjectKind::Shm => Self::clear_single(&mut self.shm, object),
            ObjectKind::XdgWmBase => Self::clear_single(&mut self.xdg_wm_base, object),
            ObjectKind::Shell => remove_object(&mut self.shells, object),
            ObjectKind::Output => remove_object(&mut self.outputs, object),
            ObjectKind::ShmPool => remove_object(&mut self.shm_pools, object),
            ObjectKind::XdgSurface => remove_object(&mut self.xdg_surfaces, object),
            ObjectKind::XdgPopup => remove_object(&mut self.xdg_popups, object),
            ObjectKind::XdgPositioner => remove_object(&mut self.xdg_positioners, object),
            ObjectKind::XdgToplevel => remove_object(&mut self.xdg_top_levels, object),
        }
    }

    pub fn add_seat(&mut self, handle: u32, global: Option<SeatId>)
        ensures
            final(self)@ == old(self)@.add_seat(handle, global),
    {
        let seat = SeatResources::new(handle, global);
        self.seats.push(seat);
        assert(self@.seats =~= old(self)@.seats.push(SeatView::fresh(handle, global)));
    }

    /// Position of the first seat whose object is `handle`, if any.
    fn find_seat(&self, handle: u32) -> (r: Option<usize>)
        ensures
            r.is_some() <==> has_seat(self@.seats, handle),
            r.is_some() ==> r.unwrap() < self.seats@.len() && r.unwrap() as int == first_seat(
                self@.seats,
                handle,
            ),
    {
        let mut i: usize = 0;
        while i < self.seats.len()
            invariant
                i <= self.seats@.len(),
                forall|j: int| 0 <= j < i ==> !(seat_handle_is(handle))(self@.seats[j]),
            decreases self.seats@.len() - i,
        {
            if self.seats[i].handle == handle {
                proof {
                    lemma_first_where(self@.seats, seat_handle_is(handle), i as int);
                }
                return Some(i);
            }
            i = i + 1;
        }
        None
    }

    pub fn remove_seat(&mut self, handle: u32) -> (r: bool)
        ensures
            final(self)@ == old(self)@.remove_seat(handle),
            r == has_seat(old(self)@.seats, handle),
    {
        match self.find_seat(handle) {
            Some(i) => {
                self.seats.remove(i);
                assert(self@.seats =~= old(self)@.seats.remove(i as int));
                true
            },
            None => false,
        }
    }

    pub fn add_capability(&mut self, c: Capability, seat: u32, object: u32) -> (r: bool)
        ensures
            final(self)@ == old(self)@.add_capability(c, seat, object),
            r == has_seat(old(self)@.seats, seat),
    {
        match self.find_seat(seat) {
            Some(i) => {
                self.seats[i].push_capability(c, object);
                assert(self@.seats =~= old(self)@.seats.update(
                    i as int,
                    old(self)@.seats[i as int].with_capability(
                        c,
                        old(self)@.seats[i as int].capability(c).push(object),
                    ),
                ));
                true
            },
            None => false,
        }
    }

    pub fn remove_capability(&mut self, c: Capability, object: u32) -> (r: bool)
        ensures
            final(self)@ == old(self)@.remove_capability(c, object),
            r == has_holder(old(self)@.seats, c, object),
    {
        let mut i: usize = 0;
        while i < self.seats.len()
            invariant
                self@ == old(self)@,
                i <= self.seats@.len(),
                forall|j: int| 0 <= j < i ==> !(holds_capability(c, object))(self@.seats[j]),
            decreases self.seats@.len() - i,
        {
            if self.seats[i].holds(c, object) {
                proof {
                    lemma_first_where(self@.seats, holds_capability(c, object), i as int);
                }
                self.seats[i].remove_capability(c, object);
                assert(self@.seats =~= old(self)@.seats.update(
                    i as int,
                    old(self)@.seats[i as int].with_capability(
                        c,
                        remove_first(old(self)@.seats[i as int].capability(c), object),
                    ),
                ));
                return true;
            }
            i = i + 1;
        }
        false
    }

    /// Records a newly created object; reports whether the registry had a
    /// place for it.
    pub fn instantiate(&mut self, event: Instantiation) -> (r: bool)
        ensures
            final(self)@ == old(self)@.instantiate(event),
            r == old(self)@.accepts(event),
    {
        match event {
            Instantiation::Object { kind, object, .. } => {
                self.register(kind, object);
                true
            },
            Instantiation::Seat { object, global, .. } => {
                self.add_seat(object, global);
                true
            },
            Instantiation::Capability { capability, seat, object } => {
                self.add_capability(capability, seat, object)
            },
        }
    }

    /// Forgets an object that died; reports whether it was there.
    pub fn destroy(&mut self, event: Destruction) -> (r: bool)
        ensures
            final(self)@ == old(self)@.destroy(event),
            r == old(self)@.tracks(event),
    {
        match event {
            Destruction::Object { kind, object } => self.unregister(kind, object),
            Destruction::Seat { object } => self.remove_seat(object),
            Destruction::Capability { capability, object } => self.remove_capability(
                capability,
                object,
            ),
        }
    }
}


// All connected clients.

pub open spec fn client_is(id: ClientId) -> spec_fn(ClientEntryView) -> bool {
    |e: ClientEntryView| e.id == id
}

pub open spec fn has_client(s: Seq<ClientEntryView>, id: ClientId) -> bool {
    exists_where(s, client_is(id))
}

/// The first entry in `s` of client `id`.
pub open spec fn first_client(s: Seq<ClientEntryView>, id: ClientId) -> int {
    first_where(s, client_is(id))
}

/// A client that has an entry has a first one.
pub proof fn lemma_has_client_first(s: Seq<ClientEntryView>, id: ClientId)
    requires
        has_client(s, id),
    ensures
        0 <= first_client(s, id) < s.len(),
        s[first_client(s, id)].id == id,
        forall|j: int| 0 <= j < first_client(s, id) ==> s[j].id != id,
{
    lemma_exists_first(s, client_is(id));
}

/// Creating an object leaves the clients' identities and order as they were.
pub proof fn lemma_registry_instantiate_ids(
    s: Seq<ClientEntryView>,
    owner: Option<ClientId>,
    event: Instantiation,
)
    ensures
        ({
            let r = match owner {
                Some(id) => registry_instantiate(s, id, event),
                None => s,
            };
            r.len() == s.len() && forall|i: int| 0 <= i < s.len() ==> r[i].id == s[i].id
        }),
{
    if let Some(id) = owner {
        if has_client(s, id) {
            lemma_has_client_first(s, id);
        }
    }
}

/// Destroying an object leaves the clients' identities and order as they were.
pub proof fn lemma_registry_destroy_ids(
    s: Seq<ClientEntryView>,
    owner: Option<ClientId>,
    event: Destruction,
)
    ensures
        ({
            let r = match owner {
                Some(id) => registry_destroy(s, id, event),
                None => s,
            };
            r.len() == s.len() && forall|i: int| 0 <= i < s.len() ==> r[i].id == s[i].id
        }),
{
    if let Some(id) = owner {
        if has_client(s, id) {
            lemma_has_client_first(s, id);
        }
    }
}

/// No client has two entries.
pub open spec fn unique_clients(s: Seq<ClientEntryView>) -> bool {
    forall|i: int, j: int| 0 <= i < s.len() && 0 <= j < s.len() && i != j ==> s[i].id != s[j].id
}

/// Dropping the registry of client `id` leaves no entry of that client, and
/// keeps the others.
pub proof fn lemma_without_client(s: Seq<ClientEntryView>, id: ClientId)
    requires
        unique_clients(s),
    ensures
        unique_clients(without_client(s, id)),
        !has_client(without_client(s, id), id),
        forall|k: int|
            0 <= k < without_client(s, id).len() ==> s.contains(#[trigger] without_client(s, id)[k]),
{
    if has_client(s, id) {
        lemma_has_client_first(s, id);
        let m = first_client(s, id);
        let r = s.remove(m);
        assert forall|k: int| 0 <= k < r.len() implies s.contains(#[trigger] r[k]) by {
            if k < m {
                assert(r[k] == s[k]);
            } else {
                assert(r[k] == s[k + 1]);
            }
        }
        assert forall|a: int, b: int|
            0 <= a < r.len() && 0 <= b < r.len() && a != b implies r[a].id != r[b].id by {
            let a2 = if a < m {
                a
            } else {
                a + 1
            };
            let b2 = if b < m {
                b
            } else {
                b + 1
            };
            assert(r[a] == s[a2] && r[b] == s[b2]);
        }
        if has_client(r, id) {
            let k = choose|k: int| 0 <= k < r.len() && r[k].id == id;
            let k2 = if k < m {
                k
            } else {
                k + 1
            };
            assert(r[k] == s[k2]);
            assert(s[m].id == id);
        }
    }
}

/// The registry of client `id`, where it has one.
pub open spec fn resources_of(s: Seq<ClientEntryView>, id: ClientId) -> Option<ClientResourcesView> {
    if has_client(s, id) {
        Some(s[first_client(s, id)].resources)
    } else {
        None
    }
}

/// A newly connected client gets an empty registry; one that has a
/// registry keeps it.
pub open spec fn with_client(s: Seq<ClientEntryView>, id: ClientId) -> Seq<ClientEntryView> {
    if has_client(s, id) {
        s
    } else {
        s.push(ClientEntryView { id, resources: ClientResourcesView::empty() })
    }
}

pub open spec fn without_client(s: Seq<ClientEntryView>, id: ClientId) -> Seq<ClientEntryView> {
    if has_client(s, id) {
        s.remove(first_client(s, id))
    } else {
        s
    }
}

/// The registries after client `id` creates an object; nothing changes
/// where the client has no registry.
pub open spec fn registry_instantiate(
    s: Seq<ClientEntryView>,
    id: ClientId,
    event: Instantiation,
) -> Seq<ClientEntryView> {
    if has_client(s, id) {
        let i = first_client(s, id);
        s.update(i, ClientEntryView { id, resources: s[i].resources.instantiate(event) })
    } else {
        s
    }
}

/// The registries after an object of client `id` dies.
pub open spec fn registry_destroy(
    s: Seq<ClientEntryView>,
    id: ClientId,
    event: Destruction,
) -> Seq<ClientEntryView> {
    if has_client(s, id) {
        let i = first_client(s, id);
        s.update(i, ClientEntryView { id, resources: s[i].resources.destroy(event) })
    } else {
        s
    }
}

/// The registry of one connected client.
#[derive(Debug)]
pub struct ClientEntry {
    pub id: ClientId,
    pub resources: ClientResources,
}

pub struct ClientEntryView {
    pub id: ClientId,
    pub resources: ClientResourcesView,
}

impl View for ClientEntry {
    type V = ClientEntryView;

    open spec fn view(&self) -> ClientEntryView {
        ClientEntryView { id: self.id, resources: self.resources@ }
    }
}

/// The registries of all connected clients, in order of connection.
#[derive(Debug)]
pub struct ClientRegistry {
    entries: Vec<ClientEntry>,
}

impl View for ClientRegistry {
    type V = Seq<ClientEntryView>;

    closed spec fn view(&self) -> Seq<ClientEntryView> {
        self.entries@.map_values(|e: ClientEntry| e@)
    }
}

impl ClientRegistry {
    pub fn new() -> (r: ClientRegistry)
        ensures
            r@ == Seq::<ClientEntryView>::empty(),
    {
        let r = ClientRegistry { entries: Vec::new() };
        assert(r@ =~= Seq::<ClientEntryView>::empty());
        r
    }

    pub fn len(&self) -> (r: usize)
        ensures
            r == self@.len(),
    {
        self.entries.len()
    }

    fn find(&self, id: ClientId) -> (r: Option<usize>)
        ensures
            r.is_some() <==> has_client(self@, id),
            r.is_some() ==> r.unwrap() < self@.len() && r.unwrap() as int == first_client(
                self@,
                id,
            ),
            r.is_some() ==> self@[r.unwrap() as int].id == id,
    {
        let mut i: usize = 0;
        while i < self.entries.len()
            invariant
                i <= self@.len(),
                self@.len() == self.entries@.len(),
                forall|j: int| 0 <= j < i ==> !(client_is(id))(self@[j]),
            decreases self.entries@.len() - i,
        {
            if self.entries[i].id == id {
                proof {
                    lemma_first_where(self@, client_is(id), i as int);
                }
                return Some(i);
            }
            i = i + 1;
        }
        None
    }

    pub fn contains(&self, id: ClientId) -> (r: bool)
        ensures
            r == has_client(self@, id),
    {
        self.find(id).is_some()
    }

    /// The live objects of client `id`.
    pub fn get(&self, id: ClientId) -> (r: Option<&ClientResources>)
        ensures
            match r {
                Some(res) => resources_of(self@, id) == Some(res@),
                None => resources_of(self@, id).is_none(),
            },
    {
        match self.find(id) {
            Some(i) => Some(&self.entries[i].resources),
            None => None,
        }
    }

    /// Gives client `id` an empty registry unless it has one; reports
    /// whether it was added.
    pub fn insert_client(&mut self, id: ClientId) -> (r: bool)
        ensures
            final(self)@ == with_client(old(self)@, id),
            r == !has_client(old(self)@, id),
    {
        if self.find(id).is_some() {
            false
        } else {
            self.entries.push(ClientEntry { id, resources: ClientResources::new() });
            assert(self@ =~= old(self)@.push(
                ClientEntryView { id, resources: ClientResourcesView::empty() },
            ));
            true
        }
    }

    /// Drops the registry of client `id` and hands it back, where it had one.
    pub fn remove_client(&mut self, id: ClientId) -> (r: Option<ClientResources>)
        ensures
            final(self)@ == without_client(old(self)@, id),
            r.is_some() == has_client(old(self)@, id),
            r.is_some() ==> resources_of(old(self)@, id) == Some(r.unwrap()@),
    {
        match self.find(id) {
            Some(i) => {
                let entry = self.entries.remove(i);
                assert(self@ =~= old(self)@.remove(i as int));
                Some(entry.resources)
            },
            None => None,
        }
    }

    /// Records an object that client `id` created.
    pub fn instantiate(&mut self, id: ClientId, event: Instantiation) -> (r: Bookkeeping)
        ensures
            final(self)@ == registry_instantiate(old(self)@, id, event),
            r == (if !has_client(old(self)@, id) {
                Bookkeeping::MissingClient
            } else if old(self)@[first_client(old(self)@, id)].resources.accepts(event) {
                Bookkeeping::Recorded
            } else {
                Bookkeeping::MissingEntry
            }),
    {
        match self.find(id) {
            Some(i) => {
                let placed = self.entries[i].resources.instantiate(event);
                assert(self@ =~= old(self)@.update(
                    i as int,
                    ClientEntryView {
                        id,
                        resources: old(self)@[i as int].resources.instantiate(event),
                    },
                ));
                if placed {
                    Bookkeeping::Recorded
                } else {
                    Bookkeeping::MissingEntry
                }
            },
            None => Bookkeeping::MissingClient,
        }
    }

    /// Forgets an object of client `id` that died.
    pub fn destroy(&mut self, id: ClientId, event: Destruction) -> (r: Bookkeeping)
        ensures
            final(self)@ == registry_destroy(old(self)@, id, event),
            r == (if !has_client(old(self)@, id) {
                Bookkeeping::MissingClient
            } else if old(self)@[first_client(old(self)@, id)].resources.tracks(event) {
                Bookkeeping::Recorded
            } else {
                Bookkeeping::MissingEntry
            }),
    {
        match self.find(id) {
            Some(i) => {
                let found = self.entries[i].resources.destroy(event);
                assert(self@ =~= old(self)@.update(
                    i as int,
                    ClientEntryView { id, resources: old(self)@[i as int].resources.destroy(event) },
                ));
                if found {
                    Bookkeeping::Recorded
                } else {
                    Bookkeeping::MissingEntry
                }
            },
            None => Bookkeeping::MissingClient,
        }
    }
}

// Laws of the registries.

/// One step of the bridges on the registries: a creation or a destruction
/// reported for an owner.
#[derive(Clone, Copy, Debug, PartialEq, Eq, Structural)]
pub enum RegistryOp {
    Instantiate { owner: Option<ClientId>, event: Instantiation },
    Destroy { owner: Option<ClientId>, event: Destruction },
}

/// The registries after one step; a step without a known owner changes
/// nothing.
pub open spec fn apply_op(s: Seq<ClientEntryView>, op: RegistryOp) -> Seq<ClientEntryView> {
    match op {
        RegistryOp::Instantiate { owner, event } => match owner {
            Some(id) => registry_instantiate(s, id, event),
            None => s,
        },
        RegistryOp::Destroy { owner, event } => match owner {
            Some(id) => registry_destroy(s, id, event),
            None => s,
        },
    }
}

/// The registries after the steps `ops`, in order, from `s`.
pub open spec fn replay(s: Seq<ClientEntryView>, ops: Seq<RegistryOp>) -> Seq<ClientEntryView>
    decreases ops.len(),
{
    if ops.len() == 0 {
        s
    } else {
        apply_op(replay(s, ops.drop_last()), ops.last())
    }
}

/// However creations and destructions interleave as the engine reports
/// them, the registries end in the state that replaying the same steps in
/// the same order from the same start gives: `states[i + 1]` is what the
/// bridges leave after step `ops[i]`.
pub proof fn lemma_interleaving_is_replay(states: Seq<Seq<ClientEntryView>>, ops: Seq<RegistryOp>)
    requires
        states.len() == ops.len() + 1,
        forall|i: int| 0 <= i < ops.len() ==> states[i + 1] == apply_op(states[i], ops[i]),
    ensures
        states.last() == replay(states[0], ops),
    decreases ops.len(),
{
    if ops.len() > 0 {
        lemma_interleaving_is_replay(states.drop_last(), ops.drop_last());
        assert(states.drop_last().last() == states[ops.len() - 1]);
    }
}

proof fn lemma_destroy_untracked(r: ClientResourcesView, event: Destruction)
    requires
        !r.tracks(event),
    ensures
        r.destroy(event) == r,
{
    match event {
        Destruction::Object { kind, object } => {
            if !is_singleton(kind) {
                assert(remove_first(r.list(kind), object) == r.list(kind));
                assert(r.with_list(kind, r.list(kind)) == r);
            }
        },
        _ => {},
    }
}

/// Destroying an object that the registries do not hold is a no-op.
pub proof fn lemma_destroy_absent(s: Seq<ClientEntryView>, id: ClientId, event: Destruction)
    requires
        !(has_client(s, id) && s[first_client(s, id)].resources.tracks(event)),
    ensures
        registry_destroy(s, id, event) == s,
{
    if has_client(s, id) {
        lemma_has_client_first(s, id);
        let i = first_client(s, id);
        lemma_destroy_untracked(s[i].resources, event);
        assert(registry_destroy(s, id, event) =~= s);
    }
}

} // verus!
