use vstd::prelude::*;

verus! {

/// Identity of a connected client. It is allocated when the engine reports
/// the connection and stays fixed while the client is connected.
#[derive(Clone, Copy, Debug, PartialEq, Eq, Structural)]
pub struct ClientId(pub usize);

/// Identity of a seat, chosen by the host when it creates the seat global.
#[derive(Clone, Copy, Debug, PartialEq, Eq, Structural)]
pub struct SeatId(pub usize);

/// Identity of a surface, allocated once the surface takes a shell or
/// cursor role.
#[derive(Clone, Copy, Debug, PartialEq, Eq, Structural)]
pub struct SurfaceId(pub usize);

impl From<ClientId> for usize {
    fn from(id: ClientId) -> usize {
        id.0
    }
}

impl vstd::std_specs::convert::FromSpecImpl<ClientId> for usize {
    open spec fn obeys_from_spec() -> bool {
        true
    }

    open spec fn from_spec(id: ClientId) -> usize {
        id.0
    }
}

impl From<ClientId> for u32 {
    fn from(id: ClientId) -> u32 {
        id.0 as u32
    }
}

impl vstd::std_specs::convert::FromSpecImpl<ClientId> for u32 {
    open spec fn obeys_from_spec() -> bool {
        true
    }

    open spec fn from_spec(id: ClientId) -> u32 {
        id.0 as u32
    }
}

impl From<u32> for ClientId {
    fn from(id: u32) -> ClientId {
        ClientId(id as usize)
    }
}

impl vstd::std_specs::convert::FromSpecImpl<u32> for ClientId {
    open spec fn obeys_from_spec() -> bool {
        true
    }

    open spec fn from_spec(id: u32) -> ClientId {
        ClientId(id as usize)
    }
}

impl From<usize> for ClientId {
    fn from(id: usize) -> ClientId {
        ClientId(id)
    }
}

impl vstd::std_specs::convert::FromSpecImpl<usize> for ClientId {
    open spec fn obeys_from_spec() -> bool {
        true
    }

    open spec fn from_spec(id: usize) -> ClientId {
        ClientId(id)
    }
}

impl From<SeatId> for usize {
    fn from(id: SeatId) -> usize {
        id.0
    }
}

impl vstd::std_specs::convert::FromSpecImpl<SeatId> for usize {
    open spec fn obeys_from_spec() -> bool {
        true
    }

    open spec fn from_spec(id: SeatId) -> usize {
        id.0
    }
}

impl From<SeatId> for u32 {
    fn from(id: SeatId) -> u32 {
        id.0 as u32
    }
}

impl vstd::std_specs::convert::FromSpecImpl<SeatId> for u32 {
    open spec fn obeys_from_spec() -> bool {
        true
    }

    open spec fn from_spec(id: SeatId) -> u32 {
        id.0 as u32
    }
}

impl From<u32> for SeatId {
    fn from(id: u32) -> SeatId {
        SeatId(id as usize)
    }
}

impl vstd::std_specs::convert::FromSpecImpl<u32> for SeatId {
    open spec fn obeys_from_spec() -> bool {
        true
    }

    open spec fn from_spec(id: u32) -> SeatId {
        SeatId(id as usize)
    }
}

impl From<usize> for SeatId {
    fn from(id: usize) -> SeatId {
        SeatId(id)
    }
}

impl vstd::std_specs::convert::FromSpecImpl<usize> for SeatId {
    open spec fn obeys_from_spec() -> bool {
        true
    }

    open spec fn from_spec(id: usize) -> SeatId {
        SeatId(id)
    }
}

impl From<SurfaceId> for usize {
    fn from(id: SurfaceId) -> usize {
        id.0
    }
}

impl vstd::std_specs::convert::FromSpecImpl<SurfaceId> for usize {
    open spec fn obeys_from_spec() -> bool {
        true
    }

    open spec fn from_spec(id: SurfaceId) -> usize {
        id.0
    }
}

impl From<SurfaceId> for u32 {
    fn from(id: SurfaceId) -> u32 {
        id.0 as u32
    }
}

impl vstd::std_specs::convert::FromSpecImpl<SurfaceId> for u32 {
    open spec fn obeys_from_spec() -> bool {
        true
    }

    open spec fn from_spec(id: SurfaceId) -> u32 {
        id.0 as u32
    }
}

impl From<u32> for SurfaceId {
    fn from(id: u32) -> SurfaceId {
        SurfaceId(id as usize)
    }
}

impl vstd::std_specs::convert::FromSpecImpl<u32> for SurfaceId {
    open spec fn obeys_from_spec() -> bool {
        true
    }

    open spec fn from_spec(id: u32) -> SurfaceId {
        SurfaceId(id as usize)
    }
}

impl From<usize> for SurfaceId {
    fn from(id: usize) -> SurfaceId {
        SurfaceId(id)
    }
}

impl vstd::std_specs::convert::FromSpecImpl<usize> for SurfaceId {
    open spec fn obeys_from_spec() -> bool {
        true
    }

    open spec fn from_spec(id: usize) -> SurfaceId {
        SurfaceId(id)
    }
}

/// Issues identities that are never handed out twice: each one is larger
/// than every identity issued before it.
#[derive(Debug)]
pub struct IdAllocator {
    next: usize,
}

impl IdAllocator {
    /// The identity that the next call of `allocate` hands out.
    pub closed spec fn next_id(&self) -> nat {
        self.next as nat
    }

    pub fn new() -> (r: IdAllocator)
        ensures
            r.next_id() == 0,
    {
        IdAllocator { next: 0 }
    }

    /// Hands out the next identity, or `None` once the identity space is
    /// used up; in that case nothing changes.
    pub fn allocate(&mut self) -> (r: Option<usize>)
        ensures
            old(self).next_id() < usize::MAX ==> r == Some(old(self).next_id() as usize)
                && final(self).next_id() == old(self).next_id() + 1,
            old(self).next_id() >= usize::MAX ==> r.is_none() && final(self).next_id()
                == old(self).next_id(),
    {
        if self.next < usize::MAX {
            let id = self.next;
            self.next = self.next + 1;
            Some(id)
        } else {
            None
        }
    }
}

/// Handle of a protocol object: the client that owns it and the object's
/// protocol number, which is unique among that client's live objects.
#[derive(Clone, Copy, Debug, PartialEq, Eq, Structural)]
pub struct ObjectHandle {
    pub client: ClientId,
    pub object: u32,
}

/// The shell role of a surface.
#[derive(Clone, Copy, Debug, PartialEq, Eq, Structural)]
pub enum SurfaceKind {
    Toplevel,
    Popup,
    Cursor,
}

/// What this library attaches to a surface: its identity and its role,
/// each set at most once.
#[derive(Clone, Copy, Debug, PartialEq, Eq, Structural)]
pub struct SurfaceData {
    pub surface_id: Option<SurfaceId>,
    pub kind: Option<SurfaceKind>,
}

impl SurfaceData {
    pub fn new() -> (r: SurfaceData)
        ensures
            r.surface_id.is_none(),
            r.kind.is_none(),
    {
        SurfaceData { surface_id: None, kind: None }
    }
}

/// The identity attached to a surface, as a raw integer.
pub fn surface_id(surface_data: &SurfaceData) -> (r: Option<usize>)
    ensures
        r == (match surface_data.surface_id {
            Some(id) => Some(id.0),
            None => None,
        }),
{
    match surface_data.surface_id {
        Some(id) => Some(id.into()),
        None => None,
    }
}

/// The shell role attached to a surface.
pub fn surface_kind(surface_data: &SurfaceData) -> (r: Option<&SurfaceKind>)
    ensures
        r == (match surface_data.kind {
            Some(k) => Some(&k),
            None => None,
        }),
{
    match &surface_data.kind {
        Some(k) => Some(k),
        None => None,
    }
}

/// State of the image a client asked to show as its cursor.
#[derive(Clone, Copy, Debug, PartialEq, Eq, Structural)]
pub enum CursorImageStatus {
    Hidden,
    Default,
    Image(ObjectHandle),
}

/// Activity on a seat that the host is told about.
#[derive(Clone, Copy, Debug, PartialEq, Eq, Structural)]
pub enum SeatRequest {
    CursorImage(CursorImageStatus),
    KeyboardFocus(Option<ObjectHandle>),
}

/// Requests of the xdg shell that the host is told about.
#[derive(Clone, Copy, Debug, PartialEq, Eq, Structural)]
pub enum ShellRequest {
    NewToplevel { surface: ObjectHandle },
    NewPopup { surface: ObjectHandle },
    AckConfigure { surface: ObjectHandle, serial: u32 },
}

/// Drag-and-drop activity.
#[derive(Clone, Copy, Debug, PartialEq, Eq, Structural)]
pub enum DndEvent {
    Started { icon: Option<ObjectHandle> },
    Dropped,
    NewSelection,
}

/// Protocol objects that a client instantiates from a global factory or a
/// factory object, one slot of its registry each.
#[derive(Clone, Copy, Debug, PartialEq, Eq, Structural)]
pub enum ObjectKind {
    Compositor,
    Subcompositor,
    Shell,
    Output,
    Shm,
    ShmPool,
    XdgWmBase,
    XdgSurface,
    XdgPopup,
    XdgPositioner,
    XdgToplevel,
}

/// Objects that a seat hands out on request.
#[derive(Clone, Copy, Debug, PartialEq, Eq, Structural)]
pub enum Capability {
    Pointer,
    Keyboard,
    Touch,
}

/// A protocol object that a client has just created.
#[derive(Clone, Copy, Debug, PartialEq, Eq, Structural)]
pub enum Instantiation {
    Object { kind: ObjectKind, object: u32, version: u32 },
    Seat { object: u32, version: u32, global: Option<SeatId> },
    Capability { capability: Capability, seat: u32, object: u32 },
}

/// A protocol object that has just died.
#[derive(Clone, Copy, Debug, PartialEq, Eq, Structural)]
pub enum Destruction {
    Object { kind: ObjectKind, object: u32 },
    Seat { object: u32 },
    Capability { capability: Capability, object: u32 },
}

/// One unit of observed activity, handed to the host by `dispatch`.
#[derive(Clone, Copy, Debug, PartialEq, Eq, Structural)]
pub enum WaylandRequest {
    Instantiation { client: Option<ClientId>, event: Instantiation },
    Destruction { client: ClientId, event: Destruction },
    Seat { seat: SeatId, request: SeatRequest },
    SurfaceRemoved { id: usize },
    Commit { surface: ObjectHandle },
    XdgRequest { request: ShellRequest },
    Dmabuf { buffer: BufferInfo },
    Dnd { dnd: DndEvent },
}

/// What a bridge call did to the registries. Only `Recorded` changed
/// them; the other two are lookup misses, which leave them as they were.
#[derive(Clone, Copy, Debug, PartialEq, Eq, Structural)]
pub enum Bookkeeping {
    Recorded,
    /// The owning client has no registry.
    MissingClient,
    /// The registry has no entry for the object (or, on creation of a
    /// capability object, for its seat).
    MissingEntry,
}

/// A hardware buffer format: a fourcc code and a layout modifier.
#[derive(Clone, Copy, Debug, PartialEq, Eq, Structural)]
pub struct DrmFormat {
    pub code: u32,
    pub modifier: u64,
}

/// What a client's imported hardware buffer is: its size and format.
#[derive(Clone, Copy, Debug, PartialEq, Eq, Structural)]
pub struct BufferInfo {
    pub width: u32,
    pub height: u32,
    pub format: DrmFormat,
}

/// How a server is set up: the buffer formats it offers and which optional
/// capabilities it enables.
#[derive(Clone, Debug)]
pub struct Parameters {
    pub shm_formats: Vec<u32>,
    pub drm_formats: Vec<DrmFormat>,
    pub xdg_shell: bool,
    pub dma_buf: bool,
    pub dnd: bool,
    pub explicit_synchronization: bool,
    /// Whether a destroyed entity is also reported by an explicit event.
    pub removal_events: bool,
}

impl Default for Parameters {
    fn default() -> (r: Parameters)
        ensures
            r.shm_formats@.len() == 0,
            r.drm_formats@.len() == 0,
            r.xdg_shell && r.dma_buf && r.dnd && r.explicit_synchronization,
            !r.removal_events,
    {
        Parameters {
            shm_formats: Vec::new(),
            drm_formats: Vec::new(),
            xdg_shell: true,
            dma_buf: true,
            dnd: true,
            explicit_synchronization: true,
            removal_events: false,
        }
    }
}

} // verus!
