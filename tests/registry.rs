use embedded_wayland_server::definitions::IdAllocator;
use embedded_wayland_server::instantiation_filter;
use embedded_wayland_server::destruction_filter::removal_records_of;
use embedded_wayland_server::registry::remove_object;
use embedded_wayland_server::{
    destruction_filter, seat_id, surface_id, surface_kind, Bookkeeping, Capability, ClientId,
    ClientRegistry, ClientResources, Destruction, DispatchContext, Instantiation, ObjectKind,
    SeatId, SeatResources, SurfaceData, SurfaceId, SurfaceKind, WaylandRequest,
};

#[test]
fn identity_conversions() {
    assert_eq!(usize::from(ClientId(7)), 7);
    assert_eq!(u32::from(ClientId(7)), 7u32);
    assert_eq!(ClientId::from(9u32), ClientId(9));
    assert_eq!(ClientId::from(9usize), ClientId(9));
    assert_eq!(usize::from(SeatId(3)), 3);
    assert_eq!(u32::from(SeatId(3)), 3u32);
    assert_eq!(SeatId::from(4u32), SeatId(4));
    assert_eq!(SeatId::from(4usize), SeatId(4));
    assert_eq!(usize::from(SurfaceId(5)), 5);
    assert_eq!(u32::from(SurfaceId(5)), 5u32);
    assert_eq!(SurfaceId::from(6u32), SurfaceId(6));
    assert_eq!(SurfaceId::from(6usize), SurfaceId(6));
}

#[test]
fn allocator_counts_up() {
    let mut ids = IdAllocator::new();
    assert_eq!(ids.allocate(), Some(0));
    assert_eq!(ids.allocate(), Some(1));
    assert_eq!(ids.allocate(), Some(2));
}

#[test]
fn sidecar_lookups() {
    let empty = SurfaceData::new();
    assert_eq!(surface_id(&empty), None);
    assert_eq!(surface_kind(&empty), None);
    let full = SurfaceData { surface_id: Some(SurfaceId(12)), kind: Some(SurfaceKind::Popup) };
    assert_eq!(surface_id(&full), Some(12));
    assert_eq!(surface_kind(&full), Some(&SurfaceKind::Popup));
    assert_eq!(seat_id(&SeatResources::new(1, Some(SeatId(6)))), Some(6));
    assert_eq!(seat_id(&SeatResources::new(1, None)), None);
}

#[test]
fn remove_object_takes_the_first_match() {
    let mut list = vec![1, 2, 3, 2];
    assert!(remove_object(&mut list, 2));
    assert_eq!(list, vec![1, 3, 2]);
    assert!(!remove_object(&mut list, 9));
    assert_eq!(list, vec![1, 3, 2]);
}

#[test]
fn singletons_are_replaced_and_lists_append() {
    let mut r = ClientResources::new();
    r.register(ObjectKind::Compositor, 1);
    r.register(ObjectKind::Compositor, 2);
    assert_eq!(r.compositor, Some(2));
    r.register(ObjectKind::XdgToplevel, 5);
    r.register(ObjectKind::XdgToplevel, 6);
    assert_eq!(r.xdg_top_levels, vec![5, 6]);
    // a late destruction of the replaced object keeps the new one
    assert!(!r.unregister(ObjectKind::Compositor, 1));
    assert_eq!(r.compositor, Some(2));
    assert!(r.unregister(ObjectKind::Compositor, 2));
    assert_eq!(r.compositor, None);
    assert!(r.unregister(ObjectKind::XdgToplevel, 5));
    assert_eq!(r.xdg_top_levels, vec![6]);
}

#[test]
fn capabilities_join_their_seat() {
    let mut r = ClientResources::new();
    r.add_seat(10, None);
    r.add_seat(20, Some(SeatId(1)));
    assert!(r.add_capability(Capability::Pointer, 20, 30));
    assert!(r.add_capability(Capability::Touch, 10, 31));
    assert!(!r.add_capability(Capability::Keyboard, 99, 32));
    assert_eq!(r.seats[1].pointers, vec![30]);
    assert_eq!(r.seats[0].touchs, vec![31]);
    assert!(r.remove_capability(Capability::Pointer, 30));
    assert!(r.seats[1].pointers.is_empty());
    assert!(!r.remove_capability(Capability::Pointer, 30));
    assert!(r.remove_seat(10));
    assert_eq!(r.seats.len(), 1);
    assert_eq!(r.seats[0].handle, 20);
}

#[test]
fn instantiation_filter_registers_and_queues() {
    let mut context = DispatchContext::new();
    let mut clients = ClientRegistry::new();
    assert!(clients.insert_client(ClientId(0)));
    assert!(!clients.insert_client(ClientId(0)));
    let event = Instantiation::Object { kind: ObjectKind::ShmPool, object: 4, version: 1 };
    let r = instantiation_filter::filter(&mut context, &mut clients, Some(ClientId(0)), event);
    assert_eq!(r, Bookkeeping::Recorded);
    assert_eq!(clients.get(ClientId(0)).unwrap().shm_pools, vec![4]);
    let orphan = Instantiation::Capability { capability: Capability::Keyboard, seat: 8, object: 9 };
    let r = instantiation_filter::filter(&mut context, &mut clients, Some(ClientId(0)), orphan);
    assert_eq!(r, Bookkeeping::MissingEntry);
    assert_eq!(context.len(), 2);
    assert_eq!(
        context.drain(),
        vec![
            WaylandRequest::Instantiation { client: Some(ClientId(0)), event },
            WaylandRequest::Instantiation { client: Some(ClientId(0)), event: orphan },
        ]
    );
    assert_eq!(context.len(), 0);
}

#[test]
fn destruction_filter_removes_the_matching_entry() {
    let mut context = DispatchContext::new();
    let mut clients = ClientRegistry::new();
    clients.insert_client(ClientId(3));
    let add = |ctx: &mut DispatchContext, c: &mut ClientRegistry, ev: Instantiation| {
        instantiation_filter::filter(ctx, c, Some(ClientId(3)), ev)
    };
    add(&mut context, &mut clients, Instantiation::Seat { object: 1, version: 7, global: None });
    add(&mut context, &mut clients, Instantiation::Capability { capability: Capability::Keyboard, seat: 1, object: 2 });
    add(&mut context, &mut clients, Instantiation::Object { kind: ObjectKind::Output, object: 5, version: 2 });
    context.drain();
    let gone = Destruction::Capability { capability: Capability::Keyboard, object: 2 };
    let r = destruction_filter::filter(&mut context, &mut clients, Some(ClientId(3)), gone, false);
    assert_eq!(r, Bookkeeping::Recorded);
    assert!(clients.get(ClientId(3)).unwrap().seats[0].keyboards.is_empty());
    let r = destruction_filter::filter(&mut context, &mut clients, Some(ClientId(3)), gone, true);
    assert_eq!(r, Bookkeeping::MissingEntry);
    assert_eq!(context.len(), 0);
    let out = Destruction::Object { kind: ObjectKind::Output, object: 5 };
    let r = destruction_filter::filter(&mut context, &mut clients, Some(ClientId(3)), out, true);
    assert_eq!(r, Bookkeeping::Recorded);
    assert_eq!(context.drain(), vec![WaylandRequest::Destruction { client: ClientId(3), event: out }]);
    let r = destruction_filter::filter(&mut context, &mut clients, None, out, true);
    assert_eq!(r, Bookkeeping::MissingClient);
    let dropped = clients.remove_client(ClientId(3)).unwrap();
    assert_eq!(dropped.seats.len(), 1);
    assert!(clients.remove_client(ClientId(3)).is_none());
    assert!(!clients.contains(ClientId(3)));
}

#[test]
fn removal_records_cover_every_object() {
    let mut r = ClientResources::new();
    r.register(ObjectKind::Compositor, 1);
    r.register(ObjectKind::Output, 2);
    r.add_seat(3, Some(SeatId(0)));
    r.add_capability(Capability::Keyboard, 3, 4);
    let records = removal_records_of(ClientId(8), &r);
    let c = ClientId(8);
    assert_eq!(
        records,
        vec![
            WaylandRequest::Destruction { client: c, event: Destruction::Object { kind: ObjectKind::Compositor, object: 1 } },
            WaylandRequest::Destruction { client: c, event: Destruction::Object { kind: ObjectKind::Output, object: 2 } },
            WaylandRequest::Destruction { client: c, event: Destruction::Capability { capability: Capability::Keyboard, object: 4 } },
            WaylandRequest::Destruction { client: c, event: Destruction::Seat { object: 3 } },
        ]
    );
    assert!(removal_records_of(c, &ClientResources::new()).is_empty());
}
