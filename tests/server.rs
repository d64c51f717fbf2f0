use embedded_wayland_server::{
    surface_id, surface_kind, Bookkeeping, BufferInfo, ClientId, CursorImageStatus, Destruction, DndEvent,
    DrmFormat,
    EmbeddedWaylandServer, Instantiation, KeyboardConfig, ObjectHandle, ObjectKind, Parameters,
    PhysicalProperties, SeatId, SeatRequest, ShellRequest, Subpixel, SurfaceKind,
    WaylandRequest,
};

fn server() -> EmbeddedWaylandServer {
    EmbeddedWaylandServer::new(Parameters::default())
}

fn server_reporting_removals() -> EmbeddedWaylandServer {
    let mut parameters = Parameters::default();
    parameters.removal_events = true;
    EmbeddedWaylandServer::new(parameters)
}

#[test]
fn create_server() {
    let mut server = server();
    server.create_seat(0, String::from("Seat-0"));
    assert!(server.add_keyboard(0, 200, 25));
    assert!(server.add_cursor(0));
    server.create_output(
        1,
        String::from("Outpu1"),
        PhysicalProperties {
            width: 1920,
            height: 1080,
            subpixel: Subpixel::NoSubpixels,
            make: String::from(""),
            model: String::from(""),
        },
    );
    let requests = server.dispatch();
    assert!(requests.is_empty());
    assert_eq!(server.list_seats().len(), 1);
    assert_eq!(server.list_seats()[0].name, "Seat-0");
    assert_eq!(server.list_outputs().len(), 1);
    assert_eq!(server.list_outputs()[0].physical_properties.width, 1920);
    assert_eq!(
        server.get_keyboard(0),
        Some(KeyboardConfig { repeat_delay: 200, repeat_rate: 25 })
    );
    assert!(server.get_cursor(0).is_some());
}

#[test]
fn instantiations_come_out_in_creation_order() {
    let mut server = server();
    let client = server.client_connected().unwrap();
    let compositor = Instantiation::Object { kind: ObjectKind::Compositor, object: 3, version: 4 };
    let shell = Instantiation::Object { kind: ObjectKind::Shell, object: 5, version: 1 };
    assert_eq!(server.on_instantiation(Some(client), compositor), Bookkeeping::Recorded);
    assert_eq!(server.on_instantiation(Some(client), shell), Bookkeeping::Recorded);
    let requests = server.dispatch();
    assert_eq!(
        requests,
        vec![
            WaylandRequest::Instantiation { client: Some(client), event: compositor },
            WaylandRequest::Instantiation { client: Some(client), event: shell },
        ]
    );
    let resources = server.clients().get(client).unwrap();
    assert_eq!(resources.compositor, Some(3));
    assert_eq!(resources.shells, vec![5]);
}

#[test]
fn second_dispatch_is_empty() {
    let mut server = server();
    let client = server.client_connected().unwrap();
    server.on_commit(ObjectHandle { client, object: 9 });
    assert_eq!(server.dispatch().len(), 1);
    assert!(server.dispatch().is_empty());
}

#[test]
fn keyboard_add_then_del_restores_no_keyboard() {
    let mut server = server();
    server.create_seat(0, String::from("Seat-0"));
    assert!(server.add_keyboard(0, 200, 25));
    assert!(server.del_keyboard(0));
    assert_eq!(server.get_keyboard(0), None);
    assert!(!server.del_keyboard(0));
}

#[test]
fn second_keyboard_is_not_added() {
    let mut server = server();
    server.create_seat(0, String::from("Seat-0"));
    assert!(server.add_keyboard(0, 200, 25));
    assert!(!server.add_keyboard(0, 500, 30));
    assert_eq!(
        server.get_keyboard(0),
        Some(KeyboardConfig { repeat_delay: 200, repeat_rate: 25 })
    );
}

#[test]
fn cursor_add_then_del() {
    let mut server = server();
    server.create_seat(2, String::from("Seat-2"));
    assert!(server.add_cursor(2));
    assert!(!server.add_cursor(2));
    assert!(server.del_cursor(2));
    assert_eq!(server.get_cursor(2), None);
}

#[test]
fn capabilities_of_a_missing_seat() {
    let mut server = server();
    assert!(!server.add_keyboard(7, 200, 25));
    assert!(!server.add_cursor(7));
    assert_eq!(server.get_keyboard(7), None);
    assert_eq!(server.get_cursor(7), None);
}

#[test]
fn recreating_a_seat_replaces_it() {
    let mut server = server();
    server.create_seat(0, String::from("first"));
    server.add_keyboard(0, 200, 25);
    server.create_seat(0, String::from("second"));
    assert_eq!(server.list_seats().len(), 1);
    assert_eq!(server.list_seats()[0].name, "second");
    assert_eq!(server.get_keyboard(0), None);
    server.destroy_seat(0);
    assert!(server.list_seats().is_empty());
}

#[test]
fn outputs_are_created_and_destroyed() {
    let mut server = server();
    let props = PhysicalProperties {
        width: 800,
        height: 600,
        subpixel: Subpixel::Unknown,
        make: String::from("m"),
        model: String::from("x"),
    };
    server.create_output(1, String::from("a"), props.clone());
    server.create_output(2, String::from("b"), props);
    assert_eq!(server.list_outputs().len(), 2);
    server.destroy_output(1);
    assert_eq!(server.list_outputs().len(), 1);
    assert_eq!(server.list_outputs()[0].id, 2);
}

#[test]
fn disconnect_forgets_the_client() {
    let mut server = server();
    let client = server.client_connected().unwrap();
    let other = server.client_connected().unwrap();
    server.on_instantiation(Some(client), Instantiation::Seat { object: 4, version: 7, global: Some(SeatId(0)) });
    let surface = ObjectHandle { client, object: 10 };
    let kept = ObjectHandle { client: other, object: 10 };
    server.on_shell_request(ShellRequest::NewToplevel { surface });
    server.on_shell_request(ShellRequest::NewToplevel { surface: kept });
    server.dispatch();
    server.client_disconnected(client);
    assert!(!server.clients().contains(client));
    assert!(server.clients().contains(other));
    assert_eq!(server.surface_data(surface), None);
    assert!(server.surface_data(kept).is_some());
    assert!(server.dispatch().is_empty());
}

#[test]
fn disconnect_reports_each_identified_surface_once() {
    let mut server = server_reporting_removals();
    let client = server.client_connected().unwrap();
    let a = ObjectHandle { client, object: 10 };
    let b = ObjectHandle { client, object: 20 };
    server.on_shell_request(ShellRequest::NewToplevel { surface: a });
    server.on_shell_request(ShellRequest::NewPopup { surface: b });
    let id_a = surface_id(&server.surface_data(a).unwrap()).unwrap();
    let id_b = surface_id(&server.surface_data(b).unwrap()).unwrap();
    server.dispatch();
    server.client_disconnected(client);
    assert_eq!(
        server.dispatch(),
        vec![
            WaylandRequest::SurfaceRemoved { id: id_a },
            WaylandRequest::SurfaceRemoved { id: id_b },
        ]
    );
}

#[test]
fn identities_are_distinct() {
    let mut server = server();
    let first = server.client_connected().unwrap();
    let second = server.client_connected().unwrap();
    assert_ne!(first, second);
    let a = ObjectHandle { client: first, object: 1 };
    let b = ObjectHandle { client: second, object: 1 };
    server.on_shell_request(ShellRequest::NewToplevel { surface: a });
    server.on_shell_request(ShellRequest::NewToplevel { surface: b });
    let ia = surface_id(&server.surface_data(a).unwrap()).unwrap();
    let ib = surface_id(&server.surface_data(b).unwrap()).unwrap();
    assert_ne!(ia, ib);
    assert_ne!(ia, usize::from(first));
    assert_ne!(ia, usize::from(second));
    assert_ne!(ib, usize::from(first));
    assert_ne!(ib, usize::from(second));
}

#[test]
fn identity_is_kept_across_roles() {
    let mut server = server();
    let client = server.client_connected().unwrap();
    let surface = ObjectHandle { client, object: 1 };
    server.on_shell_request(ShellRequest::NewToplevel { surface });
    let before = server.surface_data(surface).unwrap();
    server.on_shell_request(ShellRequest::NewPopup { surface });
    let after = server.surface_data(surface).unwrap();
    assert_eq!(before, after);
    assert_eq!(surface_kind(&after), Some(&SurfaceKind::Toplevel));
}

#[test]
fn cursor_image_gives_the_surface_an_identity() {
    let mut server = server();
    let client = server.client_connected().unwrap();
    server.create_seat(0, String::from("Seat-0"));
    let surface = ObjectHandle { client, object: 30 };
    assert!(!server.on_cursor_image(0, CursorImageStatus::Image(surface)));
    assert!(server.dispatch().is_empty());
    server.add_cursor(0);
    assert!(server.on_cursor_image(0, CursorImageStatus::Image(surface)));
    let data = server.surface_data(surface).unwrap();
    assert_eq!(surface_kind(&data), Some(&SurfaceKind::Cursor));
    assert!(surface_id(&data).is_some());
    assert_eq!(server.get_cursor(0).unwrap().image, CursorImageStatus::Image(surface));
    assert_eq!(
        server.dispatch(),
        vec![WaylandRequest::Seat {
            seat: SeatId(0),
            request: SeatRequest::CursorImage(CursorImageStatus::Image(surface)),
        }]
    );
}

#[test]
fn keyboard_focus_needs_a_keyboard() {
    let mut server = server();
    let client = server.client_connected().unwrap();
    server.create_seat(0, String::from("Seat-0"));
    let focus = Some(ObjectHandle { client, object: 5 });
    assert!(!server.on_keyboard_focus(0, focus));
    server.add_keyboard(0, 200, 25);
    assert!(server.on_keyboard_focus(0, focus));
    assert_eq!(
        server.dispatch(),
        vec![WaylandRequest::Seat { seat: SeatId(0), request: SeatRequest::KeyboardFocus(focus) }]
    );
}

#[test]
fn disabled_capabilities_queue_nothing() {
    let mut parameters = Parameters::default();
    parameters.xdg_shell = false;
    parameters.dma_buf = false;
    parameters.dnd = false;
    let mut server = EmbeddedWaylandServer::new(parameters);
    let client = server.client_connected().unwrap();
    let surface = ObjectHandle { client, object: 1 };
    server.on_shell_request(ShellRequest::NewToplevel { surface });
    assert!(!server.on_dmabuf(BufferInfo { width: 4, height: 4, format: DrmFormat { code: 1, modifier: 0 } }));
    assert!(!server.on_dnd(DndEvent::Dropped));
    assert!(server.dispatch().is_empty());
    assert_eq!(server.surface_data(surface), None);
}

#[test]
fn enabled_capabilities_queue_their_events() {
    let mut server = server();
    let buffer = BufferInfo { width: 640, height: 480, format: DrmFormat { code: 875713089, modifier: 0 } };
    assert!(server.on_dmabuf(buffer));
    assert!(server.on_dnd(DndEvent::NewSelection));
    assert_eq!(
        server.dispatch(),
        vec![
            WaylandRequest::Dmabuf { buffer },
            WaylandRequest::Dnd { dnd: DndEvent::NewSelection },
        ]
    );
}

#[test]
fn surface_destruction_is_reported_under_the_policy() {
    let mut server = server_reporting_removals();
    let client = server.client_connected().unwrap();
    let surface = ObjectHandle { client, object: 1 };
    server.on_shell_request(ShellRequest::NewToplevel { surface });
    let id = surface_id(&server.surface_data(surface).unwrap()).unwrap();
    server.dispatch();
    server.on_surface_destroyed(surface);
    assert_eq!(server.dispatch(), vec![WaylandRequest::SurfaceRemoved { id }]);
    server.on_surface_destroyed(surface);
    assert!(server.dispatch().is_empty());
}

#[test]
fn surface_destruction_is_silent_by_default() {
    let mut server = server();
    let client = server.client_connected().unwrap();
    let surface = ObjectHandle { client, object: 1 };
    server.on_shell_request(ShellRequest::NewToplevel { surface });
    server.dispatch();
    server.on_surface_destroyed(surface);
    assert!(server.dispatch().is_empty());
    assert_eq!(server.surface_data(surface), None);
}

#[test]
fn destroying_an_absent_object_is_a_no_op() {
    let mut server = server();
    let client = server.client_connected().unwrap();
    server.on_instantiation(
        Some(client),
        Instantiation::Object { kind: ObjectKind::Output, object: 8, version: 3 },
    );
    let r = server.on_destruction(Some(client), Destruction::Object { kind: ObjectKind::Output, object: 9 });
    assert_eq!(r, Bookkeeping::MissingEntry);
    assert_eq!(server.clients().get(client).unwrap().outputs, vec![8]);
    let r = server.on_destruction(Some(client), Destruction::Object { kind: ObjectKind::Output, object: 8 });
    assert_eq!(r, Bookkeeping::Recorded);
    let r = server.on_destruction(Some(client), Destruction::Object { kind: ObjectKind::Output, object: 8 });
    assert_eq!(r, Bookkeeping::MissingEntry);
    assert!(server.clients().get(client).unwrap().outputs.is_empty());
}

#[test]
fn destruction_is_reported_under_the_policy() {
    let mut server = server_reporting_removals();
    let client = server.client_connected().unwrap();
    server.on_instantiation(Some(client), Instantiation::Seat { object: 4, version: 7, global: None });
    server.dispatch();
    let gone = Destruction::Seat { object: 4 };
    assert_eq!(server.on_destruction(Some(client), gone), Bookkeeping::Recorded);
    assert_eq!(server.on_destruction(Some(client), gone), Bookkeeping::MissingEntry);
    assert_eq!(server.dispatch(), vec![WaylandRequest::Destruction { client, event: gone }]);
}

#[test]
fn unknown_owner_changes_no_registry() {
    let mut server = server();
    let event = Instantiation::Object { kind: ObjectKind::Compositor, object: 1, version: 4 };
    assert_eq!(server.on_instantiation(None, event), Bookkeeping::MissingClient);
    assert_eq!(server.on_instantiation(Some(ClientId(77)), event), Bookkeeping::MissingClient);
    assert_eq!(server.clients().len(), 0);
    assert_eq!(server.dispatch().len(), 2);
    let r = server.on_destruction(Some(ClientId(77)), Destruction::Seat { object: 1 });
    assert_eq!(r, Bookkeeping::MissingClient);
}

#[test]
fn same_operations_give_the_same_registry() {
    let client_ops = |server: &mut EmbeddedWaylandServer| {
        let c = server.client_connected().unwrap();
        server.on_instantiation(Some(c), Instantiation::Seat { object: 2, version: 7, global: Some(SeatId(0)) });
        server.on_instantiation(
            Some(c),
            Instantiation::Capability { capability: embedded_wayland_server::Capability::Keyboard, seat: 2, object: 3 },
        );
        server.on_instantiation(Some(c), Instantiation::Object { kind: ObjectKind::Shell, object: 4, version: 1 });
        server.on_destruction(Some(c), Destruction::Object { kind: ObjectKind::Shell, object: 4 });
        server.on_instantiation(Some(c), Instantiation::Object { kind: ObjectKind::Shell, object: 5, version: 1 });
        c
    };
    let mut first = server();
    let mut second = server();
    let a = client_ops(&mut first);
    let b = client_ops(&mut second);
    assert_eq!(a, b);
    let ra = first.clients().get(a).unwrap();
    let rb = second.clients().get(b).unwrap();
    assert_eq!(ra.shells, rb.shells);
    assert_eq!(ra.shells, vec![5]);
    assert_eq!(ra.seats.len(), 1);
    assert_eq!(ra.seats[0].keyboards, rb.seats[0].keyboards);
    assert_eq!(ra.seats[0].keyboards, vec![3]);
}

#[test]
fn disconnect_reports_registry_objects_under_the_policy() {
    let mut server = server_reporting_removals();
    let client = server.client_connected().unwrap();
    server.on_instantiation(Some(client), Instantiation::Seat { object: 4, version: 7, global: Some(SeatId(0)) });
    server.on_instantiation(
        Some(client),
        Instantiation::Object { kind: ObjectKind::XdgToplevel, object: 6, version: 1 },
    );
    let surface = ObjectHandle { client, object: 5 };
    server.on_shell_request(ShellRequest::NewToplevel { surface });
    let id = surface_id(&server.surface_data(surface).unwrap()).unwrap();
    server.dispatch();
    server.client_disconnected(client);
    assert_eq!(
        server.dispatch(),
        vec![
            WaylandRequest::Destruction {
                client,
                event: Destruction::Object { kind: ObjectKind::XdgToplevel, object: 6 },
            },
            WaylandRequest::Destruction { client, event: Destruction::Seat { object: 4 } },
            WaylandRequest::SurfaceRemoved { id },
        ]
    );
    assert!(server.dispatch().is_empty());
}

#[test]
fn disconnect_without_the_policy_reports_nothing() {
    let mut server = server();
    let client = server.client_connected().unwrap();
    server.on_instantiation(Some(client), Instantiation::Seat { object: 4, version: 7, global: None });
    server.dispatch();
    server.client_disconnected(client);
    assert!(server.dispatch().is_empty());
}

#[test]
fn parameters_are_kept() {
    let mut parameters = Parameters::default();
    parameters.shm_formats = vec![7, 9];
    parameters.drm_formats = vec![DrmFormat { code: 875713089, modifier: 0 }];
    parameters.explicit_synchronization = false;
    let server = EmbeddedWaylandServer::new(parameters);
    assert_eq!(server.parameters().shm_formats, vec![7, 9]);
    assert_eq!(server.parameters().drm_formats, vec![DrmFormat { code: 875713089, modifier: 0 }]);
    assert!(!server.parameters().explicit_synchronization);
    assert!(server.parameters().xdg_shell);
}
