use vstd::prelude::*;

use crate::definitions::{Bookkeeping, Capability, ClientId, Destruction, ObjectKind, WaylandRequest};
use crate::registry::{
    first_client, has_client, registry_destroy, ClientEntryView, ClientRegistry, ClientResources,
    ClientResourcesView, SeatResources, SeatView,
};
use crate::DispatchContext;

verus! {

/// What the destruction bridge reports for `event` of client `owner`.
pub open spec fn destruction_outcome(
    clients: Seq<ClientEntryView>,
    owner: Option<ClientId>,
    event: Destruction,
) -> Bookkeeping {
    match owner {
        Some(id) => if !has_client(clients, id) {
            Bookkeeping::MissingClient
        } else if clients[first_client(clients, id)].resources.tracks(event) {
            Bookkeeping::Recorded
        } else {
            Bookkeeping::MissingEntry
        },
        None => Bookkeeping::MissingClient,
    }
}

/// Handles an object that has just died: its entry leaves the registry of
/// its owner, where there is one; an object that is not there changes
/// nothing. Where `report_removals` is set, an entry that was removed is
/// also reported by a `Destruction` event.
pub fn filter(
    context: &mut DispatchContext,
    clients: &mut ClientRegistry,
    owner: Option<ClientId>,
    event: Destruction,
    report_removals: bool,
) -> (r: Bookkeeping)
    ensures
        final(clients)@ == (match owner {
            Some(id) => registry_destroy(old(clients)@, id, event),
            None => old(clients)@,
        }),
        r == destruction_outcome(old(clients)@, owner, event),
        final(context)@ == (if report_removals && r == Bookkeeping::Recorded {
            old(context)@.push(WaylandRequest::Destruction { client: owner.unwrap(), event })
        } else {
            old(context)@
        }),
{
    match owner {
        Some(id) => {
            let r = clients.destroy(id, event);
            if report_removals && r == Bookkeeping::Recorded {
                context.push(WaylandRequest::Destruction { client: id, event });
            }
            r
        },
        None => Bookkeeping::MissingClient,
    }
}

// Removal records for a registry that is dropped whole.

/// The record of object `object` of kind `kind` of client `c`.
pub open spec fn object_record(c: ClientId, kind: ObjectKind) -> spec_fn(u32) -> WaylandRequest {
    |object: u32| WaylandRequest::Destruction { client: c, event: Destruction::Object { kind, object } }
}

/// The record of capability object `object` of client `c`.
pub open spec fn capability_record(c: ClientId, capability: Capability) -> spec_fn(u32) -> WaylandRequest {
    |object: u32|
        WaylandRequest::Destruction {
            client: c,
            event: Destruction::Capability { capability, object },
        }
}

pub open spec fn single_records(c: ClientId, kind: ObjectKind, slot: Option<u32>) -> Seq<WaylandRequest> {
    match slot {
        Some(object) => seq![(object_record(c, kind))(object)],
        None => Seq::empty(),
    }
}

/// One record for each capability object of a seat, then one for the seat.
pub open spec fn seat_records(c: ClientId, seat: SeatView) -> Seq<WaylandRequest> {
    seat.pointers.map_values(capability_record(c, Capability::Pointer))
        + seat.keyboards.map_values(capability_record(c, Capability::Keyboard))
        + seat.touchs.map_values(capability_record(c, Capability::Touch))
        + seq![WaylandRequest::Destruction { client: c, event: Destruction::Seat { object: seat.handle } }]
}

pub open spec fn seats_records(c: ClientId, seats: Seq<SeatView>) -> Seq<WaylandRequest>
    decreases seats.len(),
{
    if seats.len() == 0 {
        Seq::empty()
    } else {
        seats_records(c, seats.drop_last()) + seat_records(c, seats.last())
    }
}

/// One `Destruction` record for each object that the registry `r` of
/// client `c` holds: the single-instance slots, the lists, then each seat
/// with its capability objects.
pub open spec fn removal_records(c: ClientId, r: ClientResourcesView) -> Seq<WaylandRequest> {
    single_records(c, ObjectKind::Compositor, r.compositor)
        + single_records(c, ObjectKind::Subcompositor, r.subcompositor)
        + single_records(c, ObjectKind::Shm, r.shm)
        + single_records(c, ObjectKind::XdgWmBase, r.xdg_wm_base)
        + r.shells.map_values(object_record(c, ObjectKind::Shell))
        + r.outputs.map_values(object_record(c, ObjectKind::Output))
        + r.shm_pools.map_values(object_record(c, ObjectKind::ShmPool))
        + r.xdg_surfaces.map_values(object_record(c, ObjectKind::XdgSurface))
        + r.xdg_popups.map_values(object_record(c, ObjectKind::XdgPopup))
        + r.xdg_positioners.map_values(object_record(c, ObjectKind::XdgPositioner))
        + r.xdg_top_levels.map_values(object_record(c, ObjectKind::XdgToplevel))
        + seats_records(c, r.seats)
}

fn push_single(out: &mut Vec<WaylandRequest>, c: ClientId, kind: ObjectKind, slot: Option<u32>)
    ensures
        final(out)@ == old(out)@ + single_records(c, kind, slot),
{
    match slot {
        Some(object) => {
            out.push(WaylandRequest::Destruction { client: c, event: Destruction::Object { kind, object } });
        },
        None => {},
    }
    assert(final(out)@ =~= old(out)@ + single_records(c, kind, slot)) by {
        assert(out@ =~= old(out)@ + single_records(c, kind, slot));
    }
}

fn push_objects(out: &mut Vec<WaylandRequest>, c: ClientId, kind: ObjectKind, list: &Vec<u32>)
    ensures
        final(out)@ == old(out)@ + list@.map_values(object_record(c, kind)),
{
    let mut i: usize = 0;
    while i < list.len()
        invariant
            i <= list@.len(),
            out@ == old(out)@ + list@.subrange(0, i as int).map_values(object_record(c, kind)),
        decreases list@.len() - i,
    {
        let object = list[i];
        out.push(WaylandRequest::Destruction { client: c, event: Destruction::Object { kind, object } });
        assert(list@.subrange(0, i as int + 1).map_values(object_record(c, kind)) =~= list@.subrange(
            0,
            i as int,
        ).map_values(object_record(c, kind)).push((object_record(c, kind))(object)));
        i = i + 1;
    }
    assert(list@.subrange(0, list@.len() as int) =~= list@);
}

fn push_capabilities(out: &mut Vec<WaylandRequest>, c: ClientId, capability: Capability, list: &Vec<u32>)
    ensures
        final(out)@ == old(out)@ + list@.map_values(capability_record(c, capability)),
{
    let mut i: usize = 0;
    while i < list.len()
        invariant
            i <= list@.len(),
            out@ == old(out)@ + list@.subrange(0, i as int).map_values(capability_record(c, capability)),
        decreases list@.len() - i,
    {
        let object = list[i];
        out.push(
            WaylandRequest::Destruction { client: c, event: Destruction::Capability { capability, object } },
        );
        assert(list@.subrange(0, i as int + 1).map_values(capability_record(c, capability))
            =~= list@.subrange(0, i as int).map_values(capability_record(c, capability)).push(
            (capability_record(c, capability))(object),
        ));
        i = i + 1;
    }
    assert(list@.subrange(0, list@.len() as int) =~= list@);
}

/// The records that report every object of the dropped registry
/// `resources` of client `c`, one each.
pub fn removal_records_of(c: ClientId, resources: &ClientResources) -> (r: Vec<WaylandRequest>)
    ensures
        r@ == removal_records(c, resources@),
{
    let mut out: Vec<WaylandRequest> = Vec::new();
    push_single(&mut out, c, ObjectKind::Compositor, resources.compositor);
    push_single(&mut out, c, ObjectKind::Subcompositor, resources.subcompositor);
    push_single(&mut out, c, ObjectKind::Shm, resources.shm);
    push_single(&mut out, c, ObjectKind::XdgWmBase, resources.xdg_wm_base);
    push_objects(&mut out, c, ObjectKind::Shell, &resources.shells);
    push_objects(&mut out, c, ObjectKind::Output, &resources.outputs);
    push_objects(&mut out, c, ObjectKind::ShmPool, &resources.shm_pools);
    push_objects(&mut out, c, ObjectKind::XdgSurface, &resources.xdg_surfaces);
    push_objects(&mut out, c, ObjectKind::XdgPopup, &resources.xdg_popups);
    push_objects(&mut out, c, ObjectKind::XdgPositioner, &resources.xdg_positioners);
    push_objects(&mut out, c, ObjectKind::XdgToplevel, &resources.xdg_top_levels);
    let ghost before = out@;
    let seats = &resources.seats;
    let mut i: usize = 0;
    while i < seats.len()
        invariant
            i <= seats@.len(),
            seats@ == resources.seats@,
            out@ == before + seats_records(c, resources@.seats.subrange(0, i as int)),
        decreases seats@.len() - i,
    {
        let seat: &SeatResources = &seats[i];
        let ghost mid = out@;
        push_capabilities(&mut out, c, Capability::Pointer, &seat.pointers);
        push_capabilities(&mut out, c, Capability::Keyboard, &seat.keyboards);
        push_capabilities(&mut out, c, Capability::Touch, &seat.touchs);
        out.push(WaylandRequest::Destruction { client: c, event: Destruction::Seat { object: seat.handle } });
        proof {
            let sub = resources@.seats.subrange(0, i as int + 1);
            assert(sub.drop_last() =~= resources@.seats.subrange(0, i as int));
            assert(sub.last() == seat@);
            assert(out@ =~= mid + seat_records(c, seat@));
        }
        i = i + 1;
    }
    proof {
        assert(resources@.seats.subrange(0, seats@.len() as int) =~= resources@.seats);
        assert(out@ =~= removal_records(c, resources@));
    }
    out
}

proof fn lemma_in_concat(a: Seq<WaylandRequest>, b: Seq<WaylandRequest>, x: WaylandRequest)
    requires
        a.contains(x) || b.contains(x),
    ensures
        (a + b).contains(x),
{
    if a.contains(x) {
        let i = choose|i: int| 0 <= i < a.len() && a[i] == x;
        assert((a + b)[i] == x);
    } else {
        let i = choose|i: int| 0 <= i < b.len() && b[i] == x;
        assert((a + b)[a.len() + i] == x);
    }
}

proof fn lemma_in_records(l: Seq<u32>, f: spec_fn(u32) -> WaylandRequest, o: u32)
    requires
        l.contains(o),
    ensures
        l.map_values(f).contains(f(o)),
{
    let i = choose|i: int| 0 <= i < l.len() && l[i] == o;
    assert(l.map_values(f)[i] == f(o));
}

/// Each seat object of `seats`, and each capability object of those seats,
/// has its record in `seats_records(c, seats)`.
pub proof fn lemma_seats_records_cover(c: ClientId, seats: Seq<SeatView>)
    ensures
        forall|i: int|
            0 <= i < seats.len() ==> seats_records(c, seats).contains(
                WaylandRequest::Destruction {
                    client: c,
                    event: Destruction::Seat { object: #[trigger] seats[i].handle },
                },
            ),
        forall|i: int, cap: Capability, o: u32|
            0 <= i < seats.len() && #[trigger] seats[i].capability(cap).contains(o)
                ==> seats_records(c, seats).contains((capability_record(c, cap))(o)),
    decreases seats.len(),
{
    if seats.len() > 0 {
        let t = seats.drop_last();
        lemma_seats_records_cover(c, t);
        let last = seats.last();
        let head = seats_records(c, t);
        let tail = seat_records(c, last);
        let seat_rec = WaylandRequest::Destruction {
            client: c,
            event: Destruction::Seat { object: last.handle },
        };
        let pk = last.pointers.map_values(capability_record(c, Capability::Pointer))
            + last.keyboards.map_values(capability_record(c, Capability::Keyboard));
        let pkt = pk + last.touchs.map_values(capability_record(c, Capability::Touch));
        assert(tail == pkt + seq![seat_rec]);
        assert(tail.contains(seat_rec)) by {
            assert(tail[tail.len() - 1] == seat_rec);
        }
        assert forall|i: int|
            0 <= i < seats.len() implies seats_records(c, seats).contains(
            WaylandRequest::Destruction {
                client: c,
                event: Destruction::Seat { object: #[trigger] seats[i].handle },
            },
        ) by {
            if i < t.len() {
                assert(t[i] == seats[i]);
                lemma_in_concat(head, tail, WaylandRequest::Destruction {
                    client: c,
                    event: Destruction::Seat { object: seats[i].handle },
                });
            } else {
                lemma_in_concat(head, tail, seat_rec);
            }
        }
        assert forall|i: int, cap: Capability, o: u32|
            0 <= i < seats.len() && #[trigger] seats[i].capability(cap).contains(o) implies seats_records(
            c,
            seats,
        ).contains((capability_record(c, cap))(o)) by {
            let x = (capability_record(c, cap))(o);
            if i < t.len() {
                assert(t[i] == seats[i]);
                lemma_in_concat(head, tail, x);
            } else {
                match cap {
                    Capability::Pointer => {
                        lemma_in_records(last.pointers, capability_record(c, cap), o);
                        lemma_in_concat(
                            last.pointers.map_values(capability_record(c, Capability::Pointer)),
                            last.keyboards.map_values(capability_record(c, Capability::Keyboard)),
                            x,
                        );
                        lemma_in_concat(pk, last.touchs.map_values(capability_record(c, Capability::Touch)), x);
                    },
                    Capability::Keyboard => {
                        lemma_in_records(last.keyboards, capability_record(c, cap), o);
                        lemma_in_concat(
                            last.pointers.map_values(capability_record(c, Capability::Pointer)),
                            last.keyboards.map_values(capability_record(c, Capability::Keyboard)),
                            x,
                        );
                        lemma_in_concat(pk, last.touchs.map_values(capability_record(c, Capability::Touch)), x);
                    },
                    Capability::Touch => {
                        lemma_in_records(last.touchs, capability_record(c, cap), o);
                        lemma_in_concat(pk, last.touchs.map_values(capability_record(c, Capability::Touch)), x);
                    },
                }
                lemma_in_concat(pkt, seq![seat_rec], x);
                lemma_in_concat(head, tail, x);
            }
        }
    }
}

proof fn lemma_concat_keeps(a: Seq<WaylandRequest>, b: Seq<WaylandRequest>, x: WaylandRequest)
    ensures
        (a.contains(x) || b.contains(x)) ==> (a + b).contains(x),
{
    if a.contains(x) || b.contains(x) {
        lemma_in_concat(a, b, x);
    }
}

/// Every object that the registry `r` of client `c` holds has its record
/// among `removal_records(c, r)`: each object of a slot or a list, each
/// seat object, and each capability object of a seat.
pub proof fn lemma_removal_records_cover(c: ClientId, r: ClientResourcesView)
    ensures
        forall|kind: ObjectKind, o: u32|
            #[trigger] r.holds(kind, o) ==> removal_records(c, r).contains(
                (object_record(c, kind))(o),
            ),
        forall|i: int|
            0 <= i < r.seats.len() ==> removal_records(c, r).contains(
                WaylandRequest::Destruction {
                    client: c,
                    event: Destruction::Seat { object: #[trigger] r.seats[i].handle },
                },
            ),
        forall|i: int, cap: Capability, o: u32|
            0 <= i < r.seats.len() && #[trigger] r.seats[i].capability(cap).contains(o)
                ==> removal_records(c, r).contains((capability_record(c, cap))(o)),
{
    let part1 = single_records(c, ObjectKind::Compositor, r.compositor);
    let part2 = single_records(c, ObjectKind::Subcompositor, r.subcompositor);
    let part3 = single_records(c, ObjectKind::Shm, r.shm);
    let part4 = single_records(c, ObjectKind::XdgWmBase, r.xdg_wm_base);
    let part5 = r.shells.map_values(object_record(c, ObjectKind::Shell));
    let part6 = r.outputs.map_values(object_record(c, ObjectKind::Output));
    let part7 = r.shm_pools.map_values(object_record(c, ObjectKind::ShmPool));
    let part8 = r.xdg_surfaces.map_values(object_record(c, ObjectKind::XdgSurface));
    let part9 = r.xdg_popups.map_values(object_record(c, ObjectKind::XdgPopup));
    let part10 = r.xdg_positioners.map_values(object_record(c, ObjectKind::XdgPositioner));
    let part11 = r.xdg_top_levels.map_values(object_record(c, ObjectKind::XdgToplevel));
    let part12 = seats_records(c, r.seats);
    let upto2 = part1 + part2;
    let upto3 = upto2 + part3;
    let upto4 = upto3 + part4;
    let upto5 = upto4 + part5;
    let upto6 = upto5 + part6;
    let upto7 = upto6 + part7;
    let upto8 = upto7 + part8;
    let upto9 = upto8 + part9;
    let upto10 = upto9 + part10;
    let upto11 = upto10 + part11;
    let all = upto11 + part12;
    assert(all == removal_records(c, r));
    assert forall|x: WaylandRequest|
        part1.contains(x) || part2.contains(x) || part3.contains(x) || part4.contains(x) || part5.contains(x)
            || part6.contains(x) || part7.contains(x) || part8.contains(x) || part9.contains(x) || part10.contains(
            x,
        ) || part11.contains(x) || part12.contains(x) implies #[trigger] all.contains(x) by {
        lemma_concat_keeps(part1, part2, x);
        lemma_concat_keeps(upto2, part3, x);
        lemma_concat_keeps(upto3, part4, x);
        lemma_concat_keeps(upto4, part5, x);
        lemma_concat_keeps(upto5, part6, x);
        lemma_concat_keeps(upto6, part7, x);
        lemma_concat_keeps(upto7, part8, x);
        lemma_concat_keeps(upto8, part9, x);
        lemma_concat_keeps(upto9, part10, x);
        lemma_concat_keeps(upto10, part11, x);
        lemma_concat_keeps(upto11, part12, x);
    }
    assert forall|kind: ObjectKind, o: u32| #[trigger] r.holds(kind, o) implies all.contains(
        (object_record(c, kind))(o),
    ) by {
        let x = (object_record(c, kind))(o);
        let f = object_record(c, kind);
        match kind {
            ObjectKind::Compositor => assert(part1[0] == x),
            ObjectKind::Subcompositor => assert(part2[0] == x),
            ObjectKind::Shm => assert(part3[0] == x),
            ObjectKind::XdgWmBase => assert(part4[0] == x),
            ObjectKind::Shell => lemma_in_records(r.shells, f, o),
            ObjectKind::Output => lemma_in_records(r.outputs, f, o),
            ObjectKind::ShmPool => lemma_in_records(r.shm_pools, f, o),
            ObjectKind::XdgSurface => lemma_in_records(r.xdg_surfaces, f, o),
            ObjectKind::XdgPopup => lemma_in_records(r.xdg_popups, f, o),
            ObjectKind::XdgPositioner => lemma_in_records(r.xdg_positioners, f, o),
            ObjectKind::XdgToplevel => lemma_in_records(r.xdg_top_levels, f, o),
        }
    }
    lemma_seats_records_cover(c, r.seats);
}

} // verus!
