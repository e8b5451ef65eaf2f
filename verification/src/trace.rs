//! What holds of a hub over whole sequences of events.

use vstd::prelude::*;
use crate::event::{DeliveryView, EventView, SessionId, addressed_to, fan_out, inbox};
use crate::hub::{HubView, all_but, lemma_disconnect_keeps_validity};
use crate::message::{ready_text, relay_text};

verus! {

/// The hub after `events`, handled in order, starting from `start`.
pub open spec fn run(start: HubView, events: Seq<EventView>) -> HubView
    decreases events.len(),
{
    if events.len() == 0 {
        start
    } else {
        run(start, events.drop_last()).step(events.last())
    }
}

/// Whether `event` is a connect of the session `id`.
pub open spec fn connects(event: EventView, id: SessionId) -> bool {
    event matches EventView::Connect { name, id: who } && who == id
}

/// Whether `event` is a disconnect of the session `id`.
pub open spec fn disconnects(event: EventView, id: SessionId) -> bool {
    event matches EventView::Disconnect { id: who } && who == id
}

/// Whether `events` leave the session `id` connected: it has been
/// connected, and not disconnected since.
pub open spec fn live(events: Seq<EventView>, id: SessionId) -> bool {
    exists|i: int|
        0 <= i < events.len() && #[trigger] connects(events[i], id) && forall|j: int|
            i < j < events.len() ==> !#[trigger] disconnects(events[j], id)
}

/// Whether `event`, handled by `hub`, announces the start.
pub open spec fn announces(hub: HubView, event: EventView) -> bool {
    event matches EventView::Connect { name, id } && hub.completes_quorum(id)
}

/// How often the start is announced while `events` are handled in order,
/// starting from `start`.
pub open spec fn announcements(start: HubView, events: Seq<EventView>) -> nat
    decreases events.len(),
{
    if events.len() == 0 {
        0
    } else {
        let before = announcements(start, events.drop_last());
        if announces(run(start, events.drop_last()), events.last()) {
            before + 1
        } else {
            before
        }
    }
}

/// What is left of `deliveries` when every delivery to a session of `lost`
/// fails: each delivery is attempted by itself, so the others arrive.
pub open spec fn arrived(deliveries: Seq<DeliveryView>, lost: Set<SessionId>) -> Seq<DeliveryView> {
    deliveries.filter(spared_by(lost))
}

/// The test that the deliveries pass which are for no session of `lost`.
pub open spec fn spared_by(lost: Set<SessionId>) -> spec_fn(DeliveryView) -> bool {
    |d: DeliveryView| !lost.contains(d.to)
}

/// Every event leaves a valid hub valid.
pub proof fn lemma_step_keeps_validity(hub: HubView, event: EventView)
    requires
        hub.valid(),
    ensures
        hub.step(event).valid(),
{
    match event {
        EventView::Connect { name, id } => {},
        EventView::Disconnect { id } => {
            lemma_disconnect_keeps_validity(hub, id);
        },
        EventView::Broadcast { text } => {},
        EventView::Relay { name, text } => {},
    }
}

/// Whatever events a valid hub handles, it stays valid; the quorum never
/// changes; and once the start is announced it stays announced.
pub proof fn lemma_run_keeps_validity(start: HubView, events: Seq<EventView>)
    requires
        start.valid(),
    ensures
        run(start, events).valid(),
        run(start, events).threshold == start.threshold,
        start.announced ==> run(start, events).announced,
    decreases events.len(),
{
    if events.len() > 0 {
        lemma_run_keeps_validity(start, events.drop_last());
        lemma_step_keeps_validity(run(start, events.drop_last()), events.last());
    }
}

/// A session is registered after a disconnect of `id` exactly when it was
/// registered before and is not `id`.
pub proof fn lemma_disconnect_contains(hub: HubView, id: SessionId, other: SessionId)
    ensures
        hub.disconnect(id).registry.contains(other) <==> (other != id && hub.registry.contains(
            other,
        )),
{
    let keep = all_but(id);
    let rest = hub.registry.filter(keep);
    if rest.contains(other) {
        hub.registry.lemma_filter_contains_rev(keep, other);
    }
    if other != id && hub.registry.contains(other) {
        let k = choose|k: int| 0 <= k < hub.registry.len() && hub.registry[k] == other;
        hub.registry.lemma_filter_contains(keep, k);
    }
}

/// Registry integrity: after any sequence of events, handled from a fresh
/// hub, the registry holds exactly the sessions that have been connected
/// and not disconnected since, each of them once.
pub proof fn lemma_registry_integrity(threshold: nat, events: Seq<EventView>)
    requires
        threshold >= 1,
    ensures
        run(HubView::fresh(threshold), events).registry.no_duplicates(),
        forall|id: SessionId|
            #[trigger] run(HubView::fresh(threshold), events).registry.contains(id) <==> live(
                events,
                id,
            ),
    decreases events.len(),
{
    let start = HubView::fresh(threshold);
    lemma_run_keeps_validity(start, events);
    if events.len() == 0 {
        assert forall|id: SessionId| !live(events, id) by {}
    } else {
        let front = events.drop_last();
        let last = events.last();
        let before = run(start, front).registry;
        lemma_registry_integrity(threshold, front);
        assert(events =~= front.push(last));
        assert forall|id: SessionId| #[trigger]
            run(start, events).registry.contains(id) <==> live(events, id) by {
            lemma_live_step(front, last, id);
            match last {
                EventView::Connect { name, id: who } => {
                    if !before.contains(who) {
                        if who == id {
                            assert(before.push(who)[before.len() as int] == id);
                        } else if before.contains(id) {
                            let k = choose|k: int| 0 <= k < before.len() && before[k] == id;
                            assert(before.push(who)[k] == id);
                        }
                    }
                },
                EventView::Disconnect { id: who } => {
                    lemma_disconnect_contains(run(start, front), who, id);
                },
                EventView::Broadcast { text } => {},
                EventView::Relay { name, text } => {},
            }
        }
    }
}

/// How one more event changes which sessions are left connected: a connect
/// of `id` leaves it connected, a disconnect of `id` does not, and any
/// other event leaves `id` as it was.
pub proof fn lemma_live_step(front: Seq<EventView>, last: EventView, id: SessionId)
    ensures
        connects(last, id) ==> live(front.push(last), id),
        disconnects(last, id) ==> !live(front.push(last), id),
        !connects(last, id) && !disconnects(last, id) ==> (live(front.push(last), id) <==> live(
            front,
            id,
        )),
        front.push(last).drop_last() == front,
        front.push(last).last() == last,
{
    let events = front.push(last);
    assert(events.drop_last() =~= front);
    if !connects(last, id) && !disconnects(last, id) {
        if live(events, id) {
            let i = choose|i: int|
                0 <= i < events.len() && #[trigger] connects(events[i], id) && forall|j: int|
                    i < j < events.len() ==> !#[trigger] disconnects(events[j], id);
            assert(connects(front[i], id));
            assert forall|j: int| i < j < front.len() implies !#[trigger] disconnects(
                front[j],
                id,
            ) by {
                assert(!disconnects(events[j], id));
            }
        }
        if live(front, id) {
            let i = choose|i: int|
                0 <= i < front.len() && #[trigger] connects(front[i], id) && forall|j: int|
                    i < j < front.len() ==> !#[trigger] disconnects(front[j], id);
            assert(connects(events[i], id));
        }
    } else if connects(last, id) {
        assert(connects(events[front.len() as int], id));
    } else {
        assert(disconnects(events[front.len() as int], id));
    }
}

/// Quorum trigger, seen at one connect. A valid hub announces the start on
/// a connect exactly when the start has not been announced and the connect
/// brings the registry to the quorum: not when the registry ends above or
/// below it, not a second time, and not for a session that is registered
/// already. The announcement is `ready` for every session that is
/// registered after the connect; any other connect delivers nothing.
pub proof fn lemma_quorum_trigger(hub: HubView, name: Seq<char>, id: SessionId)
    requires
        hub.valid(),
    ensures
        announces(hub, EventView::Connect { name, id }) <==> (!hub.announced && hub.connect(
            id,
        ).registry.len() == hub.threshold),
        hub.connect(id).announced <==> (hub.announced || announces(
            hub,
            EventView::Connect { name, id },
        )),
        announces(hub, EventView::Connect { name, id }) ==> hub.connect_outcome(
            name,
            id,
        ).deliveries == fan_out(hub.connect(id).registry, ready_text()),
        !announces(hub, EventView::Connect { name, id }) ==> hub.connect_outcome(
            name,
            id,
        ).deliveries == Seq::<DeliveryView>::empty(),
{
}

/// Quorum trigger, seen over the life of a hub. Whatever events a fresh
/// hub handles, it announces the start at most once; it has announced it
/// exactly when the registry has held the quorum after some number of the
/// events.
pub proof fn lemma_quorum_once(threshold: nat, events: Seq<EventView>)
    requires
        threshold >= 1,
    ensures
        announcements(HubView::fresh(threshold), events) == (if run(
            HubView::fresh(threshold),
            events,
        ).announced {
            1nat
        } else {
            0nat
        }),
        run(HubView::fresh(threshold), events).announced <==> exists|k: int|
            0 <= k <= events.len() && (#[trigger] run(
                HubView::fresh(threshold),
                events.take(k),
            )).registry.len() == threshold,
    decreases events.len(),
{
    let start = HubView::fresh(threshold);
    lemma_run_keeps_validity(start, events);
    assert(events.take(events.len() as int) =~= events);
    if events.len() > 0 {
        let front = events.drop_last();
        lemma_quorum_once(threshold, front);
        lemma_run_keeps_validity(start, front);
        assert forall|k: int| 0 <= k <= front.len() implies events.take(k) == front.take(k) by {
            assert(events.take(k) =~= front.take(k));
        }
        if run(start, front).announced {
            let k = choose|k: int|
                0 <= k <= front.len() && (#[trigger] run(start, front.take(k))).registry.len()
                    == threshold;
            assert(run(start, events.take(k)).registry.len() == threshold);
        }
    }
}

/// Quorum trigger, seen at one place of a sequence. Of the events that a
/// fresh hub handles, the one at `at` announces the start exactly when it
/// is the first to leave the registry with the quorum.
pub proof fn lemma_quorum_position(threshold: nat, events: Seq<EventView>, at: int)
    requires
        threshold >= 1,
        0 <= at < events.len(),
    ensures
        announces(run(HubView::fresh(threshold), events.take(at)), events[at]) <==> (run(
            HubView::fresh(threshold),
            events.take(at + 1),
        ).registry.len() == threshold && forall|k: int|
            0 <= k <= at ==> (#[trigger] run(
                HubView::fresh(threshold),
                events.take(k),
            )).registry.len() != threshold),
{
    let start = HubView::fresh(threshold);
    let front = events.take(at);
    let before = run(start, front);
    assert(events.take(at + 1).drop_last() =~= front);
    lemma_run_keeps_validity(start, front);
    lemma_quorum_once(threshold, front);
    assert forall|k: int| 0 <= k <= at implies front.take(k) == events.take(k) by {
        assert(front.take(k) =~= events.take(k));
    }
    if before.announced {
        let k = choose|k: int|
            0 <= k <= front.len() && (#[trigger] run(start, front.take(k))).registry.len()
                == threshold;
        assert(run(start, events.take(k)).registry.len() == threshold);
    } else {
        assert forall|k: int| 0 <= k <= at implies (#[trigger] run(
            start,
            events.take(k),
        )).registry.len() != threshold by {
            assert(run(start, front.take(k)).registry.len() != threshold);
        }
        if let EventView::Disconnect { id } = events[at] {
            before.registry.lemma_filter_len(all_but(id));
        }
    }
}

/// Broadcast fan-out, seen from one session. Of one delivery of `text` for
/// each session of a registry without duplicates, a session of the
/// registry gets exactly one, with `text`; any other session gets none.
pub proof fn lemma_fan_out_inbox(registry: Seq<SessionId>, text: Seq<char>, id: SessionId)
    requires
        registry.no_duplicates(),
    ensures
        inbox(fan_out(registry, text), id) == (if registry.contains(id) {
            seq![text]
        } else {
            Seq::<Seq<char>>::empty()
        }),
    decreases registry.len(),
{
    reveal(Seq::filter);
    if registry.len() > 0 {
        let front = registry.drop_last();
        lemma_fan_out_inbox(front, text, id);
        assert(fan_out(registry, text).drop_last() =~= fan_out(front, text));
        if registry.last() == id {
            if front.contains(id) {
                let k = choose|k: int| 0 <= k < front.len() && front[k] == id;
                assert(registry[k] == registry[registry.len() - 1]);
            }
            assert(inbox(fan_out(registry, text), id) =~= seq![text]);
        } else {
            if registry.contains(id) {
                let k = choose|k: int| 0 <= k < registry.len() && registry[k] == id;
                assert(front[k] == id);
            }
            if front.contains(id) {
                let k = choose|k: int| 0 <= k < front.len() && front[k] == id;
                assert(registry[k] == id);
            }
        }
    }
}

/// Broadcast fan-out. When a valid hub relays `text` of the client called
/// `name`, every registered session gets exactly one frame, which reads
/// `<name>: <text>`, and a session that is not registered gets none.
pub proof fn lemma_relay_reaches_all(
    hub: HubView,
    name: Seq<char>,
    text: Seq<char>,
    id: SessionId,
)
    requires
        hub.valid(),
    ensures
        inbox(hub.react(EventView::Relay { name, text }).deliveries, id) == (if hub.registry.contains(
            id,
        ) {
            seq![relay_text(name, text)]
        } else {
            Seq::<Seq<char>>::empty()
        }),
{
    lemma_fan_out_inbox(hub.registry, relay_text(name, text), id);
}

/// A filter that every element passes changes nothing.
pub proof fn lemma_filter_all<A>(s: Seq<A>, keep: spec_fn(A) -> bool)
    requires
        forall|i: int| 0 <= i < s.len() ==> keep(#[trigger] s[i]),
    ensures
        s.filter(keep) == s,
    decreases s.len(),
{
    reveal(Seq::filter);
    if s.len() > 0 {
        let front = s.drop_last();
        assert forall|i: int| 0 <= i < front.len() implies keep(#[trigger] front[i]) by {
            assert(front[i] == s[i]);
        }
        lemma_filter_all(front, keep);
        assert(s.filter(keep) =~= s);
    }
}

/// Disconnect idempotence. A disconnect of a session that is not
/// registered changes nothing.
pub proof fn lemma_disconnect_absent(hub: HubView, id: SessionId)
    requires
        !hub.registry.contains(id),
    ensures
        hub.disconnect(id) == hub,
{
    lemma_filter_all(hub.registry, all_but(id));
}

/// Disconnect idempotence. A second disconnect of the same session changes
/// nothing.
pub proof fn lemma_disconnect_twice(hub: HubView, id: SessionId)
    ensures
        hub.disconnect(id).disconnect(id) == hub.disconnect(id),
{
    lemma_disconnect_contains(hub, id, id);
    lemma_disconnect_absent(hub.disconnect(id), id);
}

/// Isolation. When every delivery to a session of `lost` fails, a session
/// outside `lost` gets what it would have got had none failed.
pub proof fn lemma_failure_is_isolated(
    deliveries: Seq<DeliveryView>,
    lost: Set<SessionId>,
    id: SessionId,
)
    requires
        !lost.contains(id),
    ensures
        arrived(deliveries, lost).filter(addressed_to(id)) == deliveries.filter(addressed_to(id)),
        inbox(arrived(deliveries, lost), id) == inbox(deliveries, id),
    decreases deliveries.len(),
{
    reveal(Seq::filter);
    if deliveries.len() > 0 {
        let front = deliveries.drop_last();
        lemma_failure_is_isolated(front, lost, id);
        if spared_by(lost)(deliveries.last()) {
            assert(arrived(deliveries, lost).drop_last() =~= arrived(front, lost));
        }
    }
}

/// Isolation, for a relay. When a valid hub relays `text` of the client
/// called `name` and every delivery to a session of `lost` fails, each
/// registered session outside `lost` still gets its one frame.
pub proof fn lemma_relay_survives_failures(
    hub: HubView,
    name: Seq<char>,
    text: Seq<char>,
    lost: Set<SessionId>,
    id: SessionId,
)
    requires
        hub.valid(),
        hub.registry.contains(id),
        !lost.contains(id),
    ensures
        inbox(arrived(hub.react(EventView::Relay { name, text }).deliveries, lost), id) == seq![
            relay_text(name, text),
        ],
{
    lemma_failure_is_isolated(hub.react(EventView::Relay { name, text }).deliveries, lost, id);
    lemma_relay_reaches_all(hub, name, text, id);
}

} // verus!
