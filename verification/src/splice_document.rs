//! What splicing makes of the target document itself: the document is
//! copied as it stands, but for the text of its `Name` element, which is
//! replaced, and for an empty `MissileTypes` container, which is added
//! where the target has none.
//!
//! The laws take the target by its parts, so that they say of each part what
//! becomes of it.

use vstd::prelude::*;
use crate::events::EventView;
use crate::extract::nesting;
use crate::splice::{
    close_tag, open_tag, skip_element, splicer, written, written_all, written_fragments,
    WriteState, WriterView,
};

verus! {

/// Whether the machine, in a state in which it looks for a tag or for the
/// end of the document, passes an event through and stays in the state:
/// whether the event is none of those the state waits for.
pub open spec fn quiet(state: WriteState, event: EventView) -> bool {
    match state {
        WriteState::FindShips => !event.opens("Name"@) && !event.opens("Ships"@),
        WriteState::FindMissiles => !event.opens("MissileTypes"@) && !event.closes("Fleet"@),
        WriteState::Finishing => !(event is EndDocument),
        _ => false,
    }
}

/// Whether the machine in a state passes every event of a list through.
pub open spec fn all_quiet(state: WriteState, events: Seq<EventView>) -> bool {
    forall|i: int| 0 <= i < events.len() ==> quiet(state, #[trigger] events[i])
}

/// Whether a list of events is the content of an element: whole elements
/// and events that are no tags, and not the end of the document.
pub open spec fn is_content(content: Seq<EventView>) -> bool {
    &&& nesting(content) == 0
    &&& forall|k: int|
        0 <= k < content.len() ==> nesting(#[trigger] content.take(k)) >= 0 && !(content[k]
            is EndDocument)
}

/// What is written for one list of events after another is what is written
/// for the one, then what is written for the other.
pub proof fn lemma_written_all_concat(a: Seq<EventView>, b: Seq<EventView>)
    ensures
        written_all(a + b) == written_all(a) + written_all(b),
    decreases b.len(),
{
    if b.len() == 0 {
        assert(a + b =~= a);
        assert(written_all(a) + written_all(b) =~= written_all(a));
    } else {
        lemma_written_all_concat(a, b.drop_last());
        assert((a + b).drop_last() =~= a + b.drop_last());
        assert((a + b).last() == b.last());
        assert(written_all(a + b) =~= written_all(a) + written_all(b));
    }
}

/// What is written for a single event.
pub proof fn lemma_written_all_one(event: EventView)
    ensures
        written_all(seq![event]) == written(event),
{
    assert(seq![event].drop_last() =~= Seq::<EventView>::empty());
    assert(written_all(seq![event].drop_last()) =~= Seq::<EventView>::empty());
    assert(written_all(seq![event]) =~= written(event));
}

/// A machine passes through the events that it does not wait for: it
/// writes what is written for each and stays in its state.
pub proof fn lemma_passes(m: WriterView, segment: Seq<EventView>, rest: Seq<EventView>)
    requires
        all_quiet(m.state, segment),
        !m.finished(),
        m.remaining == segment + rest,
    ensures
        m.run() == (WriterView {
            remaining: rest,
            output: m.output + written_all(segment),
            ..m
        }).run(),
    decreases segment.len(),
{
    if segment.len() == 0 {
        assert(segment + rest =~= rest);
        assert(m.output + written_all(segment) =~= m.output);
    } else {
        let event = segment[0];
        let next = m.tick();
        assert(m.remaining[0] == event);
        assert(quiet(m.state, event));
        assert(m.remaining.drop_first() =~= segment.drop_first() + rest);
        assert(next == m.pass(event));
        assert forall|i: int| 0 <= i < segment.drop_first().len() implies quiet(
            next.state,
            #[trigger] segment.drop_first()[i],
        ) by {
            assert(segment.drop_first()[i] == segment[i + 1]);
        }
        lemma_passes(next, segment.drop_first(), rest);
        lemma_written_all_concat(seq![event], segment.drop_first());
        lemma_written_all_one(event);
        assert(seq![event] + segment.drop_first() =~= segment);
        assert(m.output + written(event) + written_all(segment.drop_first()) =~= m.output
            + written_all(segment));
    }
}

/// Inside a container, the machine passes through what the container
/// holds: it writes what is written for each event, and is at the level of
/// the container again after it.
pub proof fn lemma_passes_content(
    m: WriterView,
    content: Seq<EventView>,
    rest: Seq<EventView>,
    k: int,
)
    requires
        m.state == WriteState::InsertingShips || m.state == WriteState::InsertingMissiles,
        is_content(content),
        0 <= k <= content.len(),
        m.depth == nesting(content.take(k)),
        m.remaining == content.skip(k) + rest,
    ensures
        m.run() == (WriterView {
            remaining: rest,
            output: m.output + written_all(content.skip(k)),
            depth: 0,
            ..m
        }).run(),
    decreases content.len() - k,
{
    if k == content.len() {
        assert(content.take(k) =~= content);
        assert(content.skip(k) =~= Seq::<EventView>::empty());
        assert(content.skip(k) + rest =~= rest);
        assert(m.output + written_all(content.skip(k)) =~= m.output);
    } else {
        let event = content[k];
        let next = m.tick();
        assert(m.remaining[0] == event);
        assert(m.remaining.drop_first() =~= content.skip(k + 1) + rest);
        assert(content.take(k + 1).drop_last() =~= content.take(k));
        assert(content.take(k + 1).last() == event);
        assert(nesting(content.take(k)) >= 0);
        if k + 1 < content.len() {
            assert(nesting(content.take(k + 1)) >= 0);
        } else {
            assert(content.take(k + 1) =~= content);
        }
        assert(next.depth == nesting(content.take(k + 1)));
        assert(next.output == m.output + written(event));
        lemma_passes_content(next, content, rest, k + 1);
        lemma_written_all_concat(seq![event], content.skip(k + 1));
        lemma_written_all_one(event);
        assert(seq![event] + content.skip(k + 1) =~= content.skip(k));
        assert(m.output + written(event) + written_all(content.skip(k + 1)) =~= m.output
            + written_all(content.skip(k)));
    }
}

/// Skipping from inside the content of an element reaches the closing tag
/// of the element and leaves what follows it.
pub proof fn lemma_skips_content(
    content: Seq<EventView>,
    close: EventView,
    rest: Seq<EventView>,
    k: int,
)
    requires
        is_content(content),
        close is EndElement,
        0 <= k <= content.len(),
    ensures
        skip_element(
            content.skip(k) + seq![close] + rest,
            (1 + nesting(content.take(k))) as nat,
        ) == (true, rest),
    decreases content.len() - k,
{
    let events = content.skip(k) + seq![close] + rest;
    let depth = (1 + nesting(content.take(k))) as nat;
    if k == content.len() {
        assert(content.take(k) =~= content);
        assert(depth == 1);
        assert(events[0] == close);
        assert(events.drop_first() =~= rest);
        assert(skip_element(rest, 0) == (true, rest));
        assert(skip_element(events, 1) == skip_element(rest, 0));
    } else {
        let event = content[k];
        let later = content.skip(k + 1) + seq![close] + rest;
        assert(events[0] == event);
        assert(events.drop_first() =~= later);
        assert(content.take(k + 1).drop_last() =~= content.take(k));
        assert(content.take(k + 1).last() == event);
        assert(nesting(content.take(k)) >= 0);
        if k + 1 < content.len() {
            assert(nesting(content.take(k + 1)) >= 0);
        } else {
            assert(content.take(k + 1) =~= content);
        }
        let deeper = (1 + nesting(content.take(k + 1))) as nat;
        assert(deeper == depth + crate::extract::step_of(event));
        assert(!(event is EndDocument));
        assert(depth >= 1);
        assert(skip_element(events, depth) == skip_element(later, deeper));
        lemma_skips_content(content, close, rest, k + 1);
    }
}

/// From the search for the ships on, a target with nothing to insert is
/// copied as it stands: the ships, what stands between them and the
/// missiles, the missiles and the rest are written as they are.
pub proof fn lemma_copies_from_ships(
    m: WriterView,
    ships_open: EventView,
    ships: Seq<EventView>,
    ships_close: EventView,
    before_missiles: Seq<EventView>,
    missiles_open: EventView,
    missiles: Seq<EventView>,
    missiles_close: EventView,
    rest: Seq<EventView>,
)
    requires
        m.state == WriteState::FindShips,
        m.insert_ships.len() == 0,
        m.insert_missiles.len() == 0,
        ships_open.opens("Ships"@),
        is_content(ships),
        ships_close.closes("Ships"@),
        all_quiet(WriteState::FindMissiles, before_missiles),
        missiles_open.opens("MissileTypes"@),
        is_content(missiles),
        missiles_close.closes("MissileTypes"@),
        all_quiet(WriteState::Finishing, rest),
        m.remaining == seq![ships_open] + ships + seq![ships_close] + before_missiles + seq![
            missiles_open,
        ] + missiles + seq![missiles_close] + rest + seq![EventView::EndDocument],
    ensures
        m.run().state == WriteState::Done,
        m.run().output == m.output + written_all(
            seq![ships_open] + ships + seq![ships_close] + before_missiles + seq![missiles_open]
                + missiles + seq![missiles_close] + rest,
        ),
{
    reveal_strlit("Name");
    reveal_strlit("Ships");
    assert("Name"@ != "Ships"@) by {
        assert("Name"@.len() == 4);
        assert("Ships"@.len() == 5);
    }
    let end = seq![EventView::EndDocument];
    let t6 = seq![missiles_close] + rest + end;
    let t5 = missiles + t6;
    let t4 = seq![missiles_open] + t5;
    let t3 = before_missiles + t4;
    let t2 = seq![ships_close] + t3;
    let t1 = ships + t2;
    assert(m.remaining =~= seq![ships_open] + t1);
    // The opening tag of the ships.
    let m1 = WriterView {
        state: WriteState::InsertingShips,
        remaining: t1,
        output: m.output + written(ships_open),
        depth: 0,
        ..m
    };
    assert(m.remaining.drop_first() =~= t1);
    assert(m.tick() == m1);
    // The ships.
    assert(ships.take(0) =~= Seq::<EventView>::empty());
    assert(ships.skip(0) =~= ships);
    lemma_passes_content(m1, ships, t2, 0);
    let m2 = WriterView { remaining: t2, output: m1.output + written_all(ships), ..m1 };
    // The closing tag of the ships.
    let m3 = WriterView {
        state: WriteState::FindMissiles,
        remaining: t3,
        output: m2.output + written(ships_close),
        ..m2
    };
    assert(t2.drop_first() =~= t3);
    assert(m2.output + written_fragments(m2.insert_ships) + written(ships_close) =~= m2.output
        + written(ships_close));
    assert(m2.insert_ships =~= Seq::empty());
    assert(m2.tick() == m3);
    // What stands before the missiles.
    lemma_passes(m3, before_missiles, t4);
    let m4 = WriterView { remaining: t4, output: m3.output + written_all(before_missiles), ..m3 };
    // The opening tag of the missiles.
    let m5 = WriterView {
        state: WriteState::InsertingMissiles,
        remaining: t5,
        output: m4.output + written(missiles_open),
        depth: 0,
        ..m4
    };
    assert(t4.drop_first() =~= t5);
    assert(m4.tick() == m5);
    // The missiles.
    assert(missiles.take(0) =~= Seq::<EventView>::empty());
    assert(missiles.skip(0) =~= missiles);
    lemma_passes_content(m5, missiles, t6, 0);
    let m6 = WriterView { remaining: t6, output: m5.output + written_all(missiles), ..m5 };
    // The closing tag of the missiles.
    let t7 = rest + end;
    let m7 = WriterView {
        state: WriteState::Finishing,
        remaining: t7,
        output: m6.output + written(missiles_close),
        ..m6
    };
    assert(t6.drop_first() =~= t7);
    assert(m6.output + written_fragments(m6.insert_missiles) + written(missiles_close)
        =~= m6.output + written(missiles_close));
    assert(m6.insert_missiles =~= Seq::empty());
    assert(m6.tick() == m7);
    // The rest, to the end of the document.
    lemma_passes(m7, rest, end);
    let m8 = WriterView { remaining: end, output: m7.output + written_all(rest), ..m7 };
    let m9 = WriterView { state: WriteState::Done, remaining: Seq::empty(), ..m8 };
    assert(end.drop_first() =~= Seq::<EventView>::empty());
    assert(m8.output + written(EventView::EndDocument) =~= m8.output);
    assert(m8.tick() == m9);
    assert(m.run() == m1.run());
    assert(m2.run() == m3.run());
    assert(m4.run() == m5.run());
    assert(m6.run() == m7.run());
    assert(m8.run() == m9.run());
    assert(m9.run() == m9);
    // What was written, as one list.
    let x1 = seq![ships_open] + ships;
    let x2 = x1 + seq![ships_close];
    let x3 = x2 + before_missiles;
    let x4 = x3 + seq![missiles_open];
    let x5 = x4 + missiles;
    let x6 = x5 + seq![missiles_close];
    lemma_written_all_one(ships_open);
    lemma_written_all_one(ships_close);
    lemma_written_all_one(missiles_open);
    lemma_written_all_one(missiles_close);
    lemma_written_all_concat(seq![ships_open], ships);
    lemma_written_all_concat(x1, seq![ships_close]);
    lemma_written_all_concat(x2, before_missiles);
    lemma_written_all_concat(x3, seq![missiles_open]);
    lemma_written_all_concat(x4, missiles);
    lemma_written_all_concat(x5, seq![missiles_close]);
    lemma_written_all_concat(x6, rest);
    assert(m9.output =~= m.output + written_all(x6 + rest));
}

/// From the search for the ships on, a target without a `MissileTypes`
/// container and with nothing to insert is copied as it stands, but for an
/// empty `MissileTypes` container that is written directly before the
/// closing tag of `Fleet`.
pub proof fn lemma_copies_and_adds_container(
    m: WriterView,
    ships_open: EventView,
    ships: Seq<EventView>,
    ships_close: EventView,
    before_end: Seq<EventView>,
    fleet_close: EventView,
    rest: Seq<EventView>,
)
    requires
        m.state == WriteState::FindShips,
        m.insert_ships.len() == 0,
        m.insert_missiles.len() == 0,
        ships_open.opens("Ships"@),
        is_content(ships),
        ships_close.closes("Ships"@),
        all_quiet(WriteState::FindMissiles, before_end),
        fleet_close.closes("Fleet"@),
        all_quiet(WriteState::Finishing, rest),
        m.remaining == seq![ships_open] + ships + seq![ships_close] + before_end + seq![
            fleet_close,
        ] + rest + seq![EventView::EndDocument],
    ensures
        m.run().state == WriteState::Done,
        m.run().output == m.output + written_all(
            seq![ships_open] + ships + seq![ships_close] + before_end,
        ) + seq![open_tag("MissileTypes"@), close_tag("MissileTypes"@)] + written_all(
            seq![fleet_close] + rest,
        ),
{
    reveal_strlit("Name");
    reveal_strlit("Ships");
    assert("Name"@ != "Ships"@) by {
        assert("Name"@.len() == 4);
        assert("Ships"@.len() == 5);
    }
    let end = seq![EventView::EndDocument];
    let t5 = rest + end;
    let t4 = seq![fleet_close] + t5;
    let t3 = before_end + t4;
    let t2 = seq![ships_close] + t3;
    let t1 = ships + t2;
    assert(m.remaining =~= seq![ships_open] + t1);
    let m1 = WriterView {
        state: WriteState::InsertingShips,
        remaining: t1,
        output: m.output + written(ships_open),
        depth: 0,
        ..m
    };
    assert(m.remaining.drop_first() =~= t1);
    assert(m.tick() == m1);
    assert(ships.take(0) =~= Seq::<EventView>::empty());
    assert(ships.skip(0) =~= ships);
    lemma_passes_content(m1, ships, t2, 0);
    let m2 = WriterView { remaining: t2, output: m1.output + written_all(ships), ..m1 };
    let m3 = WriterView {
        state: WriteState::FindMissiles,
        remaining: t3,
        output: m2.output + written(ships_close),
        ..m2
    };
    assert(t2.drop_first() =~= t3);
    assert(m2.output + written_fragments(m2.insert_ships) + written(ships_close) =~= m2.output
        + written(ships_close));
    assert(m2.insert_ships =~= Seq::empty());
    assert(m2.tick() == m3);
    lemma_passes(m3, before_end, t4);
    let m4 = WriterView { remaining: t4, output: m3.output + written_all(before_end), ..m3 };
    // The closing tag of the fleet: the container is written before it.
    let added = seq![open_tag("MissileTypes"@), close_tag("MissileTypes"@)];
    let m5 = WriterView {
        state: WriteState::Finishing,
        remaining: t5,
        output: m4.output + added + written(fleet_close),
        ..m4
    };
    assert(t4.drop_first() =~= t5);
    assert(m4.output + seq![open_tag("MissileTypes"@)] + written_fragments(m4.insert_missiles)
        + seq![close_tag("MissileTypes"@)] + written(fleet_close) =~= m4.output + added
        + written(fleet_close));
    assert(m4.insert_missiles =~= Seq::empty());
    assert(m4.tick() == m5);
    lemma_passes(m5, rest, end);
    let m6 = WriterView { remaining: end, output: m5.output + written_all(rest), ..m5 };
    let m7 = WriterView { state: WriteState::Done, remaining: Seq::empty(), ..m6 };
    assert(end.drop_first() =~= Seq::<EventView>::empty());
    assert(m6.output + written(EventView::EndDocument) =~= m6.output);
    assert(m6.tick() == m7);
    assert(m.run() == m1.run());
    assert(m2.run() == m3.run());
    assert(m4.run() == m5.run());
    assert(m6.run() == m7.run());
    assert(m7.run() == m7);
    let x1 = seq![ships_open] + ships;
    let x2 = x1 + seq![ships_close];
    lemma_written_all_one(ships_open);
    lemma_written_all_one(ships_close);
    lemma_written_all_one(fleet_close);
    lemma_written_all_concat(seq![ships_open], ships);
    lemma_written_all_concat(x1, seq![ships_close]);
    lemma_written_all_concat(x2, before_end);
    lemma_written_all_concat(seq![fleet_close], rest);
    assert(m7.output =~= m.output + written_all(x2 + before_end) + added + written_all(
        seq![fleet_close] + rest,
    ));
}

/// Up to the ships, a target is copied as it stands, but for the content of
/// its `Name` element, in place of which the new name is written.
pub proof fn lemma_replaces_the_name(
    m: WriterView,
    before_name: Seq<EventView>,
    name_open: EventView,
    old_name: Seq<EventView>,
    name_close: EventView,
    before_ships: Seq<EventView>,
    rest: Seq<EventView>,
)
    requires
        m.state == WriteState::FindShips,
        all_quiet(WriteState::FindShips, before_name),
        name_open.opens("Name"@),
        is_content(old_name),
        name_close is EndElement,
        all_quiet(WriteState::FindShips, before_ships),
        m.remaining == before_name + seq![name_open] + old_name + seq![name_close] + before_ships
            + rest,
    ensures
        m.run() == (WriterView {
            remaining: rest,
            output: m.output + written_all(before_name) + written(name_open) + seq![
                EventView::Characters(m.name),
                EventView::EndElement { name: name_open->StartElement_name },
            ] + written_all(before_ships),
            ..m
        }).run(),
{
    let t3 = before_ships + rest;
    let t2 = old_name + seq![name_close] + t3;
    let t1 = seq![name_open] + t2;
    assert(m.remaining =~= before_name + t1);
    lemma_passes(m, before_name, t1);
    let m1 = WriterView { remaining: t1, output: m.output + written_all(before_name), ..m };
    assert(old_name.skip(0) =~= old_name);
    assert(old_name.take(0) =~= Seq::<EventView>::empty());
    lemma_skips_content(old_name, name_close, t3, 0);
    assert(t1.drop_first() =~= t2);
    let m2 = WriterView {
        remaining: t3,
        output: m1.output + written(name_open) + seq![
            EventView::Characters(m.name),
            EventView::EndElement { name: name_open->StartElement_name },
        ],
        ..m1
    };
    assert(m1.tick() == m2);
    assert(m1.run() == m2.run()) by {
        crate::splice::lemma_skip_element_shrinks(m1.remaining.drop_first(), 1);
    }
    lemma_passes(m2, before_ships, rest);
}

/// Splicing nothing into a target copies the target as it stands, but for
/// the content of its `Name` element, in place of which the new name is
/// written.
///
/// The target is given by its parts: what stands before the `Name` element,
/// the element with its old content, what stands between it and the ships,
/// the `Ships` container, what stands between it and the missiles, the
/// `MissileTypes` container, and the rest up to the end of the document;
/// each container holds whole elements and events that are no tags. The
/// output holds what is written for each part, in this order; of the `Name`
/// element it holds the opening tag, the new name and the closing tag.
pub proof fn lemma_splice_of_nothing(
    before_name: Seq<EventView>,
    name_open: EventView,
    old_name: Seq<EventView>,
    name_close: EventView,
    before_ships: Seq<EventView>,
    ships_open: EventView,
    ships: Seq<EventView>,
    ships_close: EventView,
    before_missiles: Seq<EventView>,
    missiles_open: EventView,
    missiles: Seq<EventView>,
    missiles_close: EventView,
    rest: Seq<EventView>,
    name: Seq<char>,
)
    requires
        all_quiet(WriteState::FindShips, before_name),
        name_open.opens("Name"@),
        is_content(old_name),
        name_close is EndElement,
        all_quiet(WriteState::FindShips, before_ships),
        ships_open.opens("Ships"@),
        is_content(ships),
        ships_close.closes("Ships"@),
        all_quiet(WriteState::FindMissiles, before_missiles),
        missiles_open.opens("MissileTypes"@),
        is_content(missiles),
        missiles_close.closes("MissileTypes"@),
        all_quiet(WriteState::Finishing, rest),
    ensures
        ({
            let from_ships = seq![ships_open] + ships + seq![ships_close] + before_missiles + seq![
                missiles_open,
            ] + missiles + seq![missiles_close] + rest;
            let target = before_name + seq![name_open] + old_name + seq![name_close] + before_ships
                + (from_ships + seq![EventView::EndDocument]);
            let end = splicer(target, Seq::empty(), Seq::empty(), name).run();
            &&& end.state == WriteState::Done
            &&& end.output == written_all(before_name) + written(name_open) + seq![
                EventView::Characters(name),
                EventView::EndElement { name: name_open->StartElement_name },
            ] + written_all(before_ships) + written_all(from_ships)
        }),
{
    let from_ships = seq![ships_open] + ships + seq![ships_close] + before_missiles + seq![
        missiles_open,
    ] + missiles + seq![missiles_close] + rest;
    let tail = from_ships + seq![EventView::EndDocument];
    let target = before_name + seq![name_open] + old_name + seq![name_close] + before_ships + tail;
    let start = splicer(target, Seq::empty(), Seq::empty(), name);
    lemma_replaces_the_name(
        start,
        before_name,
        name_open,
        old_name,
        name_close,
        before_ships,
        tail,
    );
    let at_ships = WriterView {
        remaining: tail,
        output: start.output + written_all(before_name) + written(name_open) + seq![
            EventView::Characters(name),
            EventView::EndElement { name: name_open->StartElement_name },
        ] + written_all(before_ships),
        ..start
    };
    lemma_copies_from_ships(
        at_ships,
        ships_open,
        ships,
        ships_close,
        before_missiles,
        missiles_open,
        missiles,
        missiles_close,
        rest,
    );
    assert(at_ships.output =~= written_all(before_name) + written(name_open) + seq![
        EventView::Characters(name),
        EventView::EndElement { name: name_open->StartElement_name },
    ] + written_all(before_ships));
}

/// Splicing nothing into a target without a `MissileTypes` container copies
/// the target as it stands, but for the content of its `Name` element, in
/// place of which the new name is written, and for an empty `MissileTypes`
/// container, which is written directly before the closing tag of `Fleet`.
pub proof fn lemma_splice_of_nothing_adds_container(
    before_name: Seq<EventView>,
    name_open: EventView,
    old_name: Seq<EventView>,
    name_close: EventView,
    before_ships: Seq<EventView>,
    ships_open: EventView,
    ships: Seq<EventView>,
    ships_close: EventView,
    before_end: Seq<EventView>,
    fleet_close: EventView,
    rest: Seq<EventView>,
    name: Seq<char>,
)
    requires
        all_quiet(WriteState::FindShips, before_name),
        name_open.opens("Name"@),
        is_content(old_name),
        name_close is EndElement,
        all_quiet(WriteState::FindShips, before_ships),
        ships_open.opens("Ships"@),
        is_content(ships),
        ships_close.closes("Ships"@),
        all_quiet(WriteState::FindMissiles, before_end),
        fleet_close.closes("Fleet"@),
        all_quiet(WriteState::Finishing, rest),
    ensures
        ({
            let to_end = seq![ships_open] + ships + seq![ships_close] + before_end;
            let target = before_name + seq![name_open] + old_name + seq![name_close] + before_ships
                + (to_end + seq![fleet_close] + rest + seq![EventView::EndDocument]);
            let end = splicer(target, Seq::empty(), Seq::empty(), name).run();
            &&& end.state == WriteState::Done
            &&& end.output == written_all(before_name) + written(name_open) + seq![
                EventView::Characters(name),
                EventView::EndElement { name: name_open->StartElement_name },
            ] + written_all(before_ships) + written_all(to_end) + seq![
                open_tag("MissileTypes"@),
                close_tag("MissileTypes"@),
            ] + written_all(seq![fleet_close] + rest)
        }),
{
    let to_end = seq![ships_open] + ships + seq![ships_close] + before_end;
    let tail = to_end + seq![fleet_close] + rest + seq![EventView::EndDocument];
    let target = before_name + seq![name_open] + old_name + seq![name_close] + before_ships + tail;
    let start = splicer(target, Seq::empty(), Seq::empty(), name);
    lemma_replaces_the_name(
        start,
        before_name,
        name_open,
        old_name,
        name_close,
        before_ships,
        tail,
    );
    let at_ships = WriterView {
        remaining: tail,
        output: start.output + written_all(before_name) + written(name_open) + seq![
            EventView::Characters(name),
            EventView::EndElement { name: name_open->StartElement_name },
        ] + written_all(before_ships),
        ..start
    };
    lemma_copies_and_adds_container(
        at_ships,
        ships_open,
        ships,
        ships_close,
        before_end,
        fleet_close,
        rest,
    );
    assert(at_ships.output =~= written_all(before_name) + written(name_open) + seq![
        EventView::Characters(name),
        EventView::EndElement { name: name_open->StartElement_name },
    ] + written_all(before_ships));
}

} // verus!
