//! What splicing does to a document, stated once for all documents: the
//! output is that of splicing nothing, with the events of the ship fragments
//! inserted in one place and those of the missile fragments in another.

use vstd::prelude::*;
use crate::events::EventView;
use crate::extract::{
    extractor, is_child, joined, lemma_fragments_are_children,
    lemma_fragments_in_document_order, occurs_in_order,
};
use crate::splice::{
    close_tag, lemma_skip_element_shrinks, open_tag, splicer, written, written_fragments,
    WriteState, WriterView,
};

verus! {

/// The machine with `prefix` in front of its output.
pub open spec fn rebase(w: WriterView, prefix: Seq<EventView>) -> WriterView {
    WriterView { output: prefix + w.output, ..w }
}

/// The machine with nothing to insert.
pub open spec fn plain(w: WriterView) -> WriterView {
    WriterView { insert_ships: Seq::empty(), insert_missiles: Seq::empty(), ..w }
}

/// The machine with other fragments to insert.
pub open spec fn with_fragments(
    w: WriterView,
    ships: Seq<Seq<EventView>>,
    missiles: Seq<Seq<EventView>>,
) -> WriterView {
    WriterView { insert_ships: ships, insert_missiles: missiles, ..w }
}

/// The events written for no fragments are none.
pub proof fn lemma_written_no_fragments()
    ensures
        written_fragments(Seq::empty()) == Seq::<EventView>::empty(),
{
}

/// A step only appends to the output: what is already written has no part
/// in what the step does.
pub proof fn lemma_tick_rebase(w: WriterView, prefix: Seq<EventView>)
    ensures
        rebase(w, prefix).tick() == rebase(w.tick(), prefix),
{
    let r = rebase(w, prefix);
    if !w.finished() && w.remaining.len() > 0 {
        let event = w.remaining[0];
        assert(r.tick().output =~= prefix + w.tick().output);
    }
    assert(r.tick().output =~= prefix + w.tick().output);
}

/// A run only appends to the output.
pub proof fn lemma_run_rebase(w: WriterView, prefix: Seq<EventView>)
    ensures
        rebase(w, prefix).run() == rebase(w.run(), prefix),
    decreases w.remaining.len(),
{
    lemma_tick_rebase(w, prefix);
    if !w.finished() && w.remaining.len() > 0 {
        lemma_skip_element_shrinks(w.remaining.drop_first(), 1);
        lemma_run_rebase(w.tick(), prefix);
    }
}

/// Two machines that differ in their output alone run alike, each
/// appending the same events to its own output.
pub proof fn lemma_run_same_tail(w1: WriterView, w2: WriterView)
    requires
        w2 == (WriterView { output: w2.output, ..w1 }),
    ensures
        w1.run() == (WriterView { output: w1.run().output, ..w2.run() }),
        w1.run().output.len() >= w1.output.len(),
        w2.run().output.len() >= w2.output.len(),
        w1.run().output.skip(w1.output.len() as int) == w2.run().output.skip(
            w2.output.len() as int,
        ),
        w1.run().output.take(w1.output.len() as int) == w1.output,
        w2.run().output.take(w2.output.len() as int) == w2.output,
{
    let base = WriterView { output: Seq::empty(), ..w1 };
    lemma_run_rebase(base, w1.output);
    lemma_run_rebase(base, w2.output);
    assert(rebase(base, w1.output) == w1) by {
        assert(w1.output + Seq::<EventView>::empty() =~= w1.output);
    }
    assert(rebase(base, w2.output) == w2) by {
        assert(w2.output + Seq::<EventView>::empty() =~= w2.output);
    }
    let tail = base.run().output;
    assert((w1.output + tail).skip(w1.output.len() as int) =~= tail);
    assert((w2.output + tail).skip(w2.output.len() as int) =~= tail);
    assert((w1.output + tail).take(w1.output.len() as int) =~= w1.output);
    assert((w2.output + tail).take(w2.output.len() as int) =~= w2.output);
}

/// Once the missiles are in, nothing more is inserted: the machine runs as
/// the plain one does, and keeps the fragments it has.
pub proof fn lemma_finishing(w: WriterView)
    requires
        w.state == WriteState::Finishing || w.finished(),
    ensures
        w.run() == with_fragments(plain(w).run(), w.insert_ships, w.insert_missiles),
    decreases w.remaining.len(),
{
    if !w.finished() && w.remaining.len() > 0 {
        assert(plain(w.tick()) == plain(w).tick());
        lemma_finishing(w.tick());
    }
}

/// The events that the missile fragments of `w` add to the output of a run
/// that ends in `end`: all of them where `end` has none left to insert.
pub open spec fn missiles_added(w: WriterView, end: WriterView) -> Seq<EventView> {
    if end.insert_missiles.len() == 0 {
        written_fragments(w.insert_missiles)
    } else {
        Seq::empty()
    }
}

/// The events that the ship fragments of `w` add to the output of a run
/// that ends in `end`: all of them where `end` has none left to insert.
pub open spec fn ships_added(w: WriterView, end: WriterView) -> Seq<EventView> {
    if end.insert_ships.len() == 0 {
        written_fragments(w.insert_ships)
    } else {
        Seq::empty()
    }
}

/// From the search for the missiles on, the output is that of the plain
/// machine with the events of the missile fragments inserted at one place,
/// `place`: directly before the closing tag of `MissileTypes`.
pub proof fn lemma_missile_phase(w: WriterView) -> (place: int)
    requires
        w.state == WriteState::FindMissiles || w.state == WriteState::InsertingMissiles,
    ensures
        w.run().state == plain(w).run().state,
        w.run().remaining == plain(w).run().remaining,
        w.run().insert_ships == w.insert_ships,
        w.output.len() <= place <= plain(w).run().output.len(),
        w.run().output == plain(w).run().output.take(place) + missiles_added(w, w.run()) + plain(
            w,
        ).run().output.skip(place),
        w.run().insert_missiles.len() == 0 || w.run().insert_missiles == w.insert_missiles,
        w.run().insert_missiles.len() == 0 && w.insert_missiles.len() > 0 ==> place < plain(
            w,
        ).run().output.len() && plain(w).run().output[place].closes("MissileTypes"@),
    decreases w.remaining.len(),
{
    let p = plain(w);
    lemma_written_no_fragments();
    if w.remaining.len() == 0 {
        let place = w.output.len() as int;
        assert(w.run().output =~= p.run().output.take(place) + missiles_added(w, w.run())
            + p.run().output.skip(place));
        return place;
    }
    let event = w.remaining[0];
    let next = w.tick();
    let synthesized = w.state == WriteState::FindMissiles && next.state == WriteState::Finishing;
    let closing = w.state == WriteState::InsertingMissiles && next.state
        == WriteState::Finishing;
    if next.state == WriteState::Error {
        let place = next.output.len() as int;
        assert(plain(next) == p.tick());
        assert(w.run().output =~= p.run().output.take(place) + missiles_added(w, w.run())
            + p.run().output.skip(place));
        place
    } else if synthesized || closing {
        let plain_next = p.tick();
        lemma_finishing(next);
        lemma_run_same_tail(plain(next), plain_next);
        let place: int = if synthesized {
            w.output.len() as int + 1
        } else {
            w.output.len() as int
        };
        let inserted = written_fragments(w.insert_missiles);
        let tail = plain_next.run().output.skip(plain_next.output.len() as int);
        assert(plain_next.run().output =~= plain_next.output + tail);
        assert(next.run().output =~= next.output + tail);
        if synthesized {
            assert(plain_next.output =~= w.output + seq![open_tag("MissileTypes"@)] + seq![
                close_tag("MissileTypes"@),
            ] + written(event));
            assert(close_tag("MissileTypes"@).closes("MissileTypes"@));
            assert(plain_next.run().output[place] == close_tag("MissileTypes"@));
        } else {
            assert(written(event) =~= seq![event]);
            assert(plain_next.output =~= w.output + written(event));
            assert(plain_next.run().output[place] == event);
        }
        assert(w.run().output =~= p.run().output.take(place) + inserted + p.run().output.skip(
            place,
        ));
        place
    } else {
        assert(plain(next) == p.tick());
        lemma_missile_phase(next)
    }
}

/// From the start on, the output is that of the plain machine with the
/// events of the ship fragments inserted at one place, `places.0`, directly
/// before the closing tag of `Ships`, and those of the missile fragments at
/// another, `places.1`, directly before the closing tag of `MissileTypes`.
pub proof fn lemma_ship_phase(w: WriterView) -> (places: (int, int))
    requires
        w.state == WriteState::FindShips || w.state == WriteState::InsertingShips,
    ensures
        w.run().state == plain(w).run().state,
        w.run().remaining == plain(w).run().remaining,
        w.output.len() <= places.0 <= places.1 <= plain(w).run().output.len(),
        w.run().output == plain(w).run().output.take(places.0) + ships_added(w, w.run()) + plain(
            w,
        ).run().output.subrange(places.0, places.1) + missiles_added(w, w.run()) + plain(
            w,
        ).run().output.skip(places.1),
        w.run().insert_ships.len() == 0 || w.run().insert_ships == w.insert_ships,
        w.run().insert_missiles.len() == 0 || w.run().insert_missiles == w.insert_missiles,
        w.run().insert_ships.len() == 0 && w.insert_ships.len() > 0 ==> places.0 < plain(
            w,
        ).run().output.len() && plain(w).run().output[places.0].closes("Ships"@),
        w.run().insert_missiles.len() == 0 && w.insert_missiles.len() > 0 ==> places.1 < plain(
            w,
        ).run().output.len() && plain(w).run().output[places.1].closes("MissileTypes"@),
    decreases w.remaining.len(),
{
    let p = plain(w);
    lemma_written_no_fragments();
    if w.remaining.len() == 0 {
        let place = w.output.len() as int;
        assert(p.run().output.subrange(place, place) =~= Seq::empty());
        assert(w.run().output =~= p.run().output.take(place) + ships_added(w, w.run())
            + p.run().output.subrange(place, place) + missiles_added(w, w.run())
            + p.run().output.skip(place));
        return (place, place);
    }
    let event = w.remaining[0];
    let next = w.tick();
    lemma_skip_element_shrinks(w.remaining.drop_first(), 1);
    if w.state == WriteState::InsertingShips && next.state == WriteState::FindMissiles {
        let plain_next = p.tick();
        let place = lemma_missile_phase(next);
        lemma_run_same_tail(plain(next), plain_next);
        let inserted = written_fragments(w.insert_ships);
        let added = missiles_added(w, w.run());
        let tail = plain_next.run().output.skip(plain_next.output.len() as int);
        assert(written(event) =~= seq![event]);
        assert(plain_next.output =~= w.output + written(event));
        assert(next.output =~= w.output + inserted + written(event));
        assert(plain_next.run().output =~= plain_next.output + tail);
        assert(plain(next).run().output =~= next.output + tail);
        let first = w.output.len() as int;
        let second = place - inserted.len();
        let full = plain(next).run().output;
        let bare = p.run().output;
        assert(bare == plain_next.run().output);
        assert(bare[first] == event);
        assert(full.take(place) =~= bare.take(first) + inserted + bare.subrange(first, second));
        assert(full.skip(place) =~= bare.skip(second));
        assert(w.run().output =~= bare.take(first) + inserted + bare.subrange(first, second)
            + added + bare.skip(second));
        if w.insert_missiles.len() > 0 && w.run().insert_missiles.len() == 0 {
            assert(full[place] == bare[second]);
        }
        (first, second)
    } else if next.state == WriteState::Error {
        let place = next.output.len() as int;
        assert(plain(next) == p.tick());
        assert(p.run().output.subrange(place, place) =~= Seq::empty());
        assert(w.run().output =~= p.run().output.take(place) + ships_added(w, w.run())
            + p.run().output.subrange(place, place) + missiles_added(w, w.run())
            + p.run().output.skip(place));
        (place, place)
    } else {
        assert(plain(next) == p.tick());
        lemma_ship_phase(next)
    }
}

/// Splicing fragments into a target changes nothing but what is inserted.
///
/// The splicer stops in the state in which it stops when given no fragments.
/// Its output is the output it has when given no fragments, with the events
/// written for the ship fragments, each once and in order, directly before
/// the closing tag of `Ships`, and the events written for the missile
/// fragments, each once and in order, directly before the closing tag of
/// `MissileTypes`. This holds in particular where the ship fragments were
/// extracted from the target itself: its own ships then stand in the output
/// twice, in their order, first as they stood in the target and then as
/// fragments, and nothing else of the target is altered.
pub proof fn lemma_splice_only_inserts(
    target: Seq<EventView>,
    ships: Seq<Seq<EventView>>,
    missiles: Seq<Seq<EventView>>,
    name: Seq<char>,
) -> (places: (int, int))
    ensures
        ({
            let full = splicer(target, ships, missiles, name).run();
            let bare = splicer(target, Seq::empty(), Seq::empty(), name).run();
            &&& full.state == bare.state
            &&& 0 <= places.0 <= places.1 <= bare.output.len()
            &&& full.state == WriteState::Done ==> full.output == bare.output.take(places.0)
                + written_fragments(ships) + bare.output.subrange(places.0, places.1)
                + written_fragments(missiles) + bare.output.skip(places.1)
            &&& full.state == WriteState::Done && ships.len() > 0 ==> places.0 < bare.output.len()
                && bare.output[places.0].closes("Ships"@)
            &&& full.state == WriteState::Done && missiles.len() > 0 ==> places.1
                < bare.output.len() && bare.output[places.1].closes("MissileTypes"@)
        }),
{
    let w = splicer(target, ships, missiles, name);
    let places = lemma_ship_phase(w);
    assert(plain(w) == splicer(target, Seq::empty(), Seq::empty(), name));
    if w.run().state == WriteState::Done {
        lemma_done_has_inserted(w);
    }
    places
}

/// The ships that the extractor finds in a document.
pub open spec fn own_ships(document: Seq<EventView>) -> Seq<Seq<EventView>> {
    extractor(document, "Ships"@, "Ship"@).run().emitted
}

/// Splicing the ships of a document into the document itself doubles them
/// and alters nothing else.
///
/// The output is the output of splicing nothing, with the events written for
/// the extracted ships, each once and in the order of the document, directly
/// before the closing tag of `Ships`, and so after the ships that stand
/// there already. Each extracted ship is one `Ship` element, from its opening
/// tag to its closing tag.
pub proof fn lemma_splice_own_ships(document: Seq<EventView>, name: Seq<char>) -> (place: int)
    ensures
        ({
            let ships = own_ships(document);
            let full = splicer(document, ships, Seq::empty(), name).run();
            let bare = splicer(document, Seq::empty(), Seq::empty(), name).run();
            &&& forall|k: int| 0 <= k < ships.len() ==> is_child(#[trigger] ships[k], "Ship"@)
            &&& occurs_in_order(joined(ships), document)
            &&& full.state == bare.state
            &&& 0 <= place <= bare.output.len()
            &&& full.state == WriteState::Done ==> full.output == bare.output.take(place)
                + written_fragments(ships) + bare.output.skip(place)
            &&& full.state == WriteState::Done && ships.len() > 0 ==> place < bare.output.len()
                && bare.output[place].closes("Ships"@)
        }),
{
    let ships = own_ships(document);
    let start = extractor(document, "Ships"@, "Ship"@);
    lemma_fragments_are_children(start);
    lemma_fragments_in_document_order(document, "Ships"@, "Ship"@);
    let places = lemma_splice_only_inserts(document, ships, Seq::empty(), name);
    lemma_written_no_fragments();
    let bare = splicer(document, Seq::empty(), Seq::empty(), name).run();
    assert(bare.output.take(places.0) + written_fragments(ships) + bare.output.subrange(
        places.0,
        places.1,
    ) + written_fragments(Seq::empty()) + bare.output.skip(places.1) =~= bare.output.take(
        places.0,
    ) + written_fragments(ships) + bare.output.skip(places.0));
    places.0
}

/// A run that ends with the whole target copied has inserted all its
/// fragments.
pub proof fn lemma_done_has_inserted(w: WriterView)
    requires
        w.state == WriteState::FindShips || w.state == WriteState::InsertingShips || w.state
            == WriteState::FindMissiles || w.state == WriteState::InsertingMissiles,
        w.run().state == WriteState::Done,
    ensures
        w.state == WriteState::FindShips || w.state == WriteState::InsertingShips
            ==> w.run().insert_ships.len() == 0,
        w.run().insert_missiles.len() == 0,
    decreases w.remaining.len(),
{
    if w.remaining.len() > 0 {
        let next = w.tick();
        lemma_skip_element_shrinks(w.remaining.drop_first(), 1);
        assert(w.run() == next.run());
        if next.state == WriteState::Finishing {
            lemma_finishing(next);
            assert(w.state == WriteState::FindMissiles || w.state
                == WriteState::InsertingMissiles);
            assert(next.insert_missiles =~= Seq::empty());
        } else if next.state == WriteState::Error {
            assert(next.run() == next);
        } else if next.state == WriteState::FindMissiles || next.state
            == WriteState::InsertingMissiles {
            lemma_done_has_inserted(next);
            if w.state == WriteState::InsertingShips {
                assert(next.insert_ships =~= Seq::empty());
                let place = lemma_missile_phase(next);
            }
        } else {
            lemma_done_has_inserted(next);
        }
    }
}

} // verus!
