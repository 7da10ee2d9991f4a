//! The fragment extractor: pulls the repeated children of a container element
//! out of a document's events, without looking at the rest of the document.
//!
//! The extractor is a state machine driven one event at a time. It scans
//! forward to the opening tag of the container, then buffers each child of
//! the container that has the name asked for, from its opening tag to the
//! closing tag that matches it, and emits the buffer as one fragment, until
//! the container closes. It keeps count of the elements that are open, so
//! that an element of the same name inside a child is part of the child, and
//! a child of another name is passed over with all it holds. Running out of
//! events before the container closes is a failure of the stream, and so is
//! a child that is closed by a tag of another name.

use vstd::prelude::*;
use crate::events::{events_view, fragments_view, Event, EventView};
use crate::lists::reversed;
use crate::xml_io::{read_events, xml_events};

verus! {

/// The states of the extractor.
#[derive(Clone, Copy, Debug, PartialEq, Eq, Structural)]
pub enum ReadState {
    /// Looking for the opening tag of the container.
    Start,
    /// Inside the container, between children.
    ReadElements,
    /// Inside a child, buffering its events.
    ReadElement,
    /// The container has closed, or the document ended before it opened.
    Done,
    /// The stream of events failed.
    Error,
}

/// The extractor as a mathematical value.
pub struct ReaderView {
    pub state: ReadState,
    /// The events not yet consumed.
    pub remaining: Seq<EventView>,
    /// The events of the child being buffered.
    pub current: Seq<EventView>,
    /// The fragments emitted so far, in document order.
    pub emitted: Seq<Seq<EventView>>,
    /// The local name of the container element.
    pub element_name: Seq<char>,
    /// The local name of the children to extract.
    pub indiv_element_name: Seq<char>,
    /// The number of elements that are open below the container, between
    /// children, or below the opening tag of the child, inside one.
    pub depth: nat,
}

/// The extractor at the start of a document.
pub open spec fn extractor(
    document: Seq<EventView>,
    element_name: Seq<char>,
    indiv_element_name: Seq<char>,
) -> ReaderView {
    ReaderView {
        state: ReadState::Start,
        remaining: document,
        current: Seq::empty(),
        emitted: Seq::empty(),
        element_name,
        indiv_element_name,
        depth: 0,
    }
}

impl ReaderView {
    /// Whether the machine has stopped.
    pub open spec fn finished(self) -> bool {
        self.state == ReadState::Done || self.state == ReadState::Error
    }

    /// What one event does to the machine in a state that is not final.
    pub open spec fn consume(self, event: EventView) -> ReaderView {
        let rest = self.remaining.drop_first();
        match self.state {
            ReadState::Start => {
                if event.opens(self.element_name) {
                    ReaderView { state: ReadState::ReadElements, remaining: rest, ..self }
                } else if event is EndDocument {
                    ReaderView { state: ReadState::Done, remaining: rest, ..self }
                } else {
                    ReaderView { remaining: rest, ..self }
                }
            },
            ReadState::ReadElements => {
                if self.depth > 0 {
                    // Inside a child of another name: passed over.
                    if event is StartElement {
                        ReaderView { remaining: rest, depth: self.depth + 1, ..self }
                    } else if event is EndElement {
                        ReaderView { remaining: rest, depth: (self.depth - 1) as nat, ..self }
                    } else {
                        ReaderView { remaining: rest, ..self }
                    }
                } else if event is EndElement {
                    // The closing tag of the container.
                    ReaderView { state: ReadState::Done, remaining: rest, ..self }
                } else if event.opens(self.indiv_element_name) {
                    ReaderView {
                        state: ReadState::ReadElement,
                        remaining: rest,
                        current: self.current.push(event),
                        ..self
                    }
                } else if event is StartElement {
                    ReaderView { remaining: rest, depth: 1, ..self }
                } else {
                    ReaderView { remaining: rest, ..self }
                }
            },
            ReadState::ReadElement => {
                let buffered = self.current.push(event);
                if event is StartElement {
                    ReaderView {
                        remaining: rest,
                        current: buffered,
                        depth: self.depth + 1,
                        ..self
                    }
                } else if event is EndElement {
                    if self.depth > 0 {
                        ReaderView {
                            remaining: rest,
                            current: buffered,
                            depth: (self.depth - 1) as nat,
                            ..self
                        }
                    } else if event.closes(self.indiv_element_name) {
                        // The closing tag that matches the opening tag of the child.
                        ReaderView {
                            state: ReadState::ReadElements,
                            remaining: rest,
                            current: Seq::empty(),
                            emitted: self.emitted.push(buffered),
                            ..self
                        }
                    } else {
                        ReaderView {
                            state: ReadState::Error,
                            remaining: rest,
                            current: buffered,
                            ..self
                        }
                    }
                } else {
                    ReaderView { remaining: rest, current: buffered, ..self }
                }
            },
            ReadState::Done | ReadState::Error => self,
        }
    }

    /// One step of the machine: a final state stays as it is, a machine out
    /// of events fails, and any other consumes the next event.
    pub open spec fn tick(self) -> ReaderView {
        if self.finished() {
            self
        } else if self.remaining.len() == 0 {
            ReaderView { state: ReadState::Error, ..self }
        } else {
            self.consume(self.remaining[0])
        }
    }

    /// The machine after as many steps as it takes to stop.
    pub open spec fn run(self) -> ReaderView
        decreases self.remaining.len(),
    {
        if self.finished() {
            self
        } else if self.remaining.len() == 0 {
            self.tick()
        } else {
            self.tick().run()
        }
    }
}

/// What an event does to the number of open elements.
pub open spec fn step_of(event: EventView) -> int {
    if event is StartElement {
        1
    } else if event is EndElement {
        -1
    } else {
        0
    }
}

/// The number of elements that a list of events leaves open: its opening
/// tags less its closing tags.
pub open spec fn nesting(events: Seq<EventView>) -> int
    decreases events.len(),
{
    if events.len() == 0 {
        0
    } else {
        nesting(events.drop_last()) + step_of(events.last())
    }
}

/// Whether a fragment is one child, whole: it begins with the opening tag of
/// the child and ends with the closing tag of its name that matches it, the
/// first tag to leave no element open.
pub open spec fn is_child(fragment: Seq<EventView>, indiv_element_name: Seq<char>) -> bool {
    &&& fragment.len() >= 2
    &&& fragment[0].opens(indiv_element_name)
    &&& fragment.last().closes(indiv_element_name)
    &&& nesting(fragment) == 0
    &&& forall|k: int| 1 <= k < fragment.len() ==> nesting(#[trigger] fragment.take(k)) >= 1
}

/// Whether the buffer and the fragments of a machine are well-shaped: every
/// fragment is one child, and the buffer is empty between children and the
/// beginning of a child inside one, with as many elements open as the
/// machine counts; a failed machine may hold anything in its buffer.
pub open spec fn well_shaped(m: ReaderView) -> bool {
    &&& forall|k: int|
        0 <= k < m.emitted.len() ==> is_child(#[trigger] m.emitted[k], m.indiv_element_name)
    &&& if m.state == ReadState::ReadElement {
        &&& m.current.len() >= 1
        &&& m.current[0].opens(m.indiv_element_name)
        &&& nesting(m.current) == m.depth + 1
        &&& forall|k: int| 1 <= k <= m.current.len() ==> nesting(#[trigger] m.current.take(k)) >= 1
    } else if m.state == ReadState::Start {
        m.current.len() == 0 && m.depth == 0
    } else {
        m.state == ReadState::Error || m.current.len() == 0
    }
}

/// A step keeps a well-shaped machine well-shaped.
pub proof fn lemma_tick_well_shaped(m: ReaderView)
    requires
        well_shaped(m),
    ensures
        well_shaped(m.tick()),
{
    if !m.finished() && m.remaining.len() > 0 {
        let event = m.remaining[0];
        let next = m.tick();
        if m.state == ReadState::ReadElement {
            let buffered = m.current.push(event);
            assert(buffered.drop_last() =~= m.current);
            assert(buffered.take(buffered.len() as int) =~= buffered);
            assert forall|k: int| 1 <= k < buffered.len() implies nesting(
                #[trigger] buffered.take(k),
            ) >= 1 by {
                assert(buffered.take(k) =~= m.current.take(k));
            }
            assert(buffered[0] == m.current[0]);
            if next.state == ReadState::ReadElements {
                assert(is_child(buffered, m.indiv_element_name));
                assert forall|k: int| 0 <= k < next.emitted.len() implies is_child(
                    #[trigger] next.emitted[k],
                    m.indiv_element_name,
                ) by {
                    if k < m.emitted.len() {
                        assert(next.emitted[k] == m.emitted[k]);
                    }
                }
            }
        } else if next.state == ReadState::ReadElement {
            assert(next.current =~= seq![event]);
            assert(next.current.drop_last() =~= Seq::empty());
            assert(event is StartElement);
            assert(nesting(next.current.drop_last()) == 0);
            assert(nesting(next.current) == 1);
            assert forall|k: int| 1 <= k <= next.current.len() implies nesting(
                #[trigger] next.current.take(k),
            ) >= 1 by {
                assert(next.current.take(k) =~= next.current);
            }
        }
    }
}

/// Every fragment that the extractor emits is one child, whole: from the
/// opening tag of the child to the closing tag that matches it, with all
/// that the child holds, elements of its own name too.
pub proof fn lemma_fragments_are_children(m: ReaderView)
    requires
        well_shaped(m),
    ensures
        well_shaped(m.run()),
        forall|k: int|
            0 <= k < m.run().emitted.len() ==> is_child(
                #[trigger] m.run().emitted[k],
                m.indiv_element_name,
            ),
        m.run().indiv_element_name == m.indiv_element_name,
    decreases m.remaining.len(),
{
    lemma_tick_well_shaped(m);
    if !m.finished() && m.remaining.len() > 0 {
        lemma_fragments_are_children(m.tick());
    }
}

/// The fragments emitted are emitted for good: a run adds fragments after
/// those that the machine has, in the order in which their children end in
/// the document, and changes none.
pub proof fn lemma_run_extends_emitted(m: ReaderView)
    ensures
        m.run().emitted.len() >= m.emitted.len(),
        m.run().emitted.take(m.emitted.len() as int) == m.emitted,
    decreases m.remaining.len(),
{
    if !m.finished() && m.remaining.len() > 0 {
        let next = m.tick();
        lemma_run_extends_emitted(next);
        assert(next.emitted.take(m.emitted.len() as int) =~= m.emitted);
        assert(m.run().emitted.take(m.emitted.len() as int) =~= next.run().emitted.take(
            next.emitted.len() as int,
        ).take(m.emitted.len() as int));
    } else {
        assert(m.run().emitted.take(m.emitted.len() as int) =~= m.emitted);
    }
}

/// The events of a list of fragments, one fragment after the other.
pub open spec fn joined(fragments: Seq<Seq<EventView>>) -> Seq<EventView>
    decreases fragments.len(),
{
    if fragments.len() == 0 {
        Seq::empty()
    } else {
        joined(fragments.drop_last()) + fragments.last()
    }
}

/// Whether the events of `part` occur in `whole`, in the same order.
pub open spec fn occurs_in_order(part: Seq<EventView>, whole: Seq<EventView>) -> bool
    decreases whole.len(),
{
    if part.len() == 0 {
        true
    } else if whole.len() == 0 {
        false
    } else if part.last() == whole.last() && occurs_in_order(part.drop_last(), whole.drop_last()) {
        true
    } else {
        occurs_in_order(part, whole.drop_last())
    }
}

/// What occurs in order in a list occurs in order in the list with more
/// events after it.
pub proof fn lemma_occurs_in_longer(part: Seq<EventView>, whole: Seq<EventView>, more: Seq<EventView>)
    requires
        occurs_in_order(part, whole),
    ensures
        occurs_in_order(part, whole + more),
    decreases more.len(),
{
    if more.len() == 0 {
        assert(whole + more =~= whole);
    } else {
        lemma_occurs_in_longer(part, whole, more.drop_last());
        assert((whole + more).drop_last() =~= whole + more.drop_last());
    }
}

/// What occurs in order in a list does so without its last event too.
pub proof fn lemma_shorter_occurs(part: Seq<EventView>, whole: Seq<EventView>)
    requires
        part.len() > 0,
        occurs_in_order(part, whole),
    ensures
        occurs_in_order(part.drop_last(), whole),
    decreases whole.len(),
{
    if part.drop_last().len() > 0 {
        if part.last() == whole.last() && occurs_in_order(part.drop_last(), whole.drop_last()) {
            lemma_occurs_in_longer(part.drop_last(), whole.drop_last(), seq![whole.last()]);
            assert(whole.drop_last() + seq![whole.last()] =~= whole);
        } else {
            lemma_shorter_occurs(part, whole.drop_last());
            lemma_occurs_in_longer(part.drop_last(), whole.drop_last(), seq![whole.last()]);
            assert(whole.drop_last() + seq![whole.last()] =~= whole);
        }
    }
}

/// What occurs in order in a list does so without the events at its end.
pub proof fn lemma_beginning_occurs(part: Seq<EventView>, rest: Seq<EventView>, whole: Seq<EventView>)
    requires
        occurs_in_order(part + rest, whole),
    ensures
        occurs_in_order(part, whole),
    decreases rest.len(),
{
    if rest.len() == 0 {
        assert(part + rest =~= part);
    } else {
        lemma_shorter_occurs(part + rest, whole);
        assert((part + rest).drop_last() =~= part + rest.drop_last());
        lemma_beginning_occurs(part, rest.drop_last(), whole);
    }
}

/// Where the fragments and the buffer of a machine occur in order in the
/// events consumed so far, those of the machine after its run occur in
/// order in these events and the events that remained.
pub proof fn lemma_run_keeps_order(m: ReaderView, consumed: Seq<EventView>)
    requires
        occurs_in_order(joined(m.emitted) + m.current, consumed),
    ensures
        occurs_in_order(joined(m.run().emitted) + m.run().current, consumed + m.remaining),
    decreases m.remaining.len(),
{
    if m.finished() || m.remaining.len() == 0 {
        lemma_occurs_in_longer(joined(m.emitted) + m.current, consumed, m.remaining);
    } else {
        let event = m.remaining[0];
        let next = m.tick();
        let before = joined(m.emitted) + m.current;
        let after = joined(next.emitted) + next.current;
        let all = consumed.push(event);
        assert(all.drop_last() =~= consumed);
        if after == before {
            assert(occurs_in_order(after, all));
        } else {
            assert(after =~= before.push(event)) by {
                if m.state == ReadState::ReadElement && next.state == ReadState::ReadElements {
                    assert(next.emitted.drop_last() =~= m.emitted);
                    assert(next.emitted.last() == m.current.push(event));
                }
            }
            assert(after.drop_last() =~= before);
            assert(occurs_in_order(after, all));
        }
        lemma_run_keeps_order(next, all);
        assert(all + next.remaining =~= consumed + m.remaining);
    }
}

/// The fragments that the extractor emits hold events of the document in
/// the order of the document: fragment after fragment, event after event.
pub proof fn lemma_fragments_in_document_order(
    document: Seq<EventView>,
    element_name: Seq<char>,
    indiv_element_name: Seq<char>,
)
    ensures
        occurs_in_order(
            joined(extractor(document, element_name, indiv_element_name).run().emitted),
            document,
        ),
{
    let start = extractor(document, element_name, indiv_element_name);
    assert(joined(start.emitted) + start.current =~= Seq::empty());
    lemma_run_keeps_order(start, Seq::empty());
    assert(Seq::<EventView>::empty() + document =~= document);
    lemma_beginning_occurs(joined(start.run().emitted), start.run().current, document);
}

/// Whether a machine stands between children, directly in the container.
pub open spec fn between(m: ReaderView) -> bool {
    m.state == ReadState::ReadElements && m.depth == 0 && m.current.len() == 0
}

/// Whether the extractor passes over a list of events that stands between
/// children: whole elements of other names, with whatever they hold, and
/// events that are no tags.
pub open spec fn is_passed_over(gap: Seq<EventView>, indiv_element_name: Seq<char>) -> bool {
    &&& nesting(gap) == 0
    &&& forall|k: int|
        0 <= k < gap.len() ==> {
            &&& nesting(#[trigger] gap.take(k)) >= 0
            &&& nesting(gap.take(k)) == 0 ==> !(gap[k] is EndElement) && !gap[k].opens(
                indiv_element_name,
            )
        }
}

/// The events of a container that holds `children` with `gaps` around them:
/// the first gap, then each child with the gap that follows it.
pub open spec fn laid_out(gaps: Seq<Seq<EventView>>, children: Seq<Seq<EventView>>) -> Seq<
    EventView,
>
    decreases children.len(),
{
    if gaps.len() == 0 {
        Seq::empty()
    } else if children.len() == 0 {
        gaps[0]
    } else {
        gaps[0] + children[0] + laid_out(gaps.drop_first(), children.drop_first())
    }
}

/// Inside a child of which the first `k` events are buffered, the machine
/// runs on to the end of the child and emits it whole.
pub proof fn lemma_inside_child(
    m: ReaderView,
    fragment: Seq<EventView>,
    rest: Seq<EventView>,
    k: int,
)
    requires
        m.state == ReadState::ReadElement,
        1 <= k < fragment.len(),
        is_child(fragment, m.indiv_element_name),
        m.current == fragment.take(k),
        m.depth + 1 == nesting(fragment.take(k)),
        m.remaining == fragment.skip(k) + rest,
    ensures
        m.run() == (ReaderView {
            state: ReadState::ReadElements,
            remaining: rest,
            current: Seq::empty(),
            emitted: m.emitted.push(fragment),
            depth: 0,
            ..m
        }).run(),
    decreases fragment.len() - k,
{
    let event = fragment[k];
    let next = m.tick();
    assert(m.remaining[0] == event);
    assert(m.remaining.drop_first() =~= fragment.skip(k + 1) + rest);
    assert(fragment.take(k + 1).drop_last() =~= fragment.take(k));
    assert(fragment.take(k + 1).last() == event);
    assert(fragment.take(k).push(event) =~= fragment.take(k + 1));
    if k + 1 < fragment.len() {
        assert(nesting(fragment.take(k + 1)) >= 1);
        lemma_inside_child(next, fragment, rest, k + 1);
    } else {
        assert(fragment.take(k + 1) =~= fragment);
        assert(fragment.skip(k + 1) + rest =~= rest);
    }
}

/// Between children, a child that stands next is emitted whole, and the
/// machine stands between children again.
pub proof fn lemma_child_is_emitted(m: ReaderView, fragment: Seq<EventView>, rest: Seq<EventView>)
    requires
        between(m),
        is_child(fragment, m.indiv_element_name),
        m.remaining == fragment + rest,
    ensures
        m.run() == (ReaderView { remaining: rest, emitted: m.emitted.push(fragment), ..m }).run(),
{
    let next = m.tick();
    assert(m.remaining[0] == fragment[0]);
    assert(m.remaining.drop_first() =~= fragment.skip(1) + rest);
    assert(m.current.push(fragment[0]) =~= fragment.take(1));
    assert(fragment.take(1).drop_last() =~= Seq::empty());
    assert(nesting(fragment.take(1).drop_last()) == 0);
    assert(fragment.take(1).last() == fragment[0]);
    lemma_inside_child(next, fragment, rest, 1);
    assert(m.current =~= Seq::empty());
}

/// Between children, what stands there to be passed over is passed over:
/// nothing of it is emitted.
pub proof fn lemma_gap_is_passed_over(
    m: ReaderView,
    gap: Seq<EventView>,
    rest: Seq<EventView>,
    k: int,
)
    requires
        m.state == ReadState::ReadElements,
        m.current.len() == 0,
        0 <= k <= gap.len(),
        is_passed_over(gap, m.indiv_element_name),
        m.depth == nesting(gap.take(k)),
        m.remaining == gap.skip(k) + rest,
    ensures
        m.run() == (ReaderView { remaining: rest, depth: 0, ..m }).run(),
    decreases gap.len() - k,
{
    if k == gap.len() {
        assert(gap.take(k) =~= gap);
        assert(gap.skip(k) + rest =~= rest);
    } else {
        let event = gap[k];
        let next = m.tick();
        assert(m.remaining[0] == event);
        assert(m.remaining.drop_first() =~= gap.skip(k + 1) + rest);
        assert(gap.take(k + 1).drop_last() =~= gap.take(k));
        assert(gap.take(k + 1).last() == event);
        assert(nesting(gap.take(k)) >= 0);
        if k + 1 < gap.len() {
            assert(nesting(gap.take(k + 1)) >= 0);
        } else {
            assert(gap.take(k + 1) =~= gap);
        }
        lemma_gap_is_passed_over(next, gap, rest, k + 1);
    }
}

/// Between children, the children that stand next with gaps around them are
/// emitted one after the other, each whole, and nothing of the gaps.
pub proof fn lemma_children_are_emitted(
    m: ReaderView,
    gaps: Seq<Seq<EventView>>,
    children: Seq<Seq<EventView>>,
    rest: Seq<EventView>,
)
    requires
        between(m),
        gaps.len() == children.len() + 1,
        forall|i: int| 0 <= i < gaps.len() ==> is_passed_over(#[trigger] gaps[i], m.indiv_element_name),
        forall|i: int|
            0 <= i < children.len() ==> is_child(#[trigger] children[i], m.indiv_element_name),
        m.remaining == laid_out(gaps, children) + rest,
    ensures
        m.run() == (ReaderView { remaining: rest, emitted: m.emitted + children, ..m }).run(),
    decreases children.len(),
{
    assert(gaps[0].take(0) =~= Seq::empty());
    assert(gaps[0].skip(0) =~= gaps[0]);
    if children.len() == 0 {
        lemma_gap_is_passed_over(m, gaps[0], rest, 0);
        assert(m.emitted + children =~= m.emitted);
    } else {
        let later = laid_out(gaps.drop_first(), children.drop_first());
        let after_gap = ReaderView { remaining: children[0] + later + rest, ..m };
        assert(gaps[0] + (children[0] + later + rest) =~= laid_out(gaps, children) + rest);
        lemma_gap_is_passed_over(m, gaps[0], children[0] + later + rest, 0);
        let after_child = ReaderView {
            remaining: later + rest,
            emitted: m.emitted.push(children[0]),
            ..m
        };
        assert(children[0] + (later + rest) =~= children[0] + later + rest);
        lemma_child_is_emitted(after_gap, children[0], later + rest);
        assert forall|i: int| 0 <= i < gaps.drop_first().len() implies is_passed_over(
            #[trigger] gaps.drop_first()[i],
            m.indiv_element_name,
        ) by {
            assert(gaps.drop_first()[i] == gaps[i + 1]);
        }
        assert forall|i: int| 0 <= i < children.drop_first().len() implies is_child(
            #[trigger] children.drop_first()[i],
            m.indiv_element_name,
        ) by {
            assert(children.drop_first()[i] == children[i + 1]);
        }
        lemma_children_are_emitted(after_child, gaps.drop_first(), children.drop_first(), rest);
        assert(m.emitted.push(children[0]) + children.drop_first() =~= m.emitted + children);
    }
}

/// Before the container, the machine passes over every event that neither
/// opens the container nor ends the document.
pub proof fn lemma_container_is_found(m: ReaderView, before: Seq<EventView>, rest: Seq<EventView>)
    requires
        m.state == ReadState::Start,
        forall|i: int|
            0 <= i < before.len() ==> !(#[trigger] before[i]).opens(m.element_name) && !(
            before[i] is EndDocument),
        rest.len() > 0,
        rest[0].opens(m.element_name),
        m.remaining == before + rest,
    ensures
        m.run() == (ReaderView {
            state: ReadState::ReadElements,
            remaining: rest.drop_first(),
            ..m
        }).run(),
    decreases before.len(),
{
    if before.len() == 0 {
        assert(before + rest =~= rest);
    } else {
        let next = m.tick();
        assert(m.remaining[0] == before[0]);
        assert(m.remaining.drop_first() =~= before.drop_first() + rest);
        assert forall|i: int| 0 <= i < before.drop_first().len() implies !(
        #[trigger] before.drop_first()[i]).opens(m.element_name) && !(before.drop_first()[i]
            is EndDocument) by {
            assert(before.drop_first()[i] == before[i + 1]);
        }
        lemma_container_is_found(next, before.drop_first(), rest);
    }
}

/// The extractor emits the children of the container, each whole, in the
/// order of the document, and nothing else.
///
/// The document is given by its parts: what stands before the container,
/// the opening tag of the container, the children of the name asked for
/// with what stands around them, the closing tag of the container, and what
/// stands after it. Whatever stands before, around and after the children is
/// left out, elements of the name asked for too that are no children of the
/// container; whatever a child holds is in its fragment.
pub proof fn lemma_extracts_the_children(
    before: Seq<EventView>,
    open: EventView,
    gaps: Seq<Seq<EventView>>,
    children: Seq<Seq<EventView>>,
    close: EventView,
    after: Seq<EventView>,
    element_name: Seq<char>,
    indiv_element_name: Seq<char>,
)
    requires
        forall|i: int|
            0 <= i < before.len() ==> !(#[trigger] before[i]).opens(element_name) && !(before[i]
                is EndDocument),
        open.opens(element_name),
        gaps.len() == children.len() + 1,
        forall|i: int| 0 <= i < gaps.len() ==> is_passed_over(#[trigger] gaps[i], indiv_element_name),
        forall|i: int| 0 <= i < children.len() ==> is_child(#[trigger] children[i], indiv_element_name),
        close is EndElement,
    ensures
        ({
            let document = before + seq![open] + laid_out(gaps, children) + seq![close] + after;
            let end = extractor(document, element_name, indiv_element_name).run();
            &&& end.state == ReadState::Done
            &&& end.emitted == children
            &&& end.remaining == after
        }),
{
    let inside = laid_out(gaps, children);
    let document = before + seq![open] + inside + seq![close] + after;
    let start = extractor(document, element_name, indiv_element_name);
    let from_open = seq![open] + inside + seq![close] + after;
    assert(before + from_open =~= document);
    lemma_container_is_found(start, before, from_open);
    let in_container = ReaderView {
        state: ReadState::ReadElements,
        remaining: from_open.drop_first(),
        ..start
    };
    let from_close = seq![close] + after;
    assert(from_open.drop_first() =~= inside + from_close);
    lemma_children_are_emitted(in_container, gaps, children, from_close);
    let at_close = ReaderView {
        remaining: from_close,
        emitted: in_container.emitted + children,
        ..in_container
    };
    assert(in_container.emitted + children =~= children);
    assert(from_close[0] == close);
    assert(from_close.drop_first() =~= after);
    assert(at_close.run() == at_close.tick().run());
}

/// The extractor of the children named `indiv_element_name` of the first
/// element named `element_name`.
pub struct Reader {
    state: ReadState,
    /// The events not yet consumed, the next one last.
    pending: Vec<Event>,
    current: Vec<Event>,
    emitted: Vec<Vec<Event>>,
    element_name: String,
    indiv_element_name: String,
    depth: usize,
}

impl View for Reader {
    type V = ReaderView;

    closed spec fn view(&self) -> ReaderView {
        ReaderView {
            state: self.state,
            remaining: events_view(self.pending@.reverse()),
            current: events_view(self.current@),
            emitted: fragments_view(self.emitted@),
            element_name: self.element_name@,
            indiv_element_name: self.indiv_element_name@,
            depth: self.depth as nat,
        }
    }
}

impl Reader {
    /// Whether the extractor is valid: it counts no more open elements than
    /// it has consumed events, so that the count fits its type.
    pub closed spec fn wf(&self) -> bool {
        self.depth + self.pending@.len() <= usize::MAX
    }

    /// An extractor at the start of the document `source`.
    pub fn new(source: &[u8], element_name: String, indiv_element_name: String) -> (r: Reader)
        ensures
            r.wf(),
            r@ == extractor(xml_events(source@), element_name@, indiv_element_name@),
    {
        Reader::from_events(read_events(source), element_name, indiv_element_name)
    }

    /// An extractor at the start of `events`.
    pub fn from_events(events: Vec<Event>, element_name: String, indiv_element_name: String) -> (r:
        Reader)
        ensures
            r.wf(),
            r@ == extractor(events_view(events@), element_name@, indiv_element_name@),
    {
        let pending = reversed(events);
        let r = Reader {
            state: ReadState::Start,
            pending,
            current: Vec::new(),
            emitted: Vec::new(),
            element_name,
            indiv_element_name,
            depth: 0,
        };
        proof {
            assert(events@.reverse().reverse() =~= events@);
            assert(r@.current =~= Seq::empty());
            assert(r@.emitted =~= Seq::empty());
            assert(r.pending.len() <= usize::MAX);
        }
        r
    }

    /// The state of the machine.
    pub fn state(&self) -> (s: ReadState)
        ensures
            s == self@.state,
    {
        self.state
    }

    /// Whether the machine stopped because the container closed or the
    /// document ended.
    pub fn is_done(&self) -> (b: bool)
        ensures
            b == (self@.state == ReadState::Done),
    {
        matches!(self.state, ReadState::Done)
    }

    /// Whether the machine stopped because the stream failed.
    pub fn is_error(&self) -> (b: bool)
        ensures
            b == (self@.state == ReadState::Error),
    {
        matches!(self.state, ReadState::Error)
    }

    /// Takes one step.
    pub fn tick(&mut self)
        requires
            old(self).wf(),
        ensures
            final(self).wf(),
            final(self)@ == old(self)@.tick(),
    {
        if self.is_done() || self.is_error() {
            return ;
        }
        let ghost before = self.pending@;
        let event = match self.pending.pop() {
            Some(event) => event,
            None => {
                self.state = ReadState::Error;
                return ;
            },
        };
        proof {
            assert(events_view(before.reverse())[0] == event@);
            assert(events_view(before.reverse()).drop_first() =~= events_view(
                self.pending@.reverse(),
            ));
        }
        let starts = matches!(event, Event::StartElement { .. });
        let ends = matches!(event, Event::EndElement { .. });
        match self.state {
            ReadState::Start => {
                if event.opens(self.element_name.as_str()) {
                    self.state = ReadState::ReadElements;
                } else if matches!(event, Event::EndDocument) {
                    self.state = ReadState::Done;
                }
            },
            ReadState::ReadElements => {
                if self.depth > 0 {
                    if starts {
                        self.depth = self.depth + 1;
                    } else if ends {
                        self.depth = self.depth - 1;
                    }
                } else if ends {
                    self.state = ReadState::Done;
                } else if event.opens(self.indiv_element_name.as_str()) {
                    let ghost before = self.current@;
                    self.current.push(event);
                    self.state = ReadState::ReadElement;
                    proof {
                        assert(events_view(before.push(event)) =~= events_view(before).push(
                            event@,
                        ));
                    }
                } else if starts {
                    self.depth = 1;
                }
            },
            ReadState::ReadElement => {
                let closes = event.closes(self.indiv_element_name.as_str());
                let ghost before = self.current@;
                self.current.push(event);
                proof {
                    assert(events_view(before.push(event)) =~= events_view(before).push(event@));
                }
                if starts {
                    self.depth = self.depth + 1;
                } else if ends {
                    if self.depth > 0 {
                        self.depth = self.depth - 1;
                    } else if closes {
                        let ghost emitted = self.emitted@;
                        let mut fragment: Vec<Event> = Vec::new();
                        core::mem::swap(&mut fragment, &mut self.current);
                        self.emitted.push(fragment);
                        self.state = ReadState::ReadElements;
                        proof {
                            assert(fragments_view(emitted.push(fragment)) =~= fragments_view(
                                emitted,
                            ).push(events_view(fragment@)));
                            assert(events_view(self.current@) =~= Seq::empty());
                        }
                    } else {
                        self.state = ReadState::Error;
                    }
                }
            },
            ReadState::Done | ReadState::Error => {},
        }
    }

    /// Steps until the machine stops.
    pub fn run_until_complete(&mut self)
        requires
            old(self).wf(),
        ensures
            final(self).wf(),
            final(self)@ == old(self)@.run(),
            final(self)@.finished(),
    {
        while !(self.is_done() || self.is_error())
            invariant
                self.wf(),
                self@.run() == old(self)@.run(),
            ensures
                self.wf(),
                self@.finished(),
            decreases self@.remaining.len(), if self@.finished() { 0int } else { 1int },
        {
            self.tick();
        }
    }

    /// The fragments emitted, in document order.
    pub fn into_fragments(self) -> (fragments: Vec<Vec<Event>>)
        ensures
            fragments_view(fragments@) == self@.emitted,
    {
        self.emitted
    }
}

} // verus!
