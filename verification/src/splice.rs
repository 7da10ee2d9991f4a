//! The fragment splicer: copies a target fleet document event by event,
//! replaces the text of its `Name` element, and appends lists of ship and
//! missile fragments to the `Ships` and `MissileTypes` containers.
//!
//! The splicer is a state machine driven one event at a time. Inside a
//! container it keeps count of the elements that are open, so that the
//! fragments are written directly before the closing tag that matches the
//! opening tag of the container, after all that the container holds. A
//! target with no `MissileTypes` container gets one, written just before
//! the closing tag of the `Fleet` element. Every other event is passed
//! through, but for whitespace and the end of the document, which the
//! output leaves out, and the document declaration, whose encoding becomes
//! UTF-8. Running out of events before the document ends is a failure of
//! the stream, and so is a container that is closed by a tag of another
//! name.

use vstd::prelude::*;
use crate::events::{
    events_view, fragments_view, QName, QNameView, Event, EventView,
};
use crate::lists::reversed;
use crate::xml_io::{read_events, write_events, xml_events, xml_text};

verus! {

/// The states of the splicer.
#[derive(Clone, Copy, Debug, PartialEq, Eq, Structural)]
pub enum WriteState {
    /// Copying the target up to the opening tag of `Ships`.
    FindShips,
    /// Copying the target's own ships up to the closing tag of `Ships`.
    InsertingShips,
    /// Copying the target up to the opening tag of `MissileTypes`.
    FindMissiles,
    /// Copying the target's own missiles up to the closing tag of `MissileTypes`.
    InsertingMissiles,
    /// Copying the rest of the target.
    Finishing,
    /// The whole target has been copied.
    Done,
    /// The stream of events failed.
    Error,
}

/// What the output holds for one event of the input: nothing for whitespace
/// and the end of the document, the declaration with its encoding set to
/// UTF-8, and any other event itself.
pub open spec fn written(event: EventView) -> Seq<EventView> {
    match event {
        EventView::StartDocument { version, encoding, standalone } => seq![
            EventView::StartDocument { version, encoding: "UTF-8"@, standalone },
        ],
        EventView::EndDocument => Seq::empty(),
        EventView::Whitespace(_) => Seq::empty(),
        _ => seq![event],
    }
}

/// What the output holds for a list of events.
pub open spec fn written_all(events: Seq<EventView>) -> Seq<EventView>
    decreases events.len(),
{
    if events.len() == 0 {
        Seq::empty()
    } else {
        written_all(events.drop_last()) + written(events.last())
    }
}

/// What the output holds for a list of fragments, in order.
pub open spec fn written_fragments(fragments: Seq<Seq<EventView>>) -> Seq<EventView>
    decreases fragments.len(),
{
    if fragments.len() == 0 {
        Seq::empty()
    } else {
        written_fragments(fragments.drop_last()) + written_all(fragments.last())
    }
}

/// Skips to the closing tag that ends the element `depth` levels up: whether
/// that tag was reached before the document or the stream ended, and the
/// events left after it.
pub open spec fn skip_element(events: Seq<EventView>, depth: nat) -> (bool, Seq<EventView>)
    decreases events.len(),
{
    if depth == 0 {
        (true, events)
    } else if events.len() == 0 {
        (false, events)
    } else {
        let rest = events.drop_first();
        match events[0] {
            EventView::StartElement { .. } => skip_element(rest, depth + 1),
            EventView::EndElement { .. } => skip_element(rest, (depth - 1) as nat),
            EventView::EndDocument => (false, rest),
            _ => skip_element(rest, depth),
        }
    }
}

/// The opening tag of a container without attributes.
pub open spec fn open_tag(local_name: Seq<char>) -> EventView {
    EventView::StartElement {
        name: QNameView { local_name, namespace: None, prefix: None },
        attributes: Seq::empty(),
        namespace: Seq::empty(),
    }
}

/// The closing tag of a container.
pub open spec fn close_tag(local_name: Seq<char>) -> EventView {
    EventView::EndElement { name: QNameView { local_name, namespace: None, prefix: None } }
}

/// The splicer as a mathematical value.
pub struct WriterView {
    pub state: WriteState,
    /// The events of the target not yet consumed.
    pub remaining: Seq<EventView>,
    /// The ship fragments still to insert.
    pub insert_ships: Seq<Seq<EventView>>,
    /// The missile fragments still to insert.
    pub insert_missiles: Seq<Seq<EventView>>,
    /// The text that replaces the content of the `Name` element.
    pub name: Seq<char>,
    /// The events written so far.
    pub output: Seq<EventView>,
    /// The number of elements that are open below the container that the
    /// machine is in.
    pub depth: nat,
}

impl WriterView {
    /// Whether the machine has stopped.
    pub open spec fn finished(self) -> bool {
        self.state == WriteState::Done || self.state == WriteState::Error
    }

    /// The machine after it has passed `event` through.
    pub open spec fn pass(self, event: EventView) -> WriterView {
        WriterView {
            remaining: self.remaining.drop_first(),
            output: self.output + written(event),
            ..self
        }
    }

    /// What one event does to the machine in a state that is not final.
    pub open spec fn consume(self, event: EventView) -> WriterView {
        match self.state {
            WriteState::FindShips => {
                if event.opens("Name"@) {
                    let (closed, left) = skip_element(self.remaining.drop_first(), 1);
                    if closed {
                        WriterView {
                            remaining: left,
                            output: self.output + written(event) + seq![
                                EventView::Characters(self.name),
                                EventView::EndElement { name: event->StartElement_name },
                            ],
                            ..self
                        }
                    } else {
                        WriterView {
                            state: WriteState::Error,
                            remaining: left,
                            output: self.output + written(event),
                            ..self
                        }
                    }
                } else if event.opens("Ships"@) {
                    WriterView { state: WriteState::InsertingShips, depth: 0, ..self.pass(event) }
                } else {
                    self.pass(event)
                }
            },
            WriteState::InsertingShips => {
                if event is StartElement {
                    WriterView { depth: self.depth + 1, ..self.pass(event) }
                } else if !(event is EndElement) {
                    self.pass(event)
                } else if self.depth > 0 {
                    WriterView { depth: (self.depth - 1) as nat, ..self.pass(event) }
                } else if !event.closes("Ships"@) {
                    WriterView {
                        state: WriteState::Error,
                        remaining: self.remaining.drop_first(),
                        ..self
                    }
                } else {
                    WriterView {
                        state: WriteState::FindMissiles,
                        remaining: self.remaining.drop_first(),
                        insert_ships: Seq::empty(),
                        output: self.output + written_fragments(self.insert_ships) + written(
                            event,
                        ),
                        ..self
                    }
                }
            },
            WriteState::FindMissiles => {
                if event.opens("MissileTypes"@) {
                    WriterView {
                        state: WriteState::InsertingMissiles,
                        depth: 0,
                        ..self.pass(event)
                    }
                } else if event.closes("Fleet"@) {
                    WriterView {
                        state: WriteState::Finishing,
                        remaining: self.remaining.drop_first(),
                        insert_missiles: Seq::empty(),
                        output: self.output + seq![open_tag("MissileTypes"@)] + written_fragments(
                            self.insert_missiles,
                        ) + seq![close_tag("MissileTypes"@)] + written(event),
                        ..self
                    }
                } else {
                    self.pass(event)
                }
            },
            WriteState::InsertingMissiles => {
                if event is StartElement {
                    WriterView { depth: self.depth + 1, ..self.pass(event) }
                } else if !(event is EndElement) {
                    self.pass(event)
                } else if self.depth > 0 {
                    WriterView { depth: (self.depth - 1) as nat, ..self.pass(event) }
                } else if !event.closes("MissileTypes"@) {
                    WriterView {
                        state: WriteState::Error,
                        remaining: self.remaining.drop_first(),
                        ..self
                    }
                } else {
                    WriterView {
                        state: WriteState::Finishing,
                        remaining: self.remaining.drop_first(),
                        insert_missiles: Seq::empty(),
                        output: self.output + written_fragments(self.insert_missiles) + written(
                            event,
                        ),
                        ..self
                    }
                }
            },
            WriteState::Finishing => {
                if event is EndDocument {
                    WriterView { state: WriteState::Done, ..self.pass(event) }
                } else {
                    self.pass(event)
                }
            },
            WriteState::Done | WriteState::Error => self,
        }
    }

    /// One step of the machine: a final state stays as it is, a machine out
    /// of events fails, and any other consumes the next event.
    pub open spec fn tick(self) -> WriterView {
        if self.finished() {
            self
        } else if self.remaining.len() == 0 {
            WriterView { state: WriteState::Error, ..self }
        } else {
            self.consume(self.remaining[0])
        }
    }

    /// The machine after as many steps as it takes to stop.
    pub open spec fn run(self) -> WriterView
        decreases self.remaining.len(),
    {
        if self.finished() {
            self
        } else if self.remaining.len() == 0 {
            self.tick()
        } else {
            proof {
                lemma_skip_element_shrinks(self.remaining.drop_first(), 1);
            }
            self.tick().run()
        }
    }
}

/// The machine at the start of a target document.
pub open spec fn splicer(
    target: Seq<EventView>,
    ships: Seq<Seq<EventView>>,
    missiles: Seq<Seq<EventView>>,
    name: Seq<char>,
) -> WriterView {
    WriterView {
        state: WriteState::FindShips,
        remaining: target,
        insert_ships: ships,
        insert_missiles: missiles,
        name,
        output: Seq::empty(),
        depth: 0,
    }
}

/// Skipping never leaves more events than it was given.
pub proof fn lemma_skip_element_shrinks(events: Seq<EventView>, depth: nat)
    ensures
        skip_element(events, depth).1.len() <= events.len(),
    decreases events.len(),
{
    if depth != 0 && events.len() != 0 {
        let rest = events.drop_first();
        match events[0] {
            EventView::StartElement { .. } => lemma_skip_element_shrinks(rest, depth + 1),
            EventView::EndElement { .. } => lemma_skip_element_shrinks(
                rest,
                (depth - 1) as nat,
            ),
            EventView::EndDocument => {},
            _ => lemma_skip_element_shrinks(rest, depth),
        }
    }
}

/// Appends to `output` what it holds for `event`.
pub fn write_event(output: &mut Vec<Event>, event: Event)
    ensures
        events_view(final(output)@) == events_view(old(output)@) + written(event@),
{
    let ghost before = output@;
    match event {
        Event::StartDocument { version, encoding: _, standalone } => {
            let declaration = Event::StartDocument {
                version,
                encoding: "UTF-8".to_owned(),
                standalone,
            };
            output.push(declaration);
            proof {
                assert(events_view(before.push(declaration)) =~= events_view(before) + written(
                    event@,
                ));
            }
        },
        Event::EndDocument => {
            proof {
                assert(events_view(before) + written(event@) =~= events_view(before));
            }
        },
        Event::Whitespace(_) => {
            proof {
                assert(events_view(before) + written(event@) =~= events_view(before));
            }
        },
        _ => {
            output.push(event);
            proof {
                assert(events_view(before.push(event)) =~= events_view(before) + written(event@));
            }
        },
    }
}

/// Appends to `output` what it holds for the events of `fragment`.
pub fn write_fragment(output: &mut Vec<Event>, fragment: Vec<Event>)
    ensures
        events_view(final(output)@) == events_view(old(output)@) + written_all(
            events_view(fragment@),
        ),
{
    let ghost all = events_view(fragment@);
    let ghost before = events_view(output@);
    let mut pending = reversed(fragment);
    proof {
        assert(all.take(0) =~= Seq::empty());
        assert(before + written_all(all.take(0)) =~= before);
    }
    loop
        invariant
            pending@.len() <= all.len(),
            events_view(pending@.reverse()) == all.skip(all.len() - pending@.len()),
            events_view(output@) == before + written_all(all.take(all.len() - pending@.len())),
        ensures
            events_view(output@) == before + written_all(all),
        decreases pending@.len(),
    {
        let ghost done = all.len() - pending@.len();
        let ghost stack = pending@;
        match pending.pop() {
            Some(event) => {
                proof {
                    assert(events_view(stack.reverse())[0] == event@);
                    assert(all[done] == event@);
                    assert(events_view(stack.reverse()).drop_first() =~= events_view(
                        pending@.reverse(),
                    ));
                    assert(all.skip(done).drop_first() =~= all.skip(done + 1));
                    assert(all.take(done + 1).drop_last() =~= all.take(done));
                    assert(all.take(done + 1).last() == event@);
                }
                write_event(output, event);
                proof {
                    assert(before + written_all(all.take(done)) + written(event@) =~= before
                        + written_all(all.take(done + 1)));
                }
            },
            None => {
                proof {
                    assert(all.take(all.len() as int) =~= all);
                }
                break ;
            },
        }
    }
}

/// Appends to `output` what it holds for the events of each fragment, in order.
pub fn write_fragments(output: &mut Vec<Event>, fragments: Vec<Vec<Event>>)
    ensures
        events_view(final(output)@) == events_view(old(output)@) + written_fragments(
            fragments_view(fragments@),
        ),
{
    let ghost all = fragments_view(fragments@);
    let ghost before = events_view(output@);
    let mut pending = reversed(fragments);
    proof {
        assert(all.take(0) =~= Seq::empty());
        assert(before + written_fragments(all.take(0)) =~= before);
    }
    loop
        invariant
            pending@.len() <= all.len(),
            fragments_view(pending@.reverse()) == all.skip(all.len() - pending@.len()),
            events_view(output@) == before + written_fragments(
                all.take(all.len() - pending@.len()),
            ),
        ensures
            events_view(output@) == before + written_fragments(all),
        decreases pending@.len(),
    {
        let ghost done = all.len() - pending@.len();
        let ghost stack = pending@;
        match pending.pop() {
            Some(fragment) => {
                proof {
                    assert(fragments_view(stack.reverse())[0] == events_view(fragment@));
                    assert(all[done] == events_view(fragment@));
                    assert(fragments_view(stack.reverse()).drop_first() =~= fragments_view(
                        pending@.reverse(),
                    ));
                    assert(all.skip(done).drop_first() =~= all.skip(done + 1));
                    assert(all.take(done + 1).drop_last() =~= all.take(done));
                    assert(all.take(done + 1).last() == events_view(fragment@));
                }
                write_fragment(output, fragment);
                proof {
                    assert(before + written_fragments(all.take(done)) + written_all(
                        events_view(fragment@),
                    ) =~= before + written_fragments(all.take(done + 1)));
                }
            },
            None => {
                proof {
                    assert(all.take(all.len() as int) =~= all);
                }
                break ;
            },
        }
    }
}

/// Skips the events of `pending`, the next one last, up to and including the
/// closing tag that ends the element `depth` levels up; tells whether that
/// tag was reached.
pub fn skip_to_end(pending: &mut Vec<Event>, depth: usize) -> (closed: bool)
    requires
        depth + old(pending)@.len() <= usize::MAX,
    ensures
        (closed, events_view(final(pending)@.reverse())) == skip_element(
            events_view(old(pending)@.reverse()),
            depth as nat,
        ),
{
    let ghost goal = skip_element(events_view(pending@.reverse()), depth as nat);
    let mut level = depth;
    loop
        invariant
            level + pending@.len() <= usize::MAX,
            skip_element(events_view(pending@.reverse()), level as nat) == goal,
            goal == skip_element(events_view(old(pending)@.reverse()), depth as nat),
        decreases pending@.len(),
    {
        if level == 0 {
            return true;
        }
        let ghost stack = pending@;
        match pending.pop() {
            Some(event) => {
                proof {
                    assert(events_view(stack.reverse())[0] == event@);
                    assert(events_view(stack.reverse()).drop_first() =~= events_view(
                        pending@.reverse(),
                    ));
                }
                match event {
                    Event::StartElement { .. } => {
                        level = level + 1;
                    },
                    Event::EndElement { .. } => {
                        level = level - 1;
                    },
                    Event::EndDocument => {
                        return false;
                    },
                    _ => {},
                }
            },
            None => {
                proof {
                    assert(events_view(stack.reverse()).len() == 0);
                }
                return false;
            },
        }
    }
}

/// The splicer of ship and missile fragments into a target document.
pub struct Writer {
    state: WriteState,
    /// The events of the target not yet consumed, the next one last.
    pending: Vec<Event>,
    insert_ships: Vec<Vec<Event>>,
    insert_missiles: Vec<Vec<Event>>,
    name: String,
    output: Vec<Event>,
    depth: usize,
}

impl View for Writer {
    type V = WriterView;

    closed spec fn view(&self) -> WriterView {
        WriterView {
            state: self.state,
            remaining: events_view(self.pending@.reverse()),
            insert_ships: fragments_view(self.insert_ships@),
            insert_missiles: fragments_view(self.insert_missiles@),
            name: self.name@,
            output: events_view(self.output@),
            depth: self.depth as nat,
        }
    }
}

impl Writer {
    /// Whether the splicer is valid: it counts no more open elements than
    /// it has consumed events, so that the count fits its type.
    pub closed spec fn wf(&self) -> bool {
        self.depth + self.pending@.len() <= usize::MAX
    }

    /// A splicer at the start of the target document `main`.
    pub fn new(
        main: &[u8],
        insert_ships: Vec<Vec<Event>>,
        insert_missiles: Vec<Vec<Event>>,
        name: String,
    ) -> (w: Writer)
        ensures
            w.wf(),
            w@ == splicer(
                xml_events(main@),
                fragments_view(insert_ships@),
                fragments_view(insert_missiles@),
                name@,
            ),
    {
        Writer::from_events(read_events(main), insert_ships, insert_missiles, name)
    }

    /// A splicer at the start of the events `main` of a target document.
    pub fn from_events(
        main: Vec<Event>,
        insert_ships: Vec<Vec<Event>>,
        insert_missiles: Vec<Vec<Event>>,
        name: String,
    ) -> (w: Writer)
        ensures
            w.wf(),
            w@ == splicer(
                events_view(main@),
                fragments_view(insert_ships@),
                fragments_view(insert_missiles@),
                name@,
            ),
    {
        let pending = reversed(main);
        let w = Writer {
            state: WriteState::FindShips,
            pending,
            insert_ships,
            insert_missiles,
            name,
            output: Vec::new(),
            depth: 0,
        };
        proof {
            assert(main@.reverse().reverse() =~= main@);
            assert(w@.output =~= Seq::empty());
            assert(w.pending.len() <= usize::MAX);
        }
        w
    }

    /// The state of the machine.
    pub fn state(&self) -> (s: WriteState)
        ensures
            s == self@.state,
    {
        self.state
    }

    /// Whether the whole target has been copied.
    pub fn is_done(&self) -> (b: bool)
        ensures
            b == (self@.state == WriteState::Done),
    {
        matches!(self.state, WriteState::Done)
    }

    /// Whether the machine stopped because the stream failed.
    pub fn is_error(&self) -> (b: bool)
        ensures
            b == (self@.state == WriteState::Error),
    {
        matches!(self.state, WriteState::Error)
    }

    /// Takes one step.
    pub fn tick(&mut self)
        requires
            old(self).wf(),
        ensures
            final(self).wf(),
            final(self)@ == old(self)@.tick(),
    {
        if self.is_done() || self.is_error() {
            return ;
        }
        let ghost stack = self.pending@;
        proof {
            assert(self.pending.len() <= usize::MAX);
        }
        let event = match self.pending.pop() {
            Some(event) => event,
            None => {
                self.state = WriteState::Error;
                return ;
            },
        };
        proof {
            assert(events_view(stack.reverse())[0] == event@);
            assert(events_view(stack.reverse()).drop_first() =~= events_view(
                self.pending@.reverse(),
            ));
        }
        let starts = matches!(event, Event::StartElement { .. });
        let ends = matches!(event, Event::EndElement { .. });
        match self.state {
            WriteState::FindShips => {
                if event.opens("Name") {
                    let end = match &event {
                        Event::StartElement { name, .. } => Event::EndElement {
                            name: name.clone(),
                        },
                        _ => Event::EndDocument,
                    };
                    write_event(&mut self.output, event);
                    let ghost left = self.pending@;
                    let closed = skip_to_end(&mut self.pending, 1);
                    proof {
                        lemma_skip_element_shrinks(events_view(left.reverse()), 1);
                        assert(events_view(left.reverse()).len() == left.len());
                        assert(events_view(self.pending@.reverse()).len() == self.pending@.len());
                    }
                    if closed {
                        let text = Event::Characters(self.name.clone());
                        let ghost mid = self.output@;
                        self.output.push(text);
                        self.output.push(end);
                        proof {
                            assert(events_view(mid.push(text).push(end)) =~= events_view(mid)
                                + seq![text@, end@]);
                        }
                    } else {
                        self.state = WriteState::Error;
                    }
                } else if event.opens("Ships") {
                    write_event(&mut self.output, event);
                    self.state = WriteState::InsertingShips;
                    self.depth = 0;
                } else {
                    write_event(&mut self.output, event);
                }
            },
            WriteState::InsertingShips => {
                if starts {
                    write_event(&mut self.output, event);
                    self.depth = self.depth + 1;
                } else if !ends {
                    write_event(&mut self.output, event);
                } else if self.depth > 0 {
                    write_event(&mut self.output, event);
                    self.depth = self.depth - 1;
                } else if !event.closes("Ships") {
                    self.state = WriteState::Error;
                } else {
                    let mut ships: Vec<Vec<Event>> = Vec::new();
                    core::mem::swap(&mut ships, &mut self.insert_ships);
                    write_fragments(&mut self.output, ships);
                    write_event(&mut self.output, event);
                    self.state = WriteState::FindMissiles;
                    proof {
                        assert(fragments_view(self.insert_ships@) =~= Seq::empty());
                    }
                }
            },
            WriteState::FindMissiles => {
                if event.opens("MissileTypes") {
                    write_event(&mut self.output, event);
                    self.state = WriteState::InsertingMissiles;
                    self.depth = 0;
                } else if event.closes("Fleet") {
                    let open = Event::StartElement {
                        name: QName::local("MissileTypes"),
                        attributes: Vec::new(),
                        namespace: Vec::new(),
                    };
                    let close = Event::EndElement { name: QName::local("MissileTypes") };
                    proof {
                        assert(crate::events::attributes_view(Seq::empty()) =~= Seq::empty());
                        assert(crate::events::namespace_view(Seq::empty()) =~= Seq::empty());
                        assert(open@ =~= open_tag("MissileTypes"@));
                        assert(written(open@) =~= seq![open@]);
                        assert(written(close@) =~= seq![close@]);
                    }
                    let mut missiles: Vec<Vec<Event>> = Vec::new();
                    core::mem::swap(&mut missiles, &mut self.insert_missiles);
                    write_event(&mut self.output, open);
                    write_fragments(&mut self.output, missiles);
                    write_event(&mut self.output, close);
                    write_event(&mut self.output, event);
                    self.state = WriteState::Finishing;
                    proof {
                        assert(fragments_view(self.insert_missiles@) =~= Seq::empty());
                    }
                } else {
                    write_event(&mut self.output, event);
                }
            },
            WriteState::InsertingMissiles => {
                if starts {
                    write_event(&mut self.output, event);
                    self.depth = self.depth + 1;
                } else if !ends {
                    write_event(&mut self.output, event);
                } else if self.depth > 0 {
                    write_event(&mut self.output, event);
                    self.depth = self.depth - 1;
                } else if !event.closes("MissileTypes") {
                    self.state = WriteState::Error;
                } else {
                    let mut missiles: Vec<Vec<Event>> = Vec::new();
                    core::mem::swap(&mut missiles, &mut self.insert_missiles);
                    write_fragments(&mut self.output, missiles);
                    write_event(&mut self.output, event);
                    self.state = WriteState::Finishing;
                    proof {
                        assert(fragments_view(self.insert_missiles@) =~= Seq::empty());
                    }
                }
            },
            WriteState::Finishing => {
                let ends = matches!(event, Event::EndDocument);
                write_event(&mut self.output, event);
                if ends {
                    self.state = WriteState::Done;
                }
            },
            WriteState::Done | WriteState::Error => {},
        }
    }

    /// Steps until the machine stops.
    pub fn run_until_complete(&mut self)
        requires
            old(self).wf(),
        ensures
            final(self).wf(),
            final(self)@ == old(self)@.run(),
            final(self)@.finished(),
    {
        while !(self.is_done() || self.is_error())
            invariant
                self.wf(),
                self@.run() == old(self)@.run(),
            ensures
                self.wf(),
                self@.finished(),
            decreases self@.remaining.len(), if self@.finished() { 0int } else { 1int },
        {
            proof {
                lemma_skip_element_shrinks(self@.remaining.drop_first(), 1);
            }
            self.tick();
        }
    }

    /// The events written, where the whole target was copied; nothing where
    /// the stream failed or the machine has not stopped.
    pub fn into_output(self) -> (output: Option<Vec<Event>>)
        ensures
            output is Some <==> self@.state == WriteState::Done,
            output is Some ==> events_view(output->0@) == self@.output,
    {
        if self.is_done() {
            Some(self.output)
        } else {
            None
        }
    }

    /// The text of the document written, where the whole target was copied
    /// and the events written make a document; nothing otherwise.
    pub fn into_document(self) -> (text: Option<Vec<u8>>)
        ensures
            match text {
                Some(text) => self@.state == WriteState::Done && xml_text(self@.output) == Some(
                    text@,
                ),
                None => self@.state != WriteState::Done || xml_text(self@.output) is None,
            },
    {
        if self.is_done() {
            write_events(self.output)
        } else {
            None
        }
    }
}

} // verus!
