//! The reader of one value of a fleet document: the text of the element at
//! a path such as `Name`, found without reading the whole document.
//!
//! The reader is a state machine driven one event at a time. It looks for the
//! opening tag of each element of the path in turn, then collects the text
//! up to the next closing tag. It gives up, with no text, at the first
//! element that holds elements but is not on the path: values are read at
//! the root of a document only.

use vstd::prelude::*;
use vstd::string::StrSliceExecFns;
use crate::events::{events_view, Event, EventView};
use crate::lists::reversed;
use crate::xml_io::{read_events, xml_events};

verus! {

/// The place of the first slash of a text, or its length where it has none.
pub open spec fn first_slash(s: Seq<char>) -> int
    decreases s.len(),
{
    if s.len() == 0 {
        0
    } else if s[0] == '/' {
        0
    } else {
        1 + first_slash(s.drop_first())
    }
}

/// The parts of a path: the texts between its slashes.
pub open spec fn split_path(s: Seq<char>) -> Seq<Seq<char>>
    decreases s.len(),
{
    if first_slash(s) >= s.len() {
        seq![s]
    } else {
        proof {
            lemma_first_slash_bounds(s);
        }
        seq![s.take(first_slash(s))] + split_path(s.skip(first_slash(s) + 1))
    }
}

/// The first slash lies within the text or at its end.
pub proof fn lemma_first_slash_bounds(s: Seq<char>)
    ensures
        0 <= first_slash(s) <= s.len(),
    decreases s.len(),
{
    if s.len() > 0 && s[0] != '/' {
        lemma_first_slash_bounds(s.drop_first());
    }
}

/// The first slash is where no slash comes before.
pub proof fn lemma_first_slash(s: Seq<char>, place: int)
    requires
        0 <= place <= s.len(),
        forall|k: int| 0 <= k < place ==> s[k] != '/',
        place < s.len() ==> s[place] == '/',
    ensures
        first_slash(s) == place,
    decreases s.len(),
{
    if place > 0 {
        let rest = s.drop_first();
        assert forall|k: int| 0 <= k < place - 1 implies rest[k] != '/' by {
            assert(rest[k] == s[k + 1]);
        }
        lemma_first_slash(rest, place - 1);
    }
}

/// The texts of a list of strings.
pub open spec fn parts_view(parts: Seq<String>) -> Seq<Seq<char>> {
    parts.map_values(|p: String| p@)
}

/// The parts of a path.
pub fn path_parts(path: &str) -> (parts: Vec<String>)
    ensures
        parts_view(parts@) == split_path(path@),
        parts.len() >= 1,
{
    let n = path.unicode_len();
    let mut parts: Vec<String> = Vec::new();
    let mut start: usize = 0;
    let mut i: usize = 0;
    proof {
        assert(path@.skip(0) =~= path@);
        assert(parts_view(parts@) + split_path(path@.skip(0)) =~= split_path(path@));
    }
    while i < n
        invariant
            start <= i <= n,
            n == path@.len(),
            parts_view(parts@) + split_path(path@.skip(start as int)) == split_path(path@),
            forall|k: int| start <= k < i ==> path@[k] != '/',
        decreases n - i,
    {
        let c = path.get_char(i);
        if c == '/' {
            let ghost tail = path@.skip(start as int);
            let ghost before = parts@;
            let part = path.substring_char(start, i).to_owned();
            parts.push(part);
            proof {
                lemma_first_slash(tail, i - start);
                assert(tail.take(i - start) =~= path@.subrange(start as int, i as int));
                assert(tail.skip(i - start + 1) =~= path@.skip(i + 1));
                assert(parts_view(before.push(part)) =~= parts_view(before).push(part@));
                assert(parts_view(parts@) + split_path(path@.skip(i + 1)) =~= parts_view(before)
                    + split_path(tail));
            }
            start = i + 1;
        }
        i += 1;
    }
    let ghost tail = path@.skip(start as int);
    let ghost before = parts@;
    let part = path.substring_char(start, n).to_owned();
    parts.push(part);
    proof {
        lemma_first_slash(tail, n - start);
        assert(tail =~= path@.subrange(start as int, n as int));
        assert(parts_view(before.push(part)) =~= parts_view(before).push(part@));
        assert(parts_view(parts@) =~= parts_view(before) + split_path(tail));
    }
    parts
}

/// The states of the reader.
#[derive(Clone, Copy, Debug, PartialEq, Eq, Structural)]
pub enum InfoState {
    /// No value has been asked for.
    Idle,
    /// Looking for the opening tag of an element of the path.
    FindField,
    /// Collecting the text of the element at the end of the path.
    ReadField,
    /// The value has been read, or the search was given up.
    Complete,
    /// The stream of events failed.
    Failed,
}

/// The reader as a mathematical value.
pub struct InfoView {
    pub state: InfoState,
    /// The name of the element that is looked for.
    pub field: Seq<char>,
    /// The names of the elements to look for after it.
    pub remaining_fields: Seq<Seq<char>>,
    /// The events not yet consumed.
    pub remaining: Seq<EventView>,
    /// The text collected.
    pub buf: Seq<char>,
}

impl InfoView {
    /// Whether the machine has stopped, or has not been started.
    pub open spec fn stopped(self) -> bool {
        self.state == InfoState::Idle || self.state == InfoState::Complete || self.state
            == InfoState::Failed
    }

    /// What the opening tag of an element that is not looked for does: the
    /// event after it, or after the whitespace that follows it, is consumed
    /// too, and the search is given up where that event opens an element.
    pub open spec fn look_inside(self) -> InfoView {
        let rest = self.remaining.drop_first();
        if rest.len() == 0 {
            InfoView { state: InfoState::Failed, remaining: rest, ..self }
        } else if rest[0] is Whitespace {
            if rest.len() == 1 {
                InfoView { state: InfoState::Failed, remaining: rest.skip(1), ..self }
            } else if rest[1] is StartElement {
                InfoView { state: InfoState::Complete, remaining: rest.skip(2), ..self }
            } else {
                InfoView { remaining: rest.skip(2), ..self }
            }
        } else if rest[0] is StartElement {
            InfoView { state: InfoState::Complete, remaining: rest.skip(1), ..self }
        } else {
            InfoView { remaining: rest.skip(1), ..self }
        }
    }

    /// One step of the machine.
    pub open spec fn tick(self) -> InfoView {
        if self.stopped() {
            self
        } else if self.remaining.len() == 0 {
            InfoView { state: InfoState::Failed, ..self }
        } else {
            let event = self.remaining[0];
            let rest = self.remaining.drop_first();
            if self.state == InfoState::FindField {
                if event.opens(self.field) {
                    if self.remaining_fields.len() == 0 {
                        InfoView { state: InfoState::ReadField, remaining: rest, ..self }
                    } else {
                        InfoView {
                            field: self.remaining_fields[0],
                            remaining_fields: self.remaining_fields.drop_first(),
                            remaining: rest,
                            ..self
                        }
                    }
                } else if event is StartElement {
                    self.look_inside()
                } else if event is EndDocument {
                    InfoView { state: InfoState::Complete, remaining: rest, ..self }
                } else {
                    InfoView { remaining: rest, ..self }
                }
            } else {
                match event {
                    EventView::CData(chunk) => InfoView {
                        buf: self.buf + chunk,
                        remaining: rest,
                        ..self
                    },
                    EventView::Characters(chunk) => InfoView {
                        buf: self.buf + chunk,
                        remaining: rest,
                        ..self
                    },
                    EventView::EndElement { .. } => InfoView {
                        state: InfoState::Complete,
                        remaining: rest,
                        ..self
                    },
                    EventView::EndDocument => InfoView {
                        state: InfoState::Complete,
                        remaining: rest,
                        ..self
                    },
                    _ => InfoView { remaining: rest, ..self },
                }
            }
        }
    }

    /// The machine after as many steps as it takes to stop.
    pub open spec fn run(self) -> InfoView
        decreases self.remaining.len(),
    {
        if self.stopped() {
            self
        } else if self.remaining.len() == 0 {
            self.tick()
        } else {
            self.tick().run()
        }
    }

    /// The machine set to look for the value at a path.
    pub open spec fn asked(self, fields: Seq<Seq<char>>) -> InfoView {
        InfoView {
            state: InfoState::FindField,
            field: fields[0],
            remaining_fields: fields.drop_first(),
            ..self
        }
    }

    /// The value read: the text collected, where the machine completed.
    pub open spec fn value(self) -> Option<Seq<char>> {
        if self.state == InfoState::Complete {
            Some(self.buf)
        } else {
            None
        }
    }
}

/// The reader of one value of a document.
pub struct FleetInfoReader {
    state: InfoState,
    field: String,
    /// The names of the elements to look for later, the next one last.
    fields: Vec<String>,
    /// The events not yet consumed, the next one last.
    pending: Vec<Event>,
    buf: String,
}

impl View for FleetInfoReader {
    type V = InfoView;

    closed spec fn view(&self) -> InfoView {
        InfoView {
            state: self.state,
            field: self.field@,
            remaining_fields: parts_view(self.fields@.reverse()),
            remaining: events_view(self.pending@.reverse()),
            buf: self.buf@,
        }
    }
}

impl FleetInfoReader {
    /// A reader at the start of the document `source`.
    pub fn new(source: &[u8]) -> (r: FleetInfoReader)
        ensures
            r@ == (InfoView {
                state: InfoState::Idle,
                field: Seq::empty(),
                remaining_fields: Seq::empty(),
                remaining: xml_events(source@),
                buf: Seq::empty(),
            }),
    {
        FleetInfoReader::from_events(read_events(source))
    }

    /// A reader at the start of `events`.
    pub fn from_events(events: Vec<Event>) -> (r: FleetInfoReader)
        ensures
            r@ == (InfoView {
                state: InfoState::Idle,
                field: Seq::empty(),
                remaining_fields: Seq::empty(),
                remaining: events_view(events@),
                buf: Seq::empty(),
            }),
    {
        let pending = reversed(events);
        let r = FleetInfoReader {
            state: InfoState::Idle,
            field: String::new(),
            fields: Vec::new(),
            pending,
            buf: String::new(),
        };
        proof {
            assert(events@.reverse().reverse() =~= events@);
            assert(r@.remaining_fields =~= Seq::empty());
        }
        r
    }

    /// Whether the machine has stopped, or has not been started.
    pub fn stopped(&self) -> (b: bool)
        ensures
            b == self@.stopped(),
    {
        matches!(self.state, InfoState::Idle | InfoState::Complete | InfoState::Failed)
    }

    /// Consumes the next event.
    fn next(&mut self) -> (event: Option<Event>)
        ensures
            final(self)@ == (InfoView {
                remaining: if old(self)@.remaining.len() == 0 {
                    old(self)@.remaining
                } else {
                    old(self)@.remaining.drop_first()
                },
                ..old(self)@
            }),
            match event {
                Some(event) => old(self)@.remaining.len() > 0 && event@ == old(self)@.remaining[0],
                None => old(self)@.remaining.len() == 0,
            },
    {
        let ghost stack = self.pending@;
        let event = self.pending.pop();
        proof {
            if stack.len() > 0 {
                assert(events_view(stack.reverse())[0] == event->0@);
                assert(events_view(stack.reverse()).drop_first() =~= events_view(
                    self.pending@.reverse(),
                ));
            } else {
                assert(events_view(stack.reverse()).len() == 0);
            }
        }
        event
    }

    /// Takes one step.
    pub fn tick(&mut self)
        ensures
            final(self)@ == old(self)@.tick(),
    {
        if self.stopped() {
            return ;
        }
        let event = match self.next() {
            Some(event) => event,
            None => {
                self.state = InfoState::Failed;
                return ;
            },
        };
        let ghost rest = self@.remaining;
        if matches!(self.state, InfoState::FindField) {
            if event.opens(self.field.as_str()) {
                let ghost stack = self.fields@;
                match self.fields.pop() {
                    Some(field) => {
                        self.field = field;
                        proof {
                            assert(parts_view(stack.reverse())[0] == field@);
                            assert(parts_view(stack.reverse()).drop_first() =~= parts_view(
                                self.fields@.reverse(),
                            ));
                        }
                    },
                    None => {
                        self.state = InfoState::ReadField;
                        proof {
                            assert(parts_view(stack.reverse()).len() == 0);
                        }
                    },
                }
            } else if matches!(event, Event::StartElement { .. }) {
                let after = match self.next() {
                    Some(after) => after,
                    None => {
                        self.state = InfoState::Failed;
                        return ;
                    },
                };
                let after = if matches!(after, Event::Whitespace(_)) {
                    proof {
                        assert(rest.skip(1) =~= rest.drop_first());
                    }
                    match self.next() {
                        Some(after) => {
                            proof {
                                assert(rest.skip(2) =~= rest.drop_first().drop_first());
                            }
                            after
                        },
                        None => {
                            self.state = InfoState::Failed;
                            return ;
                        },
                    }
                } else {
                    proof {
                        assert(rest.skip(1) =~= rest.drop_first());
                    }
                    after
                };
                if matches!(after, Event::StartElement { .. }) {
                    self.state = InfoState::Complete;
                }
            } else if matches!(event, Event::EndDocument) {
                self.state = InfoState::Complete;
            }
        } else {
            match event {
                Event::CData(chunk) => {
                    self.buf.append(chunk.as_str());
                },
                Event::Characters(chunk) => {
                    self.buf.append(chunk.as_str());
                },
                Event::EndElement { .. } => {
                    self.state = InfoState::Complete;
                },
                Event::EndDocument => {
                    self.state = InfoState::Complete;
                },
                _ => {},
            }
        }
    }

    /// The text of the element at the path `arg`, whose parts are separated
    /// by slashes; nothing where the stream of events fails first.
    pub fn get_value(self, arg: &str) -> (value: Option<String>)
        ensures
            match value {
                Some(text) => self@.asked(split_path(arg@)).run().value() == Some(text@),
                None => self@.asked(split_path(arg@)).run().value() is None,
            },
    {
        let mut reader = self;
        let mut fields = reversed(path_parts(arg));
        let ghost stack = fields@;
        let first = fields.pop().unwrap();
        reader.field = first;
        reader.fields = fields;
        reader.state = InfoState::FindField;
        proof {
            let parts = split_path(arg@);
            assert(parts_view(stack.reverse()) =~= parts);
            assert(parts_view(reader.fields@.reverse()) =~= parts.drop_first());
            assert(reader@ == self@.asked(parts));
        }
        let ghost start = reader@;
        while !reader.stopped()
            invariant
                reader@.run() == start.run(),
            ensures
                reader@.stopped(),
            decreases reader@.remaining.len(), if reader@.stopped() { 0int } else { 1int },
        {
            reader.tick();
        }
        if matches!(reader.state, InfoState::Complete) {
            Some(reader.buf)
        } else {
            None
        }
    }
}

} // verus!
