//! Line-wise consumption for consumers that have to wait between lines, such as those that write
//! each line to an asynchronous sink.

use crate::error::StreamReadError;
use crate::output_stream::event::{self, EventView, StreamEvent};
use crate::output_stream::line::options::LineParsingOptions;
use crate::output_stream::line::parser::{self, LineParser, ParserState};
use crate::output_stream::line::text;
use crate::output_stream::Next;
use std::collections::VecDeque;
use vstd::prelude::*;

verus! {

/// What a consumer of lines does next.
#[derive(Debug, PartialEq, Eq)]
pub enum LineAction {
    /// Wait for the next event of the stream, and hand it to [`LineDispatch::on_event`].
    NextEvent,
    /// Visit this line, and answer with [`LineDispatch::on_visited`].
    Visit(String),
    /// The stream has ended and its last line was visited.
    Ended,
    /// A visit asked to stop.
    Stopped,
    /// The stream failed.
    Failed(StreamReadError),
}

/// How far a dispatch has come.
#[derive(Debug, Clone, Copy, PartialEq, Eq, Structural)]
pub enum DispatchPhase {
    /// More events are expected.
    Open,
    /// The stream has ended.
    Ended,
    /// A visit asked to stop before the stream ended.
    Stopped,
}

/// Cuts the events of a stream into lines, and hands out one line at a time.
pub struct LineDispatch {
    parser: LineParser,
    options: LineParsingOptions,
    pending: VecDeque<String>,
    phase: DispatchPhase,
}

/// The parts of a [`LineDispatch`].
pub struct Dispatching {
    /// The state of the line parser.
    pub parser: ParserState,
    /// How lines are parsed.
    pub options: LineParsingOptions,
    /// The lines that were parsed but not handed out yet.
    pub pending: Seq<Seq<char>>,
    /// How far the dispatch has come.
    pub phase: DispatchPhase,
}

impl Dispatching {
    /// The parser is in order.
    pub open spec fn ready(self) -> bool {
        &&& self.parser.wf()
        &&& self.parser.within(self.options)
    }

    /// Whether the event can be taken in without the line in progress outgrowing its buffer.
    pub open spec fn accepts(self, event: Option<EventView>) -> bool {
        event matches Some(EventView::Chunk(chunk)) ==> parser::has_room(
            self.parser,
            chunk.len(),
            self.options,
        )
    }

    /// What is left to do once an event was taken in. Behind the end, and once a visit asked to
    /// stop, events are ignored.
    pub open spec fn receive(self, event: Option<EventView>) -> Self {
        if self.phase != DispatchPhase::Open {
            self
        } else {
            match event {
                Some(EventView::Chunk(chunk)) => {
                    let (lines, end) = parser::feed(self.parser, chunk, self.options);
                    Dispatching {
                        parser: end,
                        pending: self.pending + text::decoded(lines),
                        ..self
                    }
                },
                Some(EventView::Gap) => Dispatching { parser: ParserState::discarding(), ..self },
                Some(EventView::Eof) | None => {
                    let trailing = parser::trailing_line(self.parser);
                    Dispatching {
                        parser: if trailing is Some {
                            ParserState { mode: self.parser.mode, partial: Seq::empty() }
                        } else {
                            self.parser
                        },
                        pending: self.pending + text::decoded(parser::option_to_seq(trailing)),
                        phase: DispatchPhase::Ended,
                        ..self
                    }
                },
                Some(EventView::ReadError(_)) => self,
            }
        }
    }

    /// What is left to do once a visit gave an answer. A visit that asks to stop drops the lines
    /// behind it.
    pub open spec fn answer(self, next: Next) -> Self {
        match next {
            Next::Continue => self,
            Next::Break => Dispatching {
                pending: Seq::empty(),
                phase: if self.phase == DispatchPhase::Open {
                    DispatchPhase::Stopped
                } else {
                    self.phase
                },
                ..self
            },
        }
    }

    /// Whether `action` is what comes next.
    pub open spec fn offers(self, action: LineAction) -> bool {
        if self.pending.len() > 0 {
            action matches LineAction::Visit(line) && line@ == self.pending[0]
        } else {
            match self.phase {
                DispatchPhase::Open => action == LineAction::NextEvent,
                DispatchPhase::Ended => action == LineAction::Ended,
                DispatchPhase::Stopped => action == LineAction::Stopped,
            }
        }
    }

    /// What is left to do behind the line that is handed out, if there is one.
    pub open spec fn handed_out(self) -> Self {
        if self.pending.len() > 0 {
            Dispatching { pending: self.pending.skip(1), ..self }
        } else {
            self
        }
    }
}

impl View for LineDispatch {
    type V = Dispatching;

    closed spec fn view(&self) -> Dispatching {
        Dispatching {
            parser: self.parser@,
            options: self.options,
            pending: text::texts(self.pending@),
            phase: self.phase,
        }
    }
}

impl LineDispatch {
    /// Starts cutting a stream into lines.
    pub fn new(options: LineParsingOptions) -> (r: Self)
        ensures
            r@.ready(),
            r@ == (Dispatching {
                parser: ParserState::initial(),
                options,
                pending: Seq::empty(),
                phase: DispatchPhase::Open,
            }),
    {
        let pending: VecDeque<String> = VecDeque::new();
        assert(text::texts(pending@) =~= Seq::<Seq<char>>::empty());
        Self { parser: LineParser::new(), options, pending, phase: DispatchPhase::Open }
    }

    /// Whether the event can be taken in without the line in progress outgrowing its buffer.
    #[must_use]
    pub fn has_room(&self, event: &Option<StreamEvent>) -> (r: bool)
        ensures
            r == self@.accepts(event::next_view(*event)),
    {
        match event {
            Some(StreamEvent::Chunk(chunk)) => {
                self.parser.has_room(chunk.as_ref().len(), self.options)
            },
            _ => true,
        }
    }

    /// Takes in the next event of the stream. No event at all means that the stream is closed.
    pub fn on_event(&mut self, event: Option<StreamEvent>) -> (r: LineAction)
        requires
            old(self)@.ready(),
            old(self)@.accepts(event::next_view(event)),
        ensures
            final(self)@.ready(),
            match event {
                Some(StreamEvent::ReadError(error)) if old(self)@.phase == DispatchPhase::Open => {
                    &&& r == LineAction::Failed(error)
                    &&& final(self)@ == old(self)@
                },
                _ => {
                    let received = old(self)@.receive(event::next_view(event));
                    received.offers(r) && final(self)@ == received.handed_out()
                },
            },
    {
        if !matches!(self.phase, DispatchPhase::Open) {
            return self.offer();
        }
        match event {
            Some(StreamEvent::Chunk(chunk)) => {
                let lines = self.parser.owned_lines(chunk.as_ref(), self.options);
                self.enqueue(lines);
            },
            Some(StreamEvent::Gap) => {
                self.parser.on_gap();
            },
            Some(StreamEvent::Eof) | None => {
                let mut lines: Vec<String> = Vec::new();
                if let Some(line) = self.parser.finish_owned() {
                    lines.push(line);
                }
                let ghost trailing = parser::trailing_line(old(self)@.parser);
                assert(text::texts(lines@) =~= text::decoded(parser::option_to_seq(trailing)));
                self.enqueue(lines);
                self.phase = DispatchPhase::Ended;
            },
            Some(StreamEvent::ReadError(error)) => {
                return LineAction::Failed(error);
            },
        }
        self.offer()
    }

    /// Takes in the answer of a visit.
    pub fn on_visited(&mut self, next: Next) -> (r: LineAction)
        requires
            old(self)@.ready(),
        ensures
            final(self)@.ready(),
            old(self)@.answer(next).offers(r),
            final(self)@ == old(self)@.answer(next).handed_out(),
    {
        match next {
            Next::Continue => {},
            Next::Break => {
                self.pending.clear();
                assert(text::texts(self.pending@) =~= Seq::<Seq<char>>::empty());
                if matches!(self.phase, DispatchPhase::Open) {
                    self.phase = DispatchPhase::Stopped;
                }
            },
        }
        self.offer()
    }

    /// Appends lines to those that wait to be handed out.
    fn enqueue(&mut self, lines: Vec<String>)
        ensures
            final(self)@ == (Dispatching {
                pending: old(self)@.pending + text::texts(lines@),
                ..old(self)@
            }),
    {
        let mut lines = lines;
        let mut queued: VecDeque<String> = VecDeque::new();
        let ghost all = lines@;
        while lines.len() > 0
            invariant
                lines@ + queued@ == all,
            decreases lines@.len(),
        {
            let ghost before = lines@ + queued@;
            if let Some(line) = lines.pop() {
                queued.push_front(line);
                assert(lines@ + queued@ =~= before);
            }
        }
        assert(queued@ =~= all);
        self.pending.append(&mut queued);
        assert(text::texts(self.pending@) =~= old(self)@.pending + text::texts(all));
    }

    /// Hands out what comes next.
    fn offer(&mut self) -> (r: LineAction)
        ensures
            old(self)@.offers(r),
            final(self)@ == old(self)@.handed_out(),
    {
        match self.pending.pop_front() {
            Some(line) => {
                assert(text::texts(self.pending@) =~= old(self)@.pending.skip(1));
                LineAction::Visit(line)
            },
            None => match self.phase {
                DispatchPhase::Open => LineAction::NextEvent,
                DispatchPhase::Ended => LineAction::Ended,
                DispatchPhase::Stopped => LineAction::Stopped,
            },
        }
    }
}

} // verus!
