//! The splitter: a buffer, a decoder, and one step per pull.

use vstd::prelude::*;
use crate::split::{line_ready, next_line, rest, take_line};
use crate::utf8::decode_text;
use vstd::utf8::{decode_utf8, valid_utf8};

verus! {

/// Where a splitter stands.
#[derive(Clone, Copy, Debug, PartialEq, Eq, Structural)]
pub enum Phase {
    /// The source may still deliver chunks.
    Active,
    /// The source has signalled its end: it is never asked again, and what is
    /// buffered is flushed line by line.
    Draining,
    /// An error has been handed out: nothing follows it.
    Failed,
}

/// What the source answered when it was asked for its next chunk.
#[derive(Debug, PartialEq, Eq)]
pub enum Event<U> {
    /// Nothing yet: ask again later.
    NotReady,
    /// The next chunk of bytes.
    Chunk(Vec<u8>),
    /// The source is exhausted.
    Exhausted,
    /// The source failed.
    Failed(U),
}

/// What one pull of the splitter gives.
#[derive(Debug, PartialEq, Eq)]
pub enum Pulled<O, E, U> {
    /// No complete line yet: pull again once the source may have more.
    NotReady,
    /// The next line, decoded.
    Line(O),
    /// The end: no line will follow.
    Done,
    /// The decoder refused the bytes of the next line.
    DecodeError(E),
    /// The source failed.
    SourceError(U),
}

/// An event as the rules see it: a chunk by its bytes, a failure without its cause.
pub enum Input {
    /// The source has nothing yet.
    NotReady,
    /// The source delivered these bytes.
    Chunk(Seq<u8>),
    /// The source is exhausted.
    Exhausted,
    /// The source failed.
    Failed,
}

impl<U> View for Event<U> {
    type V = Input;

    open spec fn view(&self) -> Input {
        match self {
            Event::NotReady => Input::NotReady,
            Event::Chunk(bytes) => Input::Chunk(bytes@),
            Event::Exhausted => Input::Exhausted,
            Event::Failed(_) => Input::Failed,
        }
    }
}

/// A splitter as the rules see it.
pub struct State {
    /// Where it stands.
    pub phase: Phase,
    /// The bytes that came in and have not left in a line yet.
    pub pending: Seq<u8>,
}

/// What a pull does, before the decoder is asked.
pub enum Action {
    /// Report that no line is ready.
    Wait,
    /// Hand these bytes to the decoder and give out its answer.
    Emit(Seq<u8>),
    /// Report the end.
    Finish,
    /// Pass the source's failure on.
    Abort,
}

/// The input that counts: once the source has signalled its end it is taken
/// as exhausted whatever is handed in.
pub open spec fn effective(phase: Phase, input: Input) -> Input {
    if phase is Draining {
        Input::Exhausted
    } else {
        input
    }
}

/// One pull: the state that follows, if the decoder accepts what is emitted,
/// and what the pull does.
pub open spec fn step(s: State, input: Input) -> (State, Action) {
    if s.phase is Failed {
        (s, Action::Finish)
    } else {
        match effective(s.phase, input) {
            Input::NotReady => (s, Action::Wait),
            Input::Failed => (State { phase: Phase::Failed, pending: s.pending }, Action::Abort),
            Input::Exhausted => if line_ready(s.pending, true) {
                (
                    State { phase: Phase::Draining, pending: rest(s.pending) },
                    Action::Emit(next_line(s.pending)),
                )
            } else {
                (State { phase: Phase::Draining, pending: s.pending }, Action::Finish)
            },
            Input::Chunk(bytes) => {
                let buf = s.pending + bytes;
                if line_ready(buf, false) {
                    (State { phase: s.phase, pending: rest(buf) }, Action::Emit(next_line(buf)))
                } else {
                    (State { phase: s.phase, pending: buf }, Action::Wait)
                }
            },
        }
    }
}

/// `r` is an answer of the decoder `into` to the bytes `line`.
pub open spec fn decoded<O, E, F: Fn(Vec<u8>) -> Result<O, E>>(
    into: F,
    line: Seq<u8>,
    r: Result<O, E>,
) -> bool {
    exists|v: Vec<u8>| v@ == line && call_ensures(into, (v,), r)
}

/// Turns byte chunks into decoded lines, one per pull.
pub struct Lines<F> {
    buffered: Option<Vec<u8>>,
    into: F,
    phase: Phase,
}

impl<F> View for Lines<F> {
    type V = State;

    closed spec fn view(&self) -> State {
        State {
            phase: self.phase,
            pending: match self.buffered {
                Some(bytes) => bytes@,
                None => Seq::empty(),
            },
        }
    }
}

impl<O, E, F: Fn(Vec<u8>) -> Result<O, E>> Lines<F> {
    /// The decoder that each line is handed to.
    pub closed spec fn decoder(&self) -> F {
        self.into
    }

    /// The decoder takes every byte sequence.
    pub open spec fn wf(&self) -> bool {
        forall|v: Vec<u8>| call_requires(self.decoder(), (v,))
    }

    /// A splitter with nothing buffered that decodes each line with `into`.
    pub fn new(into: F) -> (lines: Self)
        requires
            forall|v: Vec<u8>| call_requires(into, (v,)),
        ensures
            lines.wf(),
            lines.decoder() == into,
            lines@ == (State { phase: Phase::Active, pending: Seq::empty() }),
    {
        Lines { buffered: None, into, phase: Phase::Active }
    }

    /// Whether the source is still to be asked for chunks.
    pub fn is_active(&self) -> (b: bool)
        ensures
            b == (self@.phase is Active),
    {
        match self.phase {
            Phase::Active => true,
            _ => false,
        }
    }

    /// Where the splitter stands.
    pub fn phase(&self) -> (p: Phase)
        ensures
            p == self@.phase,
    {
        self.phase
    }

    /// Takes the next line out of the buffer, if one is ready, and decodes it.
    ///
    /// A line is ready where the buffer holds a line feed, or where `flush` is
    /// set and the buffer is not empty. The buffer keeps what follows the line,
    /// also where the decoder refuses it.
    pub fn next(&mut self, flush: bool) -> (r: Option<Result<O, E>>)
        requires
            old(self).wf(),
        ensures
            final(self).wf(),
            final(self).decoder() == old(self).decoder(),
            final(self)@.phase == old(self)@.phase,
            line_ready(old(self)@.pending, flush) ==> r is Some && decoded(
                old(self).decoder(),
                next_line(old(self)@.pending),
                r->Some_0,
            ) && final(self)@.pending == rest(old(self)@.pending),
            !line_ready(old(self)@.pending, flush) ==> r is None && final(self)@.pending == old(
                self,
            )@.pending,
    {
        let held = self.buffered.take();
        assert(self.decoder() == old(self).decoder());
        match held {
            None => None,
            Some(mut buffer) => {
                let taken = take_line(&mut buffer, flush);
                self.buffered = Some(buffer);
                match taken {
                    None => None,
                    Some(line) => {
                        let ghost bytes = line@;
                        let answer = (self.into)(line);
                        assert(decoded(self.into, bytes, answer));
                        Some(answer)
                    },
                }
            },
        }
    }

    /// One pull: takes in what the source answered and gives at most one line.
    ///
    /// A chunk is appended to the buffer, and the first complete line, if
    /// there is one, is decoded and handed out; further lines stay buffered
    /// for later pulls. Once the source is exhausted the buffer is flushed,
    /// one line per pull, and then the end is reported. A failure of the
    /// source or of the decoder is handed out once; after it every pull
    /// reports the end and changes nothing.
    pub fn poll<U>(&mut self, event: Event<U>) -> (out: Pulled<O, E, U>)
        requires
            old(self).wf(),
        ensures
            final(self).wf(),
            final(self).decoder() == old(self).decoder(),
            final(self)@.pending == step(old(self)@, event@).0.pending,
            match step(old(self)@, event@).1 {
                Action::Wait => out is NotReady && final(self)@ == step(old(self)@, event@).0,
                Action::Finish => out is Done && final(self)@ == step(old(self)@, event@).0,
                Action::Abort => event is Failed && out == Pulled::<O, E, U>::SourceError(
                    event->Failed_0,
                ) && final(self)@ == step(old(self)@, event@).0,
                Action::Emit(line) => match out {
                    Pulled::Line(o) => decoded(old(self).decoder(), line, Ok::<O, E>(o))
                        && final(self)@ == step(old(self)@, event@).0,
                    Pulled::DecodeError(e) => decoded(old(self).decoder(), line, Err::<O, E>(e))
                        && final(self)@.phase is Failed,
                    _ => false,
                },
            },
    {
        let out = match self.phase {
            Phase::Failed => Pulled::Done,
            Phase::Draining => self.flush(),
            Phase::Active => match event {
                Event::NotReady => Pulled::NotReady,
                Event::Failed(cause) => {
                    self.phase = Phase::Failed;
                    Pulled::SourceError(cause)
                },
                Event::Exhausted => {
                    self.phase = Phase::Draining;
                    assert(self.decoder() == old(self).decoder());
                    self.flush()
                },
                Event::Chunk(bytes) => {
                    match self.buffered.take() {
                        Some(mut buffer) => {
                            buffer.extend_from_slice(bytes.as_slice());
                            self.buffered = Some(buffer);
                        },
                        None => {
                            self.buffered = Some(bytes);
                        },
                    }
                    assert(self.decoder() == old(self).decoder());
                    assert(self@.pending =~= old(self)@.pending + bytes@);
                    match self.next(false) {
                        Some(Ok(line)) => Pulled::Line(line),
                        Some(Err(error)) => {
                            self.phase = Phase::Failed;
                            Pulled::DecodeError(error)
                        },
                        None => Pulled::NotReady,
                    }
                },
            },
        };
        assert(self.decoder() == old(self).decoder());
        out
    }

    /// A pull on an exhausted source: the next buffered line, or the end.
    fn flush<U>(&mut self) -> (out: Pulled<O, E, U>)
        requires
            old(self).wf(),
            old(self)@.phase is Draining,
        ensures
            final(self).wf(),
            final(self).decoder() == old(self).decoder(),
            final(self)@.pending == step(old(self)@, Input::Exhausted).0.pending,
            match step(old(self)@, Input::Exhausted).1 {
                Action::Finish => out is Done && final(self)@ == old(self)@,
                Action::Emit(line) => match out {
                    Pulled::Line(o) => decoded(old(self).decoder(), line, Ok::<O, E>(o))
                        && final(self)@.phase is Draining,
                    Pulled::DecodeError(e) => decoded(old(self).decoder(), line, Err::<O, E>(e))
                        && final(self)@.phase is Failed,
                    _ => false,
                },
                _ => false,
            },
    {
        match self.next(true) {
            Some(Ok(line)) => Pulled::Line(line),
            Some(Err(error)) => {
                self.phase = Phase::Failed;
                Pulled::DecodeError(error)
            },
            None => Pulled::Done,
        }
    }
}

/// A splitter whose lines are UTF-8 text.
///
/// Its decoder accepts exactly the lines that are valid UTF-8 and gives the
/// text they encode.
pub fn strings() -> (lines: Lines<impl Fn(Vec<u8>) -> Result<String, std::string::FromUtf8Error>>)
    ensures
        lines.wf(),
        lines@ == (State { phase: Phase::Active, pending: Seq::empty() }),
        forall|line: Seq<u8>, r: Result<String, std::string::FromUtf8Error>|
            decoded(lines.decoder(), line, r) ==> (r is Ok <==> valid_utf8(line)) && (r is Ok
                ==> r->Ok_0@ == decode_utf8(line)),
{
    Lines::new(decode_text)
}

} // verus!
