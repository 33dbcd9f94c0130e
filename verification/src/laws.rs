//! What holds of every run of the splitter, whatever the chunks.

use vstd::prelude::*;
use crate::lines::{step, Action, Input, Phase, State};
use crate::split::{
    has_lf, lemma_append_keeps_first_line, lemma_lf_index, lf_index, lines_of, next_line, rest,
    CR,
};

verus! {

/// A splitter that has seen nothing yet.
pub open spec fn fresh() -> State {
    State { phase: Phase::Active, pending: Seq::empty() }
}

/// The lines that one pull hands to the decoder: one or none.
pub open spec fn emitted(action: Action) -> Seq<Seq<u8>> {
    match action {
        Action::Emit(line) => seq![line],
        _ => Seq::empty(),
    }
}

/// The lines that come out, in order, when a splitter in state `s` is pulled
/// to its end while the source delivers `chunks`, one per pull, and is then
/// exhausted.
pub open spec fn run(s: State, chunks: Seq<Seq<u8>>) -> Seq<Seq<u8>>
    decreases chunks.len(), s.pending.len(),
{
    if chunks.len() > 0 {
        let (next, action) = step(s, Input::Chunk(chunks[0]));
        emitted(action) + run(next, chunks.drop_first())
    } else {
        let (next, action) = step(s, Input::Exhausted);
        match action {
            Action::Emit(line) => seq![line] + run(next, chunks),
            _ => Seq::empty(),
        }
    }
}

/// Pulling a splitter to its end gives the lines of what it had buffered
/// followed by all the chunks, joined.
pub proof fn lemma_run_is_lines_of(s: State, chunks: Seq<Seq<u8>>)
    requires
        s.phase is Active || (s.phase is Draining && chunks.len() == 0),
    ensures
        run(s, chunks) == lines_of(s.pending + chunks.flatten()),
    decreases chunks.len(), s.pending.len(),
{
    if chunks.len() > 0 {
        let buf = s.pending + chunks[0];
        let later = chunks.drop_first();
        let (next, action) = step(s, Input::Chunk(chunks[0]));
        let all = s.pending + chunks.flatten();
        assert(all =~= buf + later.flatten());
        lemma_run_is_lines_of(next, later);
        if has_lf(buf) {
            lemma_append_keeps_first_line(buf, later.flatten());
            lemma_lf_index(all);
        }
    } else {
        let (next, action) = step(s, Input::Exhausted);
        assert(s.pending + chunks.flatten() =~= s.pending);
        if s.pending.len() > 0 {
            lemma_lf_index(s.pending);
            lemma_run_is_lines_of(next, chunks);
            assert(next.pending + chunks.flatten() =~= next.pending);
        }
    }
}

/// Splitting is by line feeds alone: pulling a new splitter to its end gives
/// exactly the lines of the chunks joined, wherever the chunks were cut.
pub proof fn law_splits_at_line_feeds(chunks: Seq<Seq<u8>>)
    ensures
        run(fresh(), chunks) == lines_of(chunks.flatten()),
{
    lemma_run_is_lines_of(fresh(), chunks);
    assert(fresh().pending + chunks.flatten() =~= chunks.flatten());
}

/// Two ways of cutting the same bytes into chunks give the same lines.
pub proof fn law_chunking_is_irrelevant(a: Seq<Seq<u8>>, b: Seq<Seq<u8>>)
    requires
        a.flatten() == b.flatten(),
    ensures
        run(fresh(), a) == run(fresh(), b),
{
    law_splits_at_line_feeds(a);
    law_splits_at_line_feeds(b);
}

/// A carriage return right before the line feed is left out of the line, and
/// nothing else is: the line is the buffer up to the first line feed, byte for
/// byte, less that one carriage return; a buffer without a line feed is its
/// own line, with every carriage return kept.
pub proof fn law_cr_goes_with_lf(buf: Seq<u8>)
    ensures
        has_lf(buf) ==> ({
            let i = lf_index(buf) as int;
            if i > 0 && buf[i - 1] == CR {
                next_line(buf) == buf.take(i - 1)
            } else {
                next_line(buf) == buf.take(i)
            }
        }),
        !has_lf(buf) ==> next_line(buf) == buf,
        forall|k: int| 0 <= k < next_line(buf).len() ==> next_line(buf)[k] == buf[k],
{
    lemma_lf_index(buf);
    let i = lf_index(buf) as int;
    if has_lf(buf) && i > 0 && buf[i - 1] == CR {
        assert(buf.take(i).drop_last() =~= buf.take(i - 1));
    }
}

/// When the source ends on an unterminated tail, that tail comes out as one
/// last line, whole; on an empty tail nothing more comes out.
pub proof fn law_final_flush(s: State)
    requires
        !(s.phase is Failed),
        !has_lf(s.pending),
    ensures
        s.pending.len() > 0 ==> run(s, Seq::empty()) == seq![s.pending],
        s.pending.len() == 0 ==> run(s, Seq::empty()) =~= Seq::<Seq<u8>>::empty(),
{
    let chunks = Seq::<Seq<u8>>::empty();
    let (next, action) = step(s, Input::Exhausted);
    if s.pending.len() > 0 {
        assert(run(next, chunks) =~= Seq::<Seq<u8>>::empty());
        assert(run(s, chunks) =~= seq![s.pending]);
    }
}

/// A pull gives at most one line and loses none: the lines of what was
/// buffered, with the chunk that came in, are the line that the pull gave
/// followed by the lines of what it left buffered.
pub proof fn law_later_lines_stay(s: State, input: Input)
    requires
        s.phase is Active,
        input is Chunk || input is Exhausted,
    ensures
        emitted(step(s, input).1).len() <= 1,
        lines_of(
            match input {
                Input::Chunk(bytes) => s.pending + bytes,
                _ => s.pending,
            },
        ) == emitted(step(s, input).1) + lines_of(step(s, input).0.pending),
{
    let buf = match input {
        Input::Chunk(bytes) => s.pending + bytes,
        _ => s.pending,
    };
    lemma_lf_index(buf);
    assert(lines_of(buf) =~= emitted(step(s, input).1) + lines_of(step(s, input).0.pending));
}

/// The state after a series of pulls.
pub open spec fn after(s: State, inputs: Seq<Input>) -> State
    decreases inputs.len(),
{
    if inputs.len() == 0 {
        s
    } else {
        after(step(s, inputs[0]).0, inputs.drop_first())
    }
}

/// An error is final: once a splitter has failed, every pull reports the end
/// and leaves it as it is, whatever the source says.
pub proof fn law_failure_is_final(s: State, inputs: Seq<Input>)
    requires
        s.phase is Failed,
    ensures
        after(s, inputs) == s,
        forall|input: Input| step(s, input) == (s, Action::Finish),
    decreases inputs.len(),
{
    if inputs.len() > 0 {
        law_failure_is_final(s, inputs.drop_first());
    }
}

} // verus!
