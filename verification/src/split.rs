//! The byte-level rules: where a line ends, what it holds, what stays buffered.

use vstd::prelude::*;

verus! {

/// The line feed that ends a line.
pub const LF: u8 = 10;

/// The carriage return that may stand before the line feed.
pub const CR: u8 = 13;

/// Position of the first line feed in `s`, or `s.len()` where it holds none.
pub open spec fn lf_index(s: Seq<u8>) -> nat
    decreases s.len(),
{
    if s.len() == 0 || s[0] == LF {
        0
    } else {
        1 + lf_index(s.drop_first())
    }
}

/// Whether `s` holds a line feed.
pub open spec fn has_lf(s: Seq<u8>) -> bool {
    lf_index(s) < s.len()
}

/// `s` without its last byte, where that byte is a carriage return.
pub open spec fn strip_cr(s: Seq<u8>) -> Seq<u8> {
    if s.len() > 0 && s.last() == CR {
        s.drop_last()
    } else {
        s
    }
}

/// Whether a line can be taken out of `buf`: it holds a line feed, or the
/// source is exhausted and something is left.
pub open spec fn line_ready(buf: Seq<u8>, flush: bool) -> bool {
    has_lf(buf) || (flush && buf.len() > 0)
}

/// The first line of `buf`: what stands before the first line feed, less a
/// carriage return right before it; all of `buf`, as it is, where it holds no
/// line feed.
pub open spec fn next_line(buf: Seq<u8>) -> Seq<u8> {
    if has_lf(buf) {
        strip_cr(buf.take(lf_index(buf) as int))
    } else {
        buf
    }
}

/// What stays buffered once the first line of `buf` is taken out.
pub open spec fn rest(buf: Seq<u8>) -> Seq<u8> {
    if has_lf(buf) {
        buf.skip(lf_index(buf) as int + 1)
    } else {
        Seq::empty()
    }
}

/// All the lines of `s`: it is cut at every line feed, a carriage return right
/// before a line feed goes with it, and an unterminated tail is a line of its
/// own, byte for byte, unless it is empty.
pub open spec fn lines_of(s: Seq<u8>) -> Seq<Seq<u8>>
    decreases s.len(),
{
    if s.len() == 0 {
        Seq::empty()
    } else {
        seq![next_line(s)] + lines_of(rest(s))
    }
}

/// `lf_index` is within bounds, no line feed stands before it, and one stands
/// at it unless it is the length.
pub proof fn lemma_lf_index(s: Seq<u8>)
    ensures
        lf_index(s) <= s.len(),
        forall|j: int| 0 <= j < lf_index(s) ==> s[j] != LF,
        has_lf(s) ==> s[lf_index(s) as int] == LF,
    decreases s.len(),
{
    if s.len() != 0 && s[0] != LF {
        let t = s.drop_first();
        lemma_lf_index(t);
        assert forall|j: int| 0 <= j < lf_index(s) implies s[j] != LF by {
            if j > 0 {
                assert(s[j] == t[j - 1]);
            }
        }
        if has_lf(s) {
            assert(s[lf_index(s) as int] == t[lf_index(t) as int]);
        }
    }
}

/// A position with no line feed before it, which holds one or is the length,
/// is `lf_index`.
pub proof fn lemma_lf_index_is(s: Seq<u8>, i: int)
    requires
        0 <= i <= s.len(),
        forall|j: int| 0 <= j < i ==> s[j] != LF,
        i < s.len() ==> s[i] == LF,
    ensures
        lf_index(s) == i,
    decreases s.len(),
{
    if s.len() != 0 && s[0] != LF {
        let t = s.drop_first();
        assert forall|j: int| 0 <= j < i - 1 implies t[j] != LF by {
            assert(t[j] == s[j + 1]);
        }
        if i < s.len() {
            assert(t[i - 1] == s[i]);
        }
        lemma_lf_index_is(t, i - 1);
    }
}

/// Bytes that arrive behind a buffer that already holds a line feed change
/// neither its first line nor where that line ends: they only follow the rest.
pub proof fn lemma_append_keeps_first_line(a: Seq<u8>, b: Seq<u8>)
    requires
        has_lf(a),
    ensures
        has_lf(a + b),
        lf_index(a + b) == lf_index(a),
        next_line(a + b) == next_line(a),
        rest(a + b) == rest(a) + b,
{
    lemma_lf_index(a);
    let i = lf_index(a) as int;
    lemma_lf_index_is(a + b, i);
    assert((a + b).take(i) =~= a.take(i));
    assert((a + b).skip(i + 1) =~= a.skip(i + 1) + b);
}

/// Finds the first line feed of `buf`.
pub fn find_lf(buf: &Vec<u8>) -> (i: usize)
    ensures
        i == lf_index(buf@),
        i <= buf.len(),
{
    let mut i: usize = 0;
    while i < buf.len() && buf[i] != LF
        invariant
            i <= buf.len(),
            forall|j: int| 0 <= j < i ==> buf@[j] != LF,
        decreases buf.len() - i,
    {
        i += 1;
    }
    proof {
        lemma_lf_index_is(buf@, i as int);
    }
    i
}

/// Takes the first line out of `buf`, if one is ready, and leaves the rest.
///
/// With a line feed in `buf` the line is what stands before it, less a
/// carriage return right before it, and `buf` keeps what follows it. Without
/// one, a non-empty `buf` is handed out whole when `flush` is set, and `buf` is
/// left empty; otherwise nothing is taken and `buf` is unchanged.
pub fn take_line(buf: &mut Vec<u8>, flush: bool) -> (line: Option<Vec<u8>>)
    ensures
        line_ready(old(buf)@, flush) ==> line is Some && line->Some_0@ == next_line(old(buf)@)
            && final(buf)@ == rest(old(buf)@),
        !line_ready(old(buf)@, flush) ==> line is None && final(buf)@ == old(buf)@,
{
    let i: usize = find_lf(buf);
    let found: bool = i < buf.len();
    if !found && !(flush && buf.len() > 0) {
        return None;
    }
    let mut line: Vec<u8> = if found {
        buf.split_off(i + 1)
    } else {
        Vec::new()
    };
    core::mem::swap(buf, &mut line);
    if found {
        line.pop();
        assert(line@ =~= old(buf)@.take(i as int));
        if line.len() > 0 && line[line.len() - 1] == CR {
            line.pop();
        }
    }
    assert(buf@ =~= rest(old(buf)@));
    Some(line)
}

} // verus!
