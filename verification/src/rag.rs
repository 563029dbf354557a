//! Retrieval support: splitting text into overlapping chunks for embedding,
//! and the messages of the retrieval commands.

use vstd::prelude::*;
use crate::text::{chars_of, string_of_range, trim_bounds, trim_spec, views};

verus! {

/// The width of a chunk: `max_chars`, but at least one character.
pub open spec fn chunk_width(max_chars: usize) -> int {
    if max_chars == 0 {
        1
    } else {
        max_chars as int
    }
}

/// How far each chunk starts after the previous one: the width less the
/// overlap, or the whole width when the overlap is not smaller than it.
pub open spec fn chunk_step(max_chars: usize, overlap: usize) -> int {
    if (overlap as int) < chunk_width(max_chars) {
        chunk_width(max_chars) - overlap
    } else {
        chunk_width(max_chars)
    }
}

/// The overlap actually kept between neighbouring chunks.
pub open spec fn chunk_overlap(max_chars: usize, overlap: usize) -> int {
    chunk_width(max_chars) - chunk_step(max_chars, overlap)
}

/// The windows of `t` of `width` characters starting at `start`, `start +
/// step`, ...; the last one ends where `t` ends.
pub open spec fn windows_from(t: Seq<char>, start: int, width: int, step: int) -> Seq<Seq<char>>
    decreases t.len() - start,
    when 0 < step <= width
{
    if start >= t.len() {
        seq![]
    } else if start + width >= t.len() {
        seq![t.subrange(start, t.len() as int)]
    } else {
        seq![t.subrange(start, start + width)] + windows_from(t, start + step, width, step)
    }
}

/// The chunks of `text`: windows of the trimmed text, each `max_chars`
/// characters wide (the last may be shorter), neighbours sharing `overlap`
/// characters. A blank text has no chunk; a text that fits in one chunk is
/// that one chunk.
pub open spec fn chunks_spec(text: Seq<char>, max_chars: usize, overlap: usize) -> Seq<Seq<char>> {
    windows_from(
        trim_spec(text),
        0,
        chunk_width(max_chars),
        chunk_step(max_chars, overlap),
    )
}

/// Splits `text` into overlapping chunks of at most `max_chars` characters
/// (a `max_chars` of 0 counts as 1; an overlap that is not smaller than the
/// chunk width counts as none).
pub fn chunk_text(text: &str, max_chars: usize, overlap: usize) -> (r: Vec<String>)
    ensures
        views(r@) == chunks_spec(text@, max_chars, overlap),
        trim_spec(text@).len() == 0 ==> r.len() == 0,
        0 < trim_spec(text@).len() <= chunk_width(max_chars) ==> r.len() == 1 && r@[0]@
            == trim_spec(text@),
{
    let cs = chars_of(text);
    let (lo, hi) = trim_bounds(&cs);
    let width: usize = if max_chars == 0 {
        1
    } else {
        max_chars
    };
    let step: usize = if overlap < width {
        width - overlap
    } else {
        width
    };
    let n = hi - lo;
    let ghost t = cs@.subrange(lo as int, hi as int);
    let mut out: Vec<String> = Vec::new();
    let mut start: usize = 0;
    assert(views(out@) =~= Seq::<Seq<char>>::empty());
    while start < n
        invariant
            lo <= hi <= cs.len(),
            n == hi - lo,
            t == cs@.subrange(lo as int, hi as int),
            width == chunk_width(max_chars),
            step == chunk_step(max_chars, overlap),
            0 < step <= width,
            start <= n,
            views(out@) + windows_from(t, start as int, width as int, step as int) == windows_from(
                t,
                0,
                width as int,
                step as int,
            ),
        decreases n - start,
    {
        let end: usize = if width >= n - start {
            n
        } else {
            start + width
        };
        let piece = string_of_range(&cs, lo + start, lo + end);
        assert(piece@ =~= t.subrange(start as int, end as int));
        let ghost before = views(out@);
        out.push(piece);
        assert(views(out@) =~= before.push(piece@));
        if end >= n {
            assert(windows_from(t, n as int, width as int, step as int) =~= Seq::<Seq<char>>::empty());
            assert(views(out@) + windows_from(t, n as int, width as int, step as int) =~= before
                + windows_from(t, start as int, width as int, step as int));
            start = n;
        } else {
            assert(views(out@) + windows_from(t, (start + step) as int, width as int, step as int)
                =~= before + windows_from(t, start as int, width as int, step as int));
            start = start + step;
        }
    }
    assert(windows_from(t, start as int, width as int, step as int) =~= Seq::<Seq<char>>::empty());
    assert(views(out@) =~= windows_from(t, 0, width as int, step as int));
    assert(t == trim_spec(text@));
    assert(t.subrange(0, t.len() as int) =~= t);
    proof {
        assert(views(out@).len() == out@.len());
        if 0 < n && n <= width {
            assert(windows_from(t, 0, width as int, step as int) == seq![t.subrange(0, n as int)]);
            assert(views(out@)[0] == out@[0]@);
        }
    }
    out
}

// ---------------------------------------------------------------------------
// Laws
// ---------------------------------------------------------------------------

/// The chunks laid end to end with the shared characters counted once.
pub open spec fn rejoin(cs: Seq<Seq<char>>, overlap: int) -> Seq<char> {
    if cs.len() == 0 {
        seq![]
    } else {
        cs[0] + join_tails(cs.drop_first(), overlap)
    }
}

/// Each chunk without the `overlap` characters it shares with the one
/// before, laid end to end.
pub open spec fn join_tails(cs: Seq<Seq<char>>, overlap: int) -> Seq<char>
    decreases cs.len(),
{
    if cs.len() == 0 {
        seq![]
    } else {
        cs[0].skip(overlap) + join_tails(cs.drop_first(), overlap)
    }
}

proof fn lemma_tails(t: Seq<char>, start: int, width: int, step: int)
    requires
        0 <= start,
        0 < step <= width,
        start + width < t.len(),
    ensures
        join_tails(windows_from(t, start + step, width, step), width - step) == t.subrange(
            start + width,
            t.len() as int,
        ),
    decreases t.len() - start,
{
    let next = start + step;
    let w = windows_from(t, next, width, step);
    if next + width >= t.len() {
        assert(w == seq![t.subrange(next, t.len() as int)]);
        assert(w.drop_first() =~= Seq::<Seq<char>>::empty());
        assert(join_tails(w.drop_first(), width - step) =~= Seq::<char>::empty());
        assert(t.subrange(next, t.len() as int).skip(width - step) =~= t.subrange(
            start + width,
            t.len() as int,
        ));
        assert(join_tails(w, width - step) =~= t.subrange(start + width, t.len() as int));
    } else {
        lemma_tails(t, next, width, step);
        let rest = windows_from(t, next + step, width, step);
        assert(w == seq![t.subrange(next, next + width)] + rest);
        assert(w.drop_first() =~= rest);
        assert(t.subrange(next, next + width).skip(width - step) =~= t.subrange(
            start + width,
            next + width,
        ));
        assert(join_tails(w, width - step) =~= t.subrange(start + width, t.len() as int));
    }
}

proof fn lemma_window_sizes(t: Seq<char>, start: int, width: int, step: int)
    requires
        0 <= start,
        0 < step <= width,
    ensures
        forall|i: int|
            0 <= i < windows_from(t, start, width, step).len() ==> 0 < (#[trigger] windows_from(
                t,
                start,
                width,
                step,
            )[i]).len() <= width,
    decreases t.len() - start,
{
    if start < t.len() && start + width < t.len() {
        lemma_window_sizes(t, start + step, width, step);
        let rest = windows_from(t, start + step, width, step);
        assert forall|i: int|
            0 <= i < windows_from(t, start, width, step).len() implies 0 < (
            #[trigger] windows_from(t, start, width, step)[i]).len() <= width by {
            if i > 0 {
                assert(windows_from(t, start, width, step)[i] == rest[i - 1]);
            }
        }
    }
}

/// Every chunk holds at least one and at most `max_chars` characters (one
/// when `max_chars` is 0).
pub proof fn law_chunk_bounds(text: Seq<char>, max_chars: usize, overlap: usize)
    ensures
        forall|i: int|
            0 <= i < chunks_spec(text, max_chars, overlap).len() ==> 0 < (
            #[trigger] chunks_spec(text, max_chars, overlap)[i]).len() <= chunk_width(max_chars),
{
    lemma_window_sizes(
        trim_spec(text),
        0,
        chunk_width(max_chars),
        chunk_step(max_chars, overlap),
    );
}

/// Chunking loses nothing: the chunks, with the characters each shares with
/// the one before counted once, spell out the trimmed text.
pub proof fn law_chunks_rejoin(text: Seq<char>, max_chars: usize, overlap: usize)
    ensures
        rejoin(chunks_spec(text, max_chars, overlap), chunk_overlap(max_chars, overlap))
            == trim_spec(text),
{
    let t = trim_spec(text);
    let w = chunk_width(max_chars);
    let s = chunk_step(max_chars, overlap);
    let cs = chunks_spec(text, max_chars, overlap);
    if t.len() == 0 {
        assert(cs =~= Seq::<Seq<char>>::empty());
        assert(t =~= Seq::<char>::empty());
    } else if w >= t.len() {
        assert(cs == seq![t.subrange(0, t.len() as int)]);
        assert(cs.drop_first() =~= Seq::<Seq<char>>::empty());
        assert(t.subrange(0, t.len() as int) =~= t);
        assert(rejoin(cs, w - s) =~= t);
    } else {
        lemma_tails(t, 0, w, s);
        assert(cs == seq![t.subrange(0, w)] + windows_from(t, s, w, s));
        assert(cs.drop_first() =~= windows_from(t, s, w, s));
        assert(t.subrange(0, w) + t.subrange(w, t.len() as int) =~= t);
    }
}

/// Neighbouring chunks share exactly the kept overlap: each chunk after the
/// first begins with the last characters of the one before.
pub proof fn law_chunks_overlap(text: Seq<char>, max_chars: usize, overlap: usize)
    ensures
        forall|i: int|
            0 <= i < chunks_spec(text, max_chars, overlap).len() - 1 ==> (
            #[trigger] chunks_spec(text, max_chars, overlap)[i]).skip(
                chunk_step(max_chars, overlap),
            ) == chunks_spec(text, max_chars, overlap)[i + 1].take(
                chunk_overlap(max_chars, overlap),
            ),
{
    lemma_overlaps(
        trim_spec(text),
        0,
        chunk_width(max_chars),
        chunk_step(max_chars, overlap),
    );
}

proof fn lemma_overlaps(t: Seq<char>, start: int, width: int, step: int)
    requires
        0 <= start,
        0 < step <= width,
    ensures
        forall|i: int|
            0 <= i < windows_from(t, start, width, step).len() - 1 ==> (
            #[trigger] windows_from(t, start, width, step)[i]).skip(step) == windows_from(
                t,
                start,
                width,
                step,
            )[i + 1].take(width - step),
    decreases t.len() - start,
{
    if start < t.len() && start + width < t.len() {
        lemma_overlaps(t, start + step, width, step);
        let ws = windows_from(t, start, width, step);
        let rest = windows_from(t, start + step, width, step);
        assert(ws == seq![t.subrange(start, start + width)] + rest);
        assert forall|i: int| 0 <= i < ws.len() - 1 implies (#[trigger] ws[i]).skip(step) == ws[i
            + 1].take(width - step) by {
            if i == 0 {
                let next = start + step;
                let r0 = if next + width >= t.len() {
                    t.subrange(next, t.len() as int)
                } else {
                    t.subrange(next, next + width)
                };
                assert(rest[0] == r0);
                assert(t.subrange(start, start + width).skip(step) =~= r0.take(width - step));
            } else {
                assert(ws[i] == rest[i - 1]);
                assert(ws[i + 1] == rest[i]);
            }
        }
    }
}

// ---------------------------------------------------------------------------
// Commands not backed by an index in this implementation
// ---------------------------------------------------------------------------

/// The message a document-grounded `--ask` prints: grounding needs parsing
/// and retrieval, which are not wired up.
pub fn ask_message() -> (r: String)
    ensures
        r@ == "genie (rust): document-grounded --ask (--doc/--txt/--dir) not yet implemented."@,
{
    "genie (rust): document-grounded --ask (--doc/--txt/--dir) not yet implemented.".to_owned()
}

/// The message the `cache` subcommand prints for `action`.
pub fn cache_message(action: &str) -> (r: String)
    ensures
        r@ == "genie (rust): cache "@ + action@ + " not yet implemented."@,
{
    let mut r = "genie (rust): cache ".to_owned();
    r.append(action);
    r.append(" not yet implemented.");
    r
}

} // verus!
