//! Splitting a growing byte buffer into complete records while keeping an
//! incomplete trailing fragment byte for byte.
use vstd::prelude::*;

verus! {

/// The line terminator of line-framed output.
pub const NEWLINE: u8 = 10;

/// Complete lines of `s` (terminators removed, in order) and the bytes after
/// the last terminator, read from left to right.
pub open spec fn line_split(s: Seq<u8>) -> (Seq<Seq<u8>>, Seq<u8>)
    decreases s.len(),
{
    if s.len() == 0 {
        (Seq::empty(), Seq::empty())
    } else {
        let (lines, pending) = line_split(s.drop_last());
        if s.last() == NEWLINE {
            (lines.push(pending), Seq::empty())
        } else {
            (lines, pending.push(s.last()))
        }
    }
}

/// The complete lines of `s`.
pub open spec fn complete_lines(s: Seq<u8>) -> Seq<Seq<u8>> {
    line_split(s).0
}

/// The unterminated tail of `s`.
pub open spec fn pending_tail(s: Seq<u8>) -> Seq<u8> {
    line_split(s).1
}

pub open spec fn has_no_newline(s: Seq<u8>) -> bool {
    forall|i: int| 0 <= i < s.len() ==> s[i] != NEWLINE
}

/// The pending tail is the suffix after the last terminator, so it never
/// holds a terminator itself.
pub proof fn lemma_pending_has_no_newline(s: Seq<u8>)
    ensures
        has_no_newline(pending_tail(s)),
        pending_tail(s).len() <= s.len(),
        pending_tail(s) =~= s.subrange(s.len() - pending_tail(s).len(), s.len() as int),
    decreases s.len(),
{
    if s.len() > 0 {
        lemma_pending_has_no_newline(s.drop_last());
    }
}

/// Bytes without a terminator add nothing but pending bytes.
pub proof fn lemma_no_newline_split(s: Seq<u8>)
    requires
        has_no_newline(s),
    ensures
        complete_lines(s) == Seq::<Seq<u8>>::empty(),
        pending_tail(s) == s,
    decreases s.len(),
{
    if s.len() > 0 {
        lemma_no_newline_split(s.drop_last());
        assert(s.drop_last().push(s.last()) =~= s);
    }
}

/// Splitting `a + b` is splitting `a`, then splitting what `a` left pending
/// followed by `b`.
pub proof fn lemma_split_concat(a: Seq<u8>, b: Seq<u8>)
    ensures
        complete_lines(a + b) == complete_lines(a) + complete_lines(pending_tail(a) + b),
        pending_tail(a + b) == pending_tail(pending_tail(a) + b),
    decreases b.len(),
{
    let p = pending_tail(a);
    if b.len() == 0 {
        assert(a + b =~= a);
        assert(p + b =~= p);
        lemma_pending_has_no_newline(a);
        lemma_no_newline_split(p);
        assert(complete_lines(a) + Seq::<Seq<u8>>::empty() =~= complete_lines(a));
    } else {
        let b0 = b.drop_last();
        lemma_split_concat(a, b0);
        assert((a + b).drop_last() =~= a + b0);
        assert((p + b).drop_last() =~= p + b0);
        assert((a + b).last() == b.last());
        assert((p + b).last() == b.last());
        if b.last() == NEWLINE {
            assert(complete_lines(a + b) =~= complete_lines(a) + complete_lines(p + b));
        }
    }
}

/// The chunks of a stream, joined in order.
pub open spec fn joined(chunks: Seq<Seq<u8>>) -> Seq<u8>
    decreases chunks.len(),
{
    if chunks.len() == 0 {
        Seq::empty()
    } else {
        chunks[0] + joined(chunks.drop_first())
    }
}

/// What successive calls of `feed_lines` produce, starting from `buffer` and
/// handing over `chunks` one at a time: all records in order, and the buffer
/// left at the end.
pub open spec fn feed_lines_each(buffer: Seq<u8>, chunks: Seq<Seq<u8>>) -> (Seq<Seq<u8>>, Seq<u8>)
    decreases chunks.len(),
{
    if chunks.len() == 0 {
        (Seq::empty(), buffer)
    } else {
        let s = buffer + chunks[0];
        let (more, left) = feed_lines_each(pending_tail(s), chunks.drop_first());
        (complete_lines(s) + more, left)
    }
}

/// However a stream is cut into chunks, feeding the chunks one after another
/// yields exactly the records (and leaves exactly the buffer) that feeding
/// the whole stream at once does: nothing is lost or duplicated at a cut,
/// even one inside a record. `buffer` is one that framing left, so it holds
/// no terminator.
pub proof fn lemma_chunking_is_invisible(buffer: Seq<u8>, chunks: Seq<Seq<u8>>)
    requires
        has_no_newline(buffer),
    ensures
        feed_lines_each(buffer, chunks).0 == complete_lines(buffer + joined(chunks)),
        feed_lines_each(buffer, chunks).1 == pending_tail(buffer + joined(chunks)),
    decreases chunks.len(),
{
    if chunks.len() == 0 {
        assert(buffer + joined(chunks) =~= buffer);
        lemma_no_newline_split(buffer);
    } else {
        let s = buffer + chunks[0];
        let rest = chunks.drop_first();
        lemma_pending_has_no_newline(s);
        lemma_chunking_is_invisible(pending_tail(s), rest);
        lemma_split_concat(s, joined(rest));
        assert(buffer + joined(chunks) =~= s + joined(rest));
    }
}

/// Appends `chunk` to `buffer`, removes every complete line from its front and
/// returns those lines in order; the unterminated tail stays in `buffer`
/// exactly as it was received.
pub fn feed_lines(buffer: &mut Vec<u8>, chunk: &[u8]) -> (records: Vec<Vec<u8>>)
    ensures
        records@.map_values(|r: Vec<u8>| r@) == complete_lines(old(buffer)@ + chunk@),
        final(buffer)@ == pending_tail(old(buffer)@ + chunk@),
        has_no_newline(final(buffer)@),
{
    let ghost s = old(buffer)@ + chunk@;
    let mut all: Vec<u8> = Vec::new();
    let mut k: usize = 0;
    while k < buffer.len()
        invariant
            0 <= k <= buffer@.len(),
            buffer@ == old(buffer)@,
            all@ =~= buffer@.subrange(0, k as int),
        decreases buffer@.len() - k,
    {
        all.push(buffer[k]);
        k = k + 1;
    }
    let mut j: usize = 0;
    while j < chunk.len()
        invariant
            0 <= j <= chunk@.len(),
            all@ =~= old(buffer)@ + chunk@.subrange(0, j as int),
        decreases chunk@.len() - j,
    {
        all.push(chunk[j]);
        j = j + 1;
    }
    assert(all@ =~= s);
    let mut records: Vec<Vec<u8>> = Vec::new();
    let mut line: Vec<u8> = Vec::new();
    let mut i: usize = 0;
    while i < all.len()
        invariant
            all@ == s,
            0 <= i <= s.len(),
            records@.map_values(|r: Vec<u8>| r@) == complete_lines(s.subrange(0, i as int)),
            line@ == pending_tail(s.subrange(0, i as int)),
        decreases s.len() - i,
    {
        let b = all[i];
        assert(s.subrange(0, i + 1).drop_last() =~= s.subrange(0, i as int));
        if b == NEWLINE {
            let done = line;
            line = Vec::new();
            records.push(done);
        } else {
            line.push(b);
        }
        assert(records@.map_values(|r: Vec<u8>| r@) =~= complete_lines(s.subrange(0, i + 1)));
        i = i + 1;
    }
    assert(s.subrange(0, s.len() as int) =~= s);
    proof {
        lemma_pending_has_no_newline(s);
    }
    *buffer = line;
    records
}

} // verus!
