//! Framing of a stream of XML property-list documents, each starting with
//! the XML declaration.
use vstd::prelude::*;

verus! {

/// Whether `pat` occurs in `s` at position `i`.
pub open spec fn bytes_at(s: Seq<u8>, pat: Seq<u8>, i: int) -> bool {
    0 <= i && i + pat.len() <= s.len() && s.subrange(i, i + pat.len()) == pat
}

/// The first position at or after `from` where `pat` occurs, or -1.
pub open spec fn next_occurrence(s: Seq<u8>, pat: Seq<u8>, from: int) -> int
    decreases s.len() + 1 - from,
{
    if from < 0 || from + pat.len() > s.len() {
        -1
    } else if bytes_at(s, pat, from) {
        from
    } else {
        next_occurrence(s, pat, from + 1)
    }
}

/// Bytes treated as blank between documents.
pub open spec fn is_blank_byte(b: u8) -> bool {
    b == 32 || b == 9 || b == 10 || b == 13
}

pub open spec fn blank_bytes(s: Seq<u8>) -> bool {
    forall|i: int| 0 <= i < s.len() ==> is_blank_byte(s[i])
}

/// The declaration that starts every document.
pub open spec fn doc_marker() -> Seq<u8> {
    seq![60u8, 63, 120, 109, 108, 32, 118, 101, 114, 115, 105, 111, 110, 61, 34, 49, 46, 48, 34, 32, 101, 110, 99, 111, 100, 105, 110, 103, 61, 34, 85, 84, 70, 45, 56, 34, 63, 62]
}

/// The tag that closes a property list.
pub open spec fn doc_close() -> Seq<u8> {
    seq![60u8, 47, 112, 108, 105, 115, 116, 62]
}

/// Documents of `s` from `start` on, and the incomplete fragment left. A
/// segment runs from `start` to the next declaration; the last one runs to
/// the end and is complete only if it holds the closing tag. Blank segments
/// are dropped.
pub open spec fn xml_split(s: Seq<u8>, marker: Seq<u8>, close: Seq<u8>, start: int) -> (
    Seq<Seq<u8>>,
    Seq<u8>,
)
    decreases s.len() - start,
{
    if start < 0 || start > s.len() {
        (Seq::empty(), Seq::empty())
    } else {
        let e = next_occurrence(s, marker, start + 1);
        if start < e <= s.len() {
            let seg = s.subrange(start, e);
            let (rest, tail) = xml_split(s, marker, close, e);
            (if blank_bytes(seg) { rest } else { seq![seg] + rest }, tail)
        } else {
            let seg = s.subrange(start, s.len() as int);
            if next_occurrence(seg, close, 0) >= 0 {
                (seq![seg], Seq::empty())
            } else {
                (Seq::empty(), seg)
            }
        }
    }
}

/// The complete documents of `s`.
pub open spec fn complete_documents(s: Seq<u8>) -> Seq<Seq<u8>> {
    xml_split(s, doc_marker(), doc_close(), 0).0
}

/// The incomplete trailing fragment of `s`.
pub open spec fn pending_document(s: Seq<u8>) -> Seq<u8> {
    xml_split(s, doc_marker(), doc_close(), 0).1
}

proof fn lemma_next_occurrence_range(s: Seq<u8>, pat: Seq<u8>, from: int)
    ensures
        next_occurrence(s, pat, from) == -1 || (from <= next_occurrence(s, pat, from)
            && bytes_at(s, pat, next_occurrence(s, pat, from))),
    decreases s.len() + 1 - from,
{
    if !(from < 0 || from + pat.len() > s.len()) && !bytes_at(s, pat, from) {
        lemma_next_occurrence_range(s, pat, from + 1);
    }
}

/// Whether `pat` occurs in `s` at position `i`.
fn matches_at(s: &Vec<u8>, pat: &Vec<u8>, i: usize) -> (r: bool)
    ensures
        r == bytes_at(s@, pat@, i as int),
{
    if pat.len() > s.len() || i > s.len() - pat.len() {
        return false;
    }
    let slen = s.len();
    let mut j: usize = 0;
    while j < pat.len()
        invariant
            slen == s@.len(),
            i + pat@.len() <= s@.len(),
            0 <= j <= pat@.len(),
            forall|t: int| 0 <= t < j ==> s@[i + t] == pat@[t],
        decreases pat@.len() - j,
    {
        assert(i + j < s@.len());
        if s[i + j] != pat[j] {
            assert(s@.subrange(i as int, i + pat@.len())[j as int] == s@[i + j]);
            return false;
        }
        j = j + 1;
    }
    assert(s@.subrange(i as int, i + pat@.len()) =~= pat@);
    true
}

/// The first position at or after `from` where `pat` occurs.
fn find_from(s: &Vec<u8>, pat: &Vec<u8>, from: usize) -> (r: Option<usize>)
    ensures
        r matches Some(p) ==> next_occurrence(s@, pat@, from as int) == p as int,
        r is None ==> next_occurrence(s@, pat@, from as int) == -1,
{
    let mut i: usize = from;
    while i <= s.len() && pat.len() <= s.len() - i
        invariant
            from <= i,
            next_occurrence(s@, pat@, from as int) == next_occurrence(s@, pat@, i as int),
        decreases s@.len() + 1 - i,
    {
        if matches_at(s, pat, i) {
            return Some(i);
        }
        if pat.len() == 0 {
            assert(s@.subrange(i as int, i as int) =~= pat@);
        }
        i = i + 1;
    }
    None
}

fn copy_range(s: &Vec<u8>, lo: usize, hi: usize) -> (r: Vec<u8>)
    requires
        lo <= hi <= s@.len(),
    ensures
        r@ == s@.subrange(lo as int, hi as int),
{
    let mut r: Vec<u8> = Vec::new();
    let mut k: usize = lo;
    while k < hi
        invariant
            lo <= k <= hi <= s@.len(),
            r@ == s@.subrange(lo as int, k as int),
        decreases hi - k,
    {
        r.push(s[k]);
        assert(s@.subrange(lo as int, k + 1) =~= s@.subrange(lo as int, k as int).push(s@[k as int]));
        k = k + 1;
    }
    r
}

fn is_blank_segment(s: &Vec<u8>) -> (r: bool)
    ensures
        r == blank_bytes(s@),
{
    let mut i: usize = 0;
    while i < s.len()
        invariant
            0 <= i <= s@.len(),
            forall|k: int| 0 <= k < i ==> is_blank_byte(s@[k]),
        decreases s@.len() - i,
    {
        let b = s[i];
        if !(b == 32 || b == 9 || b == 10 || b == 13) {
            return false;
        }
        i = i + 1;
    }
    true
}

/// Splits a buffer into complete documents and the incomplete fragment,
/// with the given declaration and closing tag.
pub fn split_documents(s: &Vec<u8>, marker: &Vec<u8>, close: &Vec<u8>) -> (r: (Vec<Vec<u8>>, Vec<u8>))
    requires
        marker@.len() > 0,
    ensures
        r.0@.map_values(|d: Vec<u8>| d@) == xml_split(s@, marker@, close@, 0).0,
        r.1@ == xml_split(s@, marker@, close@, 0).1,
{
    let mut docs: Vec<Vec<u8>> = Vec::new();
    let mut start: usize = 0;
    loop
        invariant
            0 <= start <= s@.len(),
            docs@.map_values(|d: Vec<u8>| d@) + xml_split(s@, marker@, close@, start as int).0
                == xml_split(s@, marker@, close@, 0).0,
            xml_split(s@, marker@, close@, start as int).1 == xml_split(s@, marker@, close@, 0).1,
        decreases s@.len() - start,
    {
        let ghost before = docs@.map_values(|d: Vec<u8>| d@);
        proof {
            lemma_next_occurrence_range(s@, marker@, start + 1);
        }
        match if start < s.len() { find_from(s, marker, start + 1) } else { None } {
            Some(e) => {
                let seg = copy_range(s, start, e);
                let ghost rest = xml_split(s@, marker@, close@, e as int).0;
                if !is_blank_segment(&seg) {
                    docs.push(seg);
                    assert(docs@.map_values(|d: Vec<u8>| d@) =~= before.push(
                        s@.subrange(start as int, e as int),
                    ));
                    assert(before.push(s@.subrange(start as int, e as int)) + rest =~= before + (
                    seq![s@.subrange(start as int, e as int)] + rest));
                }
                start = e;
            },
            None => {
                proof {
                    if start >= s@.len() {
                        assert(next_occurrence(s@, marker@, start + 1) == -1);
                    }
                }
                let seg = copy_range(s, start, s.len());
                let closed = find_from(&seg, close, 0);
                if closed.is_some() {
                    docs.push(seg);
                    assert(docs@.map_values(|d: Vec<u8>| d@) =~= before + seq![
                        s@.subrange(start as int, s@.len() as int),
                    ]);
                    return (docs, Vec::new());
                } else {
                    assert(before + Seq::<Seq<u8>>::empty() =~= before);
                    return (docs, seg);
                }
            },
        }
    }
}

/// The document declaration as bytes.
pub fn doc_marker_bytes() -> (r: Vec<u8>)
    ensures
        r@ == doc_marker(),
{
    let r: Vec<u8> = vec![60, 63, 120, 109, 108, 32, 118, 101, 114, 115, 105, 111, 110, 61, 34, 49, 46, 48, 34, 32, 101, 110, 99, 111, 100, 105, 110, 103, 61, 34, 85, 84, 70, 45, 56, 34, 63, 62];
    assert(r@ =~= doc_marker());
    r
}

/// The closing tag as bytes.
pub fn doc_close_bytes() -> (r: Vec<u8>)
    ensures
        r@ == doc_close(),
{
    let r: Vec<u8> = vec![60, 47, 112, 108, 105, 115, 116, 62];
    assert(r@ =~= doc_close());
    r
}

/// Appends `chunk` to `buffer` and removes every complete document from it,
/// returning them in order; an incomplete trailing document stays in
/// `buffer`, starting with its declaration.
pub fn feed_documents(buffer: &mut Vec<u8>, chunk: &[u8]) -> (docs: Vec<Vec<u8>>)
    ensures
        docs@.map_values(|d: Vec<u8>| d@) == complete_documents(old(buffer)@ + chunk@),
        final(buffer)@ == pending_document(old(buffer)@ + chunk@),
{
    let mut j: usize = 0;
    while j < chunk.len()
        invariant
            0 <= j <= chunk@.len(),
            buffer@ == old(buffer)@ + chunk@.subrange(0, j as int),
        decreases chunk@.len() - j,
    {
        buffer.push(chunk[j]);
        assert(old(buffer)@ + chunk@.subrange(0, j + 1) =~= (old(buffer)@ + chunk@.subrange(0, j as int)).push(chunk@[j as int]));
        j = j + 1;
    }
    assert(chunk@.subrange(0, chunk@.len() as int) =~= chunk@);
    let marker = doc_marker_bytes();
    let close = doc_close_bytes();
    assert(marker@.len() > 0);
    let (docs, rest) = split_documents(buffer, &marker, &close);
    *buffer = rest;
    docs
}

} // verus!
