//! Best-effort translation of `fs_usage` rows into auxiliary disk events.
//! Its heuristics are kept apart from the `iostat` translator and never
//! affect it.
use vstd::prelude::*;
use crate::disk::DiskEvent;
use crate::fields::{fields, field_bounds, decimal_milli, parse_decimal_milli};
use crate::framing::{complete_lines, feed_lines, pending_tail};
use crate::logline::{lossy_text_of, utf8_lossy};

verus! {

/// Bytes in a kilobyte.
pub const BYTES_PER_KB: u64 = 1024;

/// One operation per second, in thousandths.
pub const ONE_OP_MILLI: u64 = 1000;

/// The code of `c` with ASCII capitals mapped to small letters.
pub open spec fn ascii_lower(c: char) -> u32 {
    if 'A' <= c <= 'Z' { (c as u32 + 32) as u32 } else { c as u32 }
}

/// Equal up to ASCII letter case.
pub open spec fn eq_ignore_ascii_case_spec(a: Seq<char>, b: Seq<char>) -> bool {
    a.len() == b.len() && forall|i: int| 0 <= i < a.len() ==> ascii_lower(a[i]) == ascii_lower(b[i])
}

fn lower_ascii_code(c: char) -> (r: u32)
    ensures
        r == ascii_lower(c),
{
    if 'A' <= c && c <= 'Z' {
        c as u32 + 32
    } else {
        c as u32
    }
}

/// Whether `a` and `b` are equal up to ASCII letter case.
pub fn eq_ignore_ascii_case(a: &str, b: &str) -> (r: bool)
    ensures
        r == eq_ignore_ascii_case_spec(a@, b@),
{
    let n = a.unicode_len();
    if n != b.unicode_len() {
        return false;
    }
    let mut i: usize = 0;
    while i < n
        invariant
            n == a@.len(),
            n == b@.len(),
            0 <= i <= n,
            forall|k: int| 0 <= k < i ==> ascii_lower(a@[k]) == ascii_lower(b@[k]),
        decreases n - i,
    {
        if lower_ascii_code(a.get_char(i)) != lower_ascii_code(b.get_char(i)) {
            return false;
        }
        i = i + 1;
    }
    true
}

/// Whether some token is `word` up to ASCII letter case.
pub open spec fn mentions(tokens: Seq<Seq<char>>, word: Seq<char>) -> bool {
    exists|i: int| 0 <= i < tokens.len() && eq_ignore_ascii_case_spec(#[trigger] tokens[i], word)
}

/// The last token that starts with `/`.
pub open spec fn last_path(tokens: Seq<Seq<char>>) -> Option<Seq<char>>
    decreases tokens.len(),
{
    if tokens.len() == 0 {
        None
    } else if tokens.last().len() > 0 && tokens.last()[0] == '/' {
        Some(tokens.last())
    } else {
        last_path(tokens.drop_last())
    }
}

/// The value of the last token that is a decimal number, in thousandths; zero
/// if there is none.
pub open spec fn last_number(tokens: Seq<Seq<char>>) -> nat
    decreases tokens.len(),
{
    if tokens.len() == 0 {
        0
    } else if decimal_milli(tokens.last()) is Some {
        decimal_milli(tokens.last())->0
    } else {
        last_number(tokens.drop_last())
    }
}

/// What an `fs_usage` row gives: (path, read KB/s, write KB/s, read ops/s,
/// write ops/s), rates in thousandths. A row needs four tokens and a `read`
/// or `write` token; the byte count is the last number, the path the last
/// token starting with `/`. A row that mentions both splits the bytes evenly.
pub open spec fn fs_usage_values(line: Seq<char>) -> Option<(Option<Seq<char>>, nat, nat, nat, nat)> {
    let t = fields(line);
    let is_read = mentions(t, "read"@);
    let is_write = mentions(t, "write"@);
    if t.len() < 4 || (!is_read && !is_write) {
        None
    } else {
        let kb = last_number(t) / (BYTES_PER_KB as nat);
        Some(
            if is_read && !is_write {
                (last_path(t), kb, 0, ONE_OP_MILLI as nat, 0)
            } else if is_write && !is_read {
                (last_path(t), 0, kb, 0, ONE_OP_MILLI as nat)
            } else {
                (last_path(t), kb / 2, kb / 2, ONE_OP_MILLI as nat, ONE_OP_MILLI as nat)
            },
        )
    }
}

impl DiskEvent {
    /// The best-effort values of an `fs_usage` event.
    pub open spec fn fs_values(self) -> (Option<Seq<char>>, nat, nat, nat, nat) {
        (
            match self.filesystem_path {
                Some(p) => Some(p@),
                None => None,
            },
            self.read_kb_per_sec_milli as nat,
            self.write_kb_per_sec_milli as nat,
            self.read_ops_per_sec_milli as nat,
            self.write_ops_per_sec_milli as nat,
        )
    }

    /// Parses one `fs_usage` row, best effort: see `fs_usage_values`. The
    /// event's device name is `fs_usage`.
    pub fn from_fs_usage_line(line: &str, timestamp: i64) -> (r: Option<DiskEvent>)
        ensures
            r is Some <==> fs_usage_values(line@) is Some,
            r matches Some(e) ==> Some(e.fs_values()) == fs_usage_values(line@) && e.timestamp
                == timestamp && e.disk_name@ == "fs_usage"@,
    {
        let bounds = field_bounds(line);
        let ghost t = fields(line@);
        if bounds.len() < 4 {
            return None;
        }
        let mut is_read = false;
        let mut is_write = false;
        let mut path: Option<String> = None;
        let mut bytes: u64 = 0;
        let mut i: usize = 0;
        while i < bounds.len()
            invariant
                bounds@.len() == t.len(),
                forall|k: int| 0 <= k < bounds@.len() ==> #[trigger] bounds@[k].0 <= bounds@[k].1 && bounds@[k].1 <= line@.len(),
                forall|k: int|
                    0 <= k < bounds@.len() ==> line@.subrange(#[trigger] bounds@[k].0 as int, bounds@[k].1 as int) == t[k],
                0 <= i <= t.len(),
                is_read == mentions(t.subrange(0, i as int), "read"@),
                is_write == mentions(t.subrange(0, i as int), "write"@),
                last_path(t.subrange(0, i as int)) == match path {
                    Some(p) => Some(p@),
                    None => None::<Seq<char>>,
                },
                bytes == last_number(t.subrange(0, i as int)),
                bytes < 1_000_000_000_000_000,
            decreases t.len() - i,
        {
            let ghost prefix = t.subrange(0, i as int);
            let ghost next = t.subrange(0, i + 1);
            assert(next.drop_last() =~= prefix);
            assert(next.last() == t[i as int]);
            let token = line.substring_char(bounds[i].0, bounds[i].1);
            proof {
                reveal_strlit("read");
                reveal_strlit("write");
            }
            let r = eq_ignore_ascii_case(token, "read");
            let w = eq_ignore_ascii_case(token, "write");
            proof {
                if r {
                    assert(next[i as int] == t[i as int]);
                }
                assert(mentions(next, "read"@) == (mentions(prefix, "read"@) || r)) by {
                    if mentions(prefix, "read"@) {
                        let k = choose|k: int| 0 <= k < prefix.len() && eq_ignore_ascii_case_spec(#[trigger] prefix[k], "read"@);
                        assert(next[k] == prefix[k]);
                    }
                    if mentions(next, "read"@) && !r {
                        let k = choose|k: int| 0 <= k < next.len() && eq_ignore_ascii_case_spec(#[trigger] next[k], "read"@);
                        assert(k < i);
                        assert(prefix[k] == next[k]);
                    }
                }
                assert(mentions(next, "write"@) == (mentions(prefix, "write"@) || w)) by {
                    if mentions(prefix, "write"@) {
                        let k = choose|k: int| 0 <= k < prefix.len() && eq_ignore_ascii_case_spec(#[trigger] prefix[k], "write"@);
                        assert(next[k] == prefix[k]);
                    }
                    if mentions(next, "write"@) && !w {
                        let k = choose|k: int| 0 <= k < next.len() && eq_ignore_ascii_case_spec(#[trigger] next[k], "write"@);
                        assert(k < i);
                        assert(prefix[k] == next[k]);
                    }
                }
            }
            is_read = is_read || r;
            is_write = is_write || w;
            if token.unicode_len() > 0 && token.get_char(0) == '/' {
                path = Some(token.to_owned());
            }
            match parse_decimal_milli(token) {
                Some(v) => {
                    bytes = v;
                },
                None => {},
            }
            i = i + 1;
        }
        assert(t.subrange(0, t.len() as int) =~= t);
        if !is_read && !is_write {
            return None;
        }
        let kb = bytes / BYTES_PER_KB;
        let (read_kb, write_kb, read_ops, write_ops) = if is_read && !is_write {
            (kb, 0, ONE_OP_MILLI, 0)
        } else if is_write && !is_read {
            (0, kb, 0, ONE_OP_MILLI)
        } else {
            (kb / 2, kb / 2, ONE_OP_MILLI, ONE_OP_MILLI)
        };
        Some(
            DiskEvent {
                timestamp,
                read_kb_per_sec_milli: read_kb,
                write_kb_per_sec_milli: write_kb,
                read_ops_per_sec_milli: read_ops,
                write_ops_per_sec_milli: write_ops,
                disk_name: String::from_str("fs_usage"),
                filesystem_path: path,
            },
        )
    }
}

/// The events of a run of `fs_usage` rows, in row order; rows that give
/// nothing are skipped.
pub open spec fn fs_usage_events_of(records: Seq<Seq<u8>>) -> Seq<(Option<Seq<char>>, nat, nat, nat, nat)>
    decreases records.len(),
{
    if records.len() == 0 {
        Seq::empty()
    } else {
        fs_usage_events_of(records.drop_last()) + match fs_usage_values(lossy_text_of(records.last())) {
            Some(e) => seq![e],
            None => Seq::empty(),
        }
    }
}

/// Feeds a chunk of `fs_usage` output: frames complete rows and translates
/// them best effort; the unterminated tail stays in `buffer`.
pub fn feed_fs_usage_output(buffer: &mut Vec<u8>, chunk: &[u8], timestamp: i64) -> (events: Vec<DiskEvent>)
    ensures
        events@.map_values(|e: DiskEvent| e.fs_values()) == fs_usage_events_of(
            complete_lines(old(buffer)@ + chunk@),
        ),
        final(buffer)@ == pending_tail(old(buffer)@ + chunk@),
{
    let records = feed_lines(buffer, chunk);
    let ghost rs = records@.map_values(|r: Vec<u8>| r@);
    let mut events: Vec<DiskEvent> = Vec::new();
    let mut i: usize = 0;
    while i < records.len()
        invariant
            0 <= i <= records@.len(),
            rs == records@.map_values(|r: Vec<u8>| r@),
            events@.map_values(|e: DiskEvent| e.fs_values()) == fs_usage_events_of(
                rs.subrange(0, i as int),
            ),
        decreases records@.len() - i,
    {
        assert(rs.subrange(0, i + 1).drop_last() =~= rs.subrange(0, i as int));
        let text = utf8_lossy(records[i].as_slice());
        match DiskEvent::from_fs_usage_line(text.as_str(), timestamp) {
            Some(e) => {
                events.push(e);
            },
            None => {},
        }
        assert(events@.map_values(|e: DiskEvent| e.fs_values()) =~= fs_usage_events_of(
            rs.subrange(0, i + 1),
        ));
        i = i + 1;
    }
    assert(rs.subrange(0, records@.len() as int) =~= rs);
    events
}

} // verus!
