//! Disk statistics rows translated into disk events.
use vstd::prelude::*;
use crate::fields::{fields, field_bounds, decimal_milli, parse_decimal_milli};
use crate::framing::{complete_lines, feed_lines, pending_tail};
use crate::logline::{lossy_text_of, utf8_lossy};
use crate::text::{is_blank, str_is_blank};

verus! {

/// Kilobytes in a megabyte, as the statistics tool counts them.
pub const KB_PER_MB: u64 = 1024;

/// Disk I/O activity of one device. Rates are in thousandths of their unit
/// (`read_kb_per_sec_milli == 1_536_000` is 1536.0 KB/s); `timestamp` is in
/// milliseconds since the Unix epoch.
#[derive(Clone, Debug, PartialEq, Eq)]
pub struct DiskEvent {
    pub timestamp: i64,
    pub read_kb_per_sec_milli: u64,
    pub write_kb_per_sec_milli: u64,
    pub read_ops_per_sec_milli: u64,
    pub write_ops_per_sec_milli: u64,
    pub disk_name: String,
    pub filesystem_path: Option<String>,
}

/// The numbers of a statistics row: device name, KB per transfer, transfers
/// per second, MB/s read and MB/s written, the numbers in thousandths.
pub open spec fn iostat_values(line: Seq<char>) -> Option<(Seq<char>, nat, nat, nat, nat)> {
    let f = fields(line);
    if f.len() >= 5 && decimal_milli(f[1]) is Some && decimal_milli(f[2]) is Some
        && decimal_milli(f[3]) is Some && decimal_milli(f[4]) is Some {
        Some(
            (
                f[0],
                decimal_milli(f[1])->0,
                decimal_milli(f[2])->0,
                decimal_milli(f[3])->0,
                decimal_milli(f[4])->0,
            ),
        )
    } else {
        None
    }
}

/// Read operations per second: the transfers apportioned by the share of
/// bytes read, or half of them when nothing moved.
pub open spec fn read_ops_share(tps: nat, read_kb: nat, write_kb: nat) -> nat {
    if read_kb + write_kb > 0 {
        tps * read_kb / (read_kb + write_kb)
    } else {
        tps / 2
    }
}

/// The event that a statistics row describes, if the row is one.
pub open spec fn disk_event_of(line: Seq<char>, timestamp: i64) -> Option<
    (Seq<char>, nat, nat, nat, nat),
> {
    match iostat_values(line) {
        Some((name, _kb_per_transfer, tps, read_mb, write_mb)) => {
            let read_kb = read_mb * (KB_PER_MB as nat);
            let write_kb = write_mb * (KB_PER_MB as nat);
            let read_ops = read_ops_share(tps, read_kb, write_kb);
            Some((name, read_kb, write_kb, read_ops, (tps - read_ops) as nat))
        },
        None => None,
    }
}

impl DiskEvent {
    /// The row's values as (name, read KB/s, write KB/s, read ops/s,
    /// write ops/s), all in thousandths.
    pub open spec fn values(self) -> (Seq<char>, nat, nat, nat, nat) {
        (
            self.disk_name@,
            self.read_kb_per_sec_milli as nat,
            self.write_kb_per_sec_milli as nat,
            self.read_ops_per_sec_milli as nat,
            self.write_ops_per_sec_milli as nat,
        )
    }

    /// Parses one `iostat` row: device, KB/t, tps, MB/s read, MB/s written.
    /// Rates in MB/s become KB/s, and the transfers are split between reads
    /// and writes by the share of bytes read, since the tool does not
    /// separate them. Rows with fewer than five fields or a field that is not
    /// an unsigned decimal number are rejected.
    pub fn from_iostat_line(line: &str, timestamp: i64) -> (r: Result<DiskEvent, String>)
        ensures
            r is Ok <==> disk_event_of(line@, timestamp) is Some,
            r matches Ok(e) ==> Some(e.values()) == disk_event_of(line@, timestamp)
                && e.timestamp == timestamp && e.filesystem_path is None,
    {
        let bounds = field_bounds(line);
        if bounds.len() < 5 {
            return Err(String::from_str("Invalid iostat line format"));
        }
        let ghost f = fields(line@);
        let name = line.substring_char(bounds[0].0, bounds[0].1);
        let _kb_per_transfer = match parse_decimal_milli(line.substring_char(bounds[1].0, bounds[1].1)) {
            Some(v) => v,
            None => {
                return Err(String::from_str("Failed to parse KB/t"));
            },
        };
        let tps = match parse_decimal_milli(line.substring_char(bounds[2].0, bounds[2].1)) {
            Some(v) => v,
            None => {
                return Err(String::from_str("Failed to parse tps"));
            },
        };
        let read_mb = match parse_decimal_milli(line.substring_char(bounds[3].0, bounds[3].1)) {
            Some(v) => v,
            None => {
                return Err(String::from_str("Failed to parse read MB/s"));
            },
        };
        let write_mb = match parse_decimal_milli(line.substring_char(bounds[4].0, bounds[4].1)) {
            Some(v) => v,
            None => {
                return Err(String::from_str("Failed to parse write MB/s"));
            },
        };
        let read_kb = read_mb * KB_PER_MB;
        let write_kb = write_mb * KB_PER_MB;
        let total = read_kb + write_kb;
        let read_ops: u64 = if total > 0 {
            assert((tps as nat) * (read_kb as nat) < 0x1_0000_0000_0000_0000_0000_0000_0000_0000)
                by (nonlinear_arith)
                requires
                    tps < 1_000_000_000_000_000,
                    read_kb < 1_024_000_000_000_000_000,
            ;
            let wide = (tps as u128) * (read_kb as u128) / (total as u128);
            proof {
                lemma_share_le(tps as nat, read_kb as nat, total as nat);
            }
            wide as u64
        } else {
            tps / 2
        };
        Ok(
            DiskEvent {
                timestamp,
                read_kb_per_sec_milli: read_kb,
                write_kb_per_sec_milli: write_kb,
                read_ops_per_sec_milli: read_ops,
                write_ops_per_sec_milli: tps - read_ops,
                disk_name: name.to_owned(),
                filesystem_path: None,
            },
        )
    }
}

/// What one framed row becomes: nothing for a blank or malformed row, else
/// its event's values.
pub open spec fn disk_record_event(record: Seq<u8>, timestamp: i64) -> Option<
    (Seq<char>, nat, nat, nat, nat),
> {
    let text = lossy_text_of(record);
    if is_blank(text) {
        None
    } else {
        disk_event_of(text, timestamp)
    }
}

/// The events of a run of rows, in row order; rows that do not parse (such
/// as the tool's headers) are skipped.
pub open spec fn disk_events_of(records: Seq<Seq<u8>>, timestamp: i64) -> Seq<
    (Seq<char>, nat, nat, nat, nat),
>
    decreases records.len(),
{
    if records.len() == 0 {
        Seq::empty()
    } else {
        disk_events_of(records.drop_last(), timestamp) + match disk_record_event(
            records.last(),
            timestamp,
        ) {
            Some(e) => seq![e],
            None => Seq::empty(),
        }
    }
}

/// Feeds a chunk of `iostat` output: frames complete rows and parses them,
/// stamping each event with `timestamp`; the unterminated tail stays in
/// `buffer`.
pub fn feed_disk_output(buffer: &mut Vec<u8>, chunk: &[u8], timestamp: i64) -> (events: Vec<DiskEvent>)
    ensures
        events@.map_values(|e: DiskEvent| e.values()) == disk_events_of(
            complete_lines(old(buffer)@ + chunk@),
            timestamp,
        ),
        forall|k: int| 0 <= k < events@.len() ==> (#[trigger] events@[k]).timestamp == timestamp,
        final(buffer)@ == pending_tail(old(buffer)@ + chunk@),
{
    let records = feed_lines(buffer, chunk);
    let ghost rs = records@.map_values(|r: Vec<u8>| r@);
    let mut events: Vec<DiskEvent> = Vec::new();
    let mut i: usize = 0;
    while i < records.len()
        invariant
            0 <= i <= records@.len(),
            rs == records@.map_values(|r: Vec<u8>| r@),
            events@.map_values(|e: DiskEvent| e.values()) == disk_events_of(
                rs.subrange(0, i as int),
                timestamp,
            ),
            forall|k: int| 0 <= k < events@.len() ==> (#[trigger] events@[k]).timestamp == timestamp,
        decreases records@.len() - i,
    {
        assert(rs.subrange(0, i + 1).drop_last() =~= rs.subrange(0, i as int));
        let text = utf8_lossy(records[i].as_slice());
        if !str_is_blank(text.as_str()) {
            match DiskEvent::from_iostat_line(text.as_str(), timestamp) {
                Ok(e) => {
                    events.push(e);
                },
                Err(_) => {},
            }
        }
        assert(events@.map_values(|e: DiskEvent| e.values()) =~= disk_events_of(
            rs.subrange(0, i + 1),
            timestamp,
        ));
        i = i + 1;
    }
    assert(rs.subrange(0, records@.len() as int) =~= rs);
    events
}

proof fn lemma_share_le(tps: nat, part: nat, total: nat)
    requires
        0 < total,
        part <= total,
    ensures
        tps * part / total <= tps,
{
    assert(tps * part <= tps * total) by (nonlinear_arith)
        requires
            part <= total,
    ;
    assert(tps * part / total <= tps * total / total) by (nonlinear_arith)
        requires
            tps * part <= tps * total,
            0 < total,
    ;
    assert(tps * total / total == tps) by (nonlinear_arith)
        requires
            0 < total,
    ;
}

} // verus!
