//! Unified-log JSON lines translated into log events.
use vstd::prelude::*;
use crate::events::MessageType;
use crate::framing::{complete_lines, feed_lines, pending_tail};
use crate::text::{is_blank, str_is_blank};

verus! {

/// The timestamp format of `log stream --style json`.
pub const LOG_TIMESTAMP_FORMAT: &'static str = "%Y-%m-%d %H:%M:%S%.f%z";

pub uninterp spec fn json_str_member_of(text: Seq<char>, key: Seq<char>) -> Option<Seq<char>>;

pub uninterp spec fn json_u64_member_of(text: Seq<char>, key: Seq<char>) -> Option<u64>;

pub uninterp spec fn timestamp_millis_of(text: Seq<char>, format: Seq<char>) -> Option<i64>;

pub uninterp spec fn lossy_text_of(bytes: Seq<u8>) -> Seq<char>;

/// Relies on `serde_json::from_str` into a `serde_json::Value`, then
/// `Value::get` and `Value::as_str`: the string member `key` of the JSON
/// object in `text`, which depends on the two texts alone.
#[verifier::external_body]
fn json_str_member(text: &str, key: &str) -> (r: Option<String>)
    ensures
        r matches Some(s) ==> json_str_member_of(text@, key@) == Some(s@),
        r is None ==> json_str_member_of(text@, key@) is None,
{
    let v = serde_json::from_str::<serde_json::Value>(text).ok()?;
    v.get(key)?.as_str().map(|s| s.to_string())
}

/// Relies on `serde_json::from_str` into a `serde_json::Value`, then
/// `Value::get` and `Value::as_u64`: the unsigned integer member `key` of the
/// JSON object in `text`, which depends on the two texts alone.
#[verifier::external_body]
fn json_u64_member(text: &str, key: &str) -> (r: Option<u64>)
    ensures
        r == json_u64_member_of(text@, key@),
{
    let v = serde_json::from_str::<serde_json::Value>(text).ok()?;
    v.get(key)?.as_u64()
}

/// Relies on `chrono::DateTime::parse_from_str` and `timestamp_millis`: the
/// instant that `text` gives in `format` (which must carry an offset), in
/// milliseconds since the Unix epoch; it depends on the two texts alone.
#[verifier::external_body]
fn parse_timestamp_millis(text: &str, format: &str) -> (r: Option<i64>)
    ensures
        r == timestamp_millis_of(text@, format@),
{
    chrono::DateTime::parse_from_str(text, format).ok().map(|t| t.timestamp_millis())
}

/// Relies on `String::from_utf8_lossy`: the text of `bytes`, with invalid
/// sequences replaced; it depends on the bytes alone.
#[verifier::external_body]
pub(crate) fn utf8_lossy(bytes: &[u8]) -> (r: String)
    ensures
        r@ == lossy_text_of(bytes@),
{
    String::from_utf8_lossy(bytes).into_owned()
}

/// One entry of the unified log. `timestamp` is in milliseconds since the
/// Unix epoch.
#[derive(Clone, Debug, PartialEq, Eq)]
pub struct LogEvent {
    pub timestamp: i64,
    pub message_type: MessageType,
    pub subsystem: String,
    pub category: String,
    pub process: String,
    pub process_id: u32,
    pub message: String,
}

/// A log event's contents over plain values.
pub type LogEventView = (i64, MessageType, Seq<char>, Seq<char>, Seq<char>, u32, Seq<char>);

impl View for LogEvent {
    type V = LogEventView;

    open spec fn view(&self) -> LogEventView {
        (
            self.timestamp,
            self.message_type,
            self.subsystem@,
            self.category@,
            self.process@,
            self.process_id,
            self.message@,
        )
    }
}

/// The event that one JSON log entry describes: every member present with
/// its type, a timestamp in the log's format, a known message type in any
/// letter case, and a process id that fits 32 bits.
pub open spec fn log_event_of(text: Seq<char>) -> Option<LogEventView> {
    let ts = json_str_member_of(text, "timestamp"@);
    let mt = json_str_member_of(text, "messageType"@);
    let subsystem = json_str_member_of(text, "subsystem"@);
    let category = json_str_member_of(text, "category"@);
    let process = json_str_member_of(text, "process"@);
    let pid = json_u64_member_of(text, "processID"@);
    let message = json_str_member_of(text, "message"@);
    if ts is Some && mt is Some && subsystem is Some && category is Some && process is Some
        && pid is Some && message is Some && timestamp_millis_of(ts->0, LOG_TIMESTAMP_FORMAT@) is Some
        && MessageType::parse_spec(mt->0) is Some && pid->0 <= u32::MAX {
        Some(
            (
                timestamp_millis_of(ts->0, LOG_TIMESTAMP_FORMAT@)->0,
                MessageType::parse_spec(mt->0)->0,
                subsystem->0,
                category->0,
                process->0,
                pid->0 as u32,
                message->0,
            ),
        )
    } else {
        None
    }
}

impl LogEvent {
    /// Parses one entry of `log stream --style json`.
    pub fn from_json(json: &str) -> (r: Result<LogEvent, String>)
        ensures
            r is Ok <==> log_event_of(json@) is Some,
            r matches Ok(e) ==> log_event_of(json@) == Some(e@),
    {
        let ts = match json_str_member(json, "timestamp") {
            Some(v) => v,
            None => {
                return Err(String::from_str("Failed to parse JSON: missing timestamp"));
            },
        };
        let mt = match json_str_member(json, "messageType") {
            Some(v) => v,
            None => {
                return Err(String::from_str("Failed to parse JSON: missing messageType"));
            },
        };
        let subsystem = match json_str_member(json, "subsystem") {
            Some(v) => v,
            None => {
                return Err(String::from_str("Failed to parse JSON: missing subsystem"));
            },
        };
        let category = match json_str_member(json, "category") {
            Some(v) => v,
            None => {
                return Err(String::from_str("Failed to parse JSON: missing category"));
            },
        };
        let process = match json_str_member(json, "process") {
            Some(v) => v,
            None => {
                return Err(String::from_str("Failed to parse JSON: missing process"));
            },
        };
        let pid = match json_u64_member(json, "processID") {
            Some(v) => v,
            None => {
                return Err(String::from_str("Failed to parse JSON: missing processID"));
            },
        };
        let message = match json_str_member(json, "message") {
            Some(v) => v,
            None => {
                return Err(String::from_str("Failed to parse JSON: missing message"));
            },
        };
        let timestamp = match parse_timestamp_millis(ts.as_str(), LOG_TIMESTAMP_FORMAT) {
            Some(t) => t,
            None => {
                return Err(String::from_str("Failed to parse timestamp"));
            },
        };
        let message_type = match MessageType::parse(mt.as_str()) {
            Some(m) => m,
            None => {
                return Err(String::from_str("Unknown message type"));
            },
        };
        if pid > u32::MAX as u64 {
            return Err(String::from_str("Failed to parse JSON: processID out of range"));
        }
        Ok(
            LogEvent {
                timestamp,
                message_type,
                subsystem,
                category,
                process,
                process_id: pid as u32,
                message,
            },
        )
    }
}

/// What one framed record becomes: nothing for a blank line or a malformed
/// entry, else its event.
pub open spec fn log_record_event(record: Seq<u8>) -> Option<LogEventView> {
    let text = lossy_text_of(record);
    if is_blank(text) {
        None
    } else {
        log_event_of(text)
    }
}

/// The events of a run of records, in record order; records that do not
/// translate are skipped.
pub open spec fn log_events_of(records: Seq<Seq<u8>>) -> Seq<LogEventView>
    decreases records.len(),
{
    if records.len() == 0 {
        Seq::empty()
    } else {
        log_events_of(records.drop_last()) + match log_record_event(records.last()) {
            Some(e) => seq![e],
            None => Seq::empty(),
        }
    }
}

/// Translates framed records in order. A record that does not translate is
/// consumed and dropped; it never stops the records after it.
pub fn translate_log_records(records: &Vec<Vec<u8>>) -> (events: Vec<LogEvent>)
    ensures
        events@.map_values(|e: LogEvent| e@) == log_events_of(
            records@.map_values(|r: Vec<u8>| r@),
        ),
{
    let ghost rs = records@.map_values(|r: Vec<u8>| r@);
    let mut events: Vec<LogEvent> = Vec::new();
    let mut i: usize = 0;
    while i < records.len()
        invariant
            0 <= i <= records@.len(),
            rs == records@.map_values(|r: Vec<u8>| r@),
            events@.map_values(|e: LogEvent| e@) == log_events_of(rs.subrange(0, i as int)),
        decreases records@.len() - i,
    {
        assert(rs.subrange(0, i + 1).drop_last() =~= rs.subrange(0, i as int));
        let text = utf8_lossy(records[i].as_slice());
        if !str_is_blank(text.as_str()) {
            match LogEvent::from_json(text.as_str()) {
                Ok(e) => {
                    events.push(e);
                },
                Err(_) => {},
            }
        }
        assert(events@.map_values(|e: LogEvent| e@) =~= log_events_of(rs.subrange(0, i + 1)));
        i = i + 1;
    }
    assert(rs.subrange(0, records@.len() as int) =~= rs);
    events
}

/// Feeds a chunk of `log stream` output: frames complete lines and
/// translates them; the unterminated tail stays in `buffer`.
pub fn feed_log_output(buffer: &mut Vec<u8>, chunk: &[u8]) -> (events: Vec<LogEvent>)
    ensures
        events@.map_values(|e: LogEvent| e@) == log_events_of(
            complete_lines(old(buffer)@ + chunk@),
        ),
        final(buffer)@ == pending_tail(old(buffer)@ + chunk@),
{
    let records = feed_lines(buffer, chunk);
    translate_log_records(&records)
}

/// Translation keeps record order and treats each record on its own: the
/// events of two runs of records are the events of the first followed by
/// those of the second.
pub proof fn lemma_log_events_concat(a: Seq<Seq<u8>>, b: Seq<Seq<u8>>)
    ensures
        log_events_of(a + b) == log_events_of(a) + log_events_of(b),
    decreases b.len(),
{
    if b.len() == 0 {
        assert(a + b =~= a);
        assert(log_events_of(a) + Seq::<LogEventView>::empty() =~= log_events_of(a));
    } else {
        lemma_log_events_concat(a, b.drop_last());
        assert((a + b).drop_last() =~= a + b.drop_last());
        assert((a + b).last() == b.last());
        assert(log_events_of(a + b) =~= log_events_of(a) + log_events_of(b));
    }
}

/// A record that does not translate contributes nothing, and one that does
/// contributes exactly its event; so a stream that mixes well-formed and
/// malformed records yields the well-formed ones' events, in order.
pub proof fn lemma_log_events_single(r: Seq<u8>)
    ensures
        log_events_of(seq![r]) == match log_record_event(r) {
            Some(e) => seq![e],
            None => Seq::<LogEventView>::empty(),
        },
{
    assert(seq![r].drop_last() =~= Seq::<Seq<u8>>::empty());
    assert(seq![r].last() == r);
    assert(log_events_of(Seq::<Seq<u8>>::empty()) == Seq::<LogEventView>::empty());
    assert(Seq::<LogEventView>::empty() + seq![log_record_event(r)->0] =~= seq![log_record_event(r)->0]);
    assert(Seq::<LogEventView>::empty() + Seq::<LogEventView>::empty() =~= Seq::<LogEventView>::empty());
}

} // verus!
