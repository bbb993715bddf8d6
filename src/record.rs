//! One log record and the journal payload that stands for it.
use vstd::prelude::*;
use vstd::string::StringSliceAdditionalSpecFns;
use vstd::utf8::encode_utf8;

use crate::fields::{
    ascii_bytes, compact_field, escaped_key, field_bytes, is_field_name_text, put_field_bytes,
    put_field_name, FieldName,
};

verus! {

broadcast use vstd::string::group_string_axioms;

/// The severity of a log record.
#[derive(Clone, Copy, Debug, PartialEq, Eq, Structural)]
pub enum Level {
    Error,
    Warn,
    Info,
    Debug,
    Trace,
}

/// The syslog priority that a level maps to, as the digit written in the
/// `PRIORITY` field.
pub open spec fn priority_digit(level: Level) -> u8 {
    match level {
        Level::Error => '3' as u8,
        Level::Warn => '4' as u8,
        Level::Info => '5' as u8,
        Level::Debug => '6' as u8,
        Level::Trace => '7' as u8,
    }
}

/// What the journal is told of one log record.
pub struct LogRecord {
    pub level: Level,
    /// The formatted message.
    pub message: String,
    /// The source file the record comes from, if known.
    pub file: Option<String>,
    /// The module path the record comes from, if known.
    pub module: Option<String>,
    /// The source line the record comes from, if known.
    pub line: Option<u32>,
    /// The record's target.
    pub target: String,
    /// Structured fields of the record, in their order: a key, escaped before
    /// it is written, and its value's bytes.
    pub key_values: Vec<(String, Vec<u8>)>,
}

/// The decimal digits of `n`, in ASCII, without leading zeros.
pub open spec fn decimal(n: nat) -> Seq<u8>
    decreases n,
{
    if n < 10 {
        seq![('0' as u8 + n) as u8]
    } else {
        decimal(n / 10) + seq![('0' as u8 + n % 10) as u8]
    }
}

/// The UTF-8 bytes of text.
pub open spec fn text_bytes(s: Seq<char>) -> Seq<u8> {
    encode_utf8(s)
}

/// A field that is only written when its value is known.
pub open spec fn optional_field(name: Seq<u8>, value: Option<String>) -> Seq<u8> {
    match value {
        Some(v) => field_bytes(name, text_bytes(v@)),
        None => Seq::empty(),
    }
}

/// Caller-supplied fields, in their order, each key escaped.
pub open spec fn key_value_fields(kvs: Seq<(String, Vec<u8>)>) -> Seq<u8>
    decreases kvs.len(),
{
    if kvs.len() == 0 {
        Seq::empty()
    } else {
        key_value_fields(kvs.drop_last()) + field_bytes(
            escaped_key(kvs.last().0@),
            kvs.last().1@,
        )
    }
}

/// The journal payload for `record`, sent by the process `pid` under the
/// syslog identifier `identifier`, without the logger's extra fields.
pub open spec fn record_fields(identifier: Seq<char>, record: LogRecord, pid: u32) -> Seq<u8> {
    let priority = field_bytes(ascii_bytes("PRIORITY"@), seq![priority_digit(record.level)]);
    let message = field_bytes(ascii_bytes("MESSAGE"@), text_bytes(record.message@));
    let pid = compact_field(ascii_bytes("SYSLOG_PID"@), decimal(pid as nat));
    let identifier = if identifier.len() > 0 {
        field_bytes(ascii_bytes("SYSLOG_IDENTIFIER"@), text_bytes(identifier))
    } else {
        Seq::empty()
    };
    let file = optional_field(ascii_bytes("CODE_FILE"@), record.file);
    let module = optional_field(ascii_bytes("CODE_MODULE"@), record.module);
    let line = match record.line {
        Some(l) => compact_field(ascii_bytes("CODE_LINE"@), decimal(l as nat)),
        None => Seq::empty(),
    };
    let target = field_bytes(ascii_bytes("TARGET"@), text_bytes(record.target@));
    priority + message + pid + identifier + file + module + line + target + key_value_fields(
        record.key_values@,
    )
}

/// Appends the decimal digits of `n`.
pub fn put_decimal(buffer: &mut Vec<u8>, n: u64)
    ensures
        final(buffer)@ == old(buffer)@ + decimal(n as nat),
    decreases n,
{
    if n >= 10 {
        put_decimal(buffer, n / 10);
    }
    buffer.push('0' as u8 + (n % 10) as u8);
    assert(buffer@ =~= old(buffer)@ + decimal(n as nat));
}

/// Appends a numeric field in compact form; digits never hold a newline.
fn put_numeric_field(buffer: &mut Vec<u8>, name: &str, n: u64)
    requires
        is_field_name_text(name@),
    ensures
        final(buffer)@ == old(buffer)@ + compact_field(ascii_bytes(name@), decimal(n as nat)),
{
    put_field_name(buffer, FieldName::WellFormed(name));
    buffer.push('=' as u8);
    put_decimal(buffer, n);
    buffer.push('\n' as u8);
    assert(buffer@ =~= old(buffer)@ + compact_field(ascii_bytes(name@), decimal(n as nat)));
}

fn priority(level: Level) -> (r: u8)
    ensures
        r == priority_digit(level),
{
    match level {
        Level::Error => '3' as u8,
        Level::Warn => '4' as u8,
        Level::Info => '5' as u8,
        Level::Debug => '6' as u8,
        Level::Trace => '7' as u8,
    }
}

proof fn lemma_standard_names()
    ensures
        is_field_name_text("PRIORITY"@),
        is_field_name_text("MESSAGE"@),
        is_field_name_text("SYSLOG_PID"@),
        is_field_name_text("SYSLOG_IDENTIFIER"@),
        is_field_name_text("CODE_FILE"@),
        is_field_name_text("CODE_MODULE"@),
        is_field_name_text("CODE_LINE"@),
        is_field_name_text("TARGET"@),
{
    reveal_strlit("PRIORITY");
    reveal_strlit("MESSAGE");
    reveal_strlit("SYSLOG_PID");
    reveal_strlit("SYSLOG_IDENTIFIER");
    reveal_strlit("CODE_FILE");
    reveal_strlit("CODE_MODULE");
    reveal_strlit("CODE_LINE");
    reveal_strlit("TARGET");
}

/// Appends the fields `kvs`, in their order, each key escaped.
pub fn put_key_values(buffer: &mut Vec<u8>, kvs: &Vec<(String, Vec<u8>)>)
    ensures
        final(buffer)@ == old(buffer)@ + key_value_fields(kvs@),
{
    for i in 0..kvs.len()
        invariant
            buffer@ == old(buffer)@ + key_value_fields(kvs@.take(i as int)),
    {
        let pair = &kvs[i];
        put_field_bytes(buffer, FieldName::WriteEscaped(pair.0.as_str()), pair.1.as_slice());
        assert(kvs@.take(i + 1).drop_last() =~= kvs@.take(i as int));
        assert(buffer@ =~= old(buffer)@ + key_value_fields(kvs@.take(i + 1)));
    }
    assert(kvs@.take(kvs@.len() as int) =~= kvs@);
}

/// The journal payload for `record`, sent by the process `pid` under the
/// syslog identifier `syslog_identifier` (left out when empty): the standard
/// fields, then the record's own key-value fields.
pub fn record_payload(syslog_identifier: &str, record: &LogRecord, pid: u32) -> (r: Vec<u8>)
    ensures
        r@ == record_fields(syslog_identifier@, *record, pid),
{
    proof {
        lemma_standard_names();
    }
    let mut buffer: Vec<u8> = Vec::with_capacity(1024);
    let digit: [u8; 1] = [priority(record.level)];
    put_field_bytes(&mut buffer, FieldName::WellFormed("PRIORITY"), digit.as_slice());
    put_field_bytes(&mut buffer, FieldName::WellFormed("MESSAGE"), record.message.as_str().as_bytes());
    put_numeric_field(&mut buffer, "SYSLOG_PID", pid as u64);
    if !syslog_identifier.is_empty() {
        put_field_bytes(&mut buffer, FieldName::WellFormed("SYSLOG_IDENTIFIER"), syslog_identifier.as_bytes());
    }
    match &record.file {
        Some(file) => put_field_bytes(&mut buffer, FieldName::WellFormed("CODE_FILE"), file.as_str().as_bytes()),
        None => {},
    }
    match &record.module {
        Some(module) => put_field_bytes(&mut buffer, FieldName::WellFormed("CODE_MODULE"), module.as_str().as_bytes()),
        None => {},
    }
    match record.line {
        Some(line) => put_numeric_field(&mut buffer, "CODE_LINE", line as u64),
        None => {},
    }
    put_field_bytes(&mut buffer, FieldName::WellFormed("TARGET"), record.target.as_str().as_bytes());
    put_key_values(&mut buffer, &record.key_values);
    assert(digit@ =~= seq![priority_digit(record.level)]);
    assert(buffer@ =~= record_fields(syslog_identifier@, *record, pid));
    buffer
}

} // verus!
