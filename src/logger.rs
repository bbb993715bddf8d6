//! The logger's configuration: the syslog identifier and the extra fields
//! that go with every record.
use vstd::prelude::*;

use crate::fields::{append_bytes, escaped_key, field_bytes, put_field_bytes, FieldName};
use crate::record::{decimal, put_decimal, key_value_fields, put_key_values, record_fields, record_payload, LogRecord};

verus! {

/// A systemd journal logger's configuration.
///
/// Extra fields are encoded once, when they are added, and copied after the
/// fields of every record.
pub struct JournalLog {
    /// Pre-encoded extra fields appended to every record.
    extra_fields: Vec<u8>,
    /// The syslog identifier; left out of records when empty.
    syslog_identifier: String,
}

impl JournalLog {
    /// The encoded extra fields.
    pub closed spec fn extra_fields(&self) -> Seq<u8> {
        self.extra_fields@
    }

    /// The syslog identifier.
    pub closed spec fn syslog_identifier(&self) -> Seq<char> {
        self.syslog_identifier@
    }

    /// A logger with no extra fields and no syslog identifier.
    pub fn empty() -> (r: Self)
        ensures
            r.extra_fields() == Seq::<u8>::empty(),
            r.syslog_identifier() == Seq::<char>::empty(),
    {
        JournalLog { extra_fields: Vec::new(), syslog_identifier: String::new() }
    }

    /// Adds an extra field to every record, after the fields added before.
    /// `name` is escaped; the value is written as it is.
    pub fn add_extra_field(self, name: &str, value: &[u8]) -> (r: Self)
        ensures
            r.extra_fields() == self.extra_fields() + field_bytes(escaped_key(name@), value@),
            r.syslog_identifier() == self.syslog_identifier(),
    {
        let mut logger = self;
        put_field_bytes(&mut logger.extra_fields, FieldName::WriteEscaped(name), value);
        logger
    }

    /// Replaces all extra fields by `extra_fields`, in their order.
    pub fn with_extra_fields(self, extra_fields: Vec<(String, Vec<u8>)>) -> (r: Self)
        ensures
            r.extra_fields() == key_value_fields(extra_fields@),
            r.syslog_identifier() == self.syslog_identifier(),
    {
        let mut logger = self;
        logger.extra_fields.clear();
        put_key_values(&mut logger.extra_fields, &extra_fields);
        assert(logger.extra_fields@ =~= key_value_fields(extra_fields@));
        logger
    }

    /// Sets the syslog identifier, written in the `SYSLOG_IDENTIFIER` field.
    pub fn with_syslog_identifier(self, identifier: String) -> (r: Self)
        ensures
            r.extra_fields() == self.extra_fields(),
            r.syslog_identifier() == identifier@,
    {
        let mut logger = self;
        logger.syslog_identifier = identifier;
        logger
    }

    /// The complete journal payload for `record` from the process `pid`:
    /// its fields, then this logger's extra fields.
    pub fn record_payload(&self, record: &LogRecord, pid: u32) -> (r: Vec<u8>)
        ensures
            r@ == record_fields(self.syslog_identifier(), *record, pid) + self.extra_fields(),
    {
        let mut payload = record_payload(self.syslog_identifier.as_str(), record, pid);
        append_bytes(&mut payload, self.extra_fields.as_slice());
        payload
    }
}

fn bytes_equal(a: &[u8], b: &[u8]) -> (r: bool)
    ensures
        r == (a@ == b@),
{
    if a.len() != b.len() {
        return false;
    }
    for i in 0..a.len()
        invariant
            a@.len() == b@.len(),
            forall|j: int| 0 <= j < i ==> a@[j] == b@[j],
    {
        if a[i] != b[i] {
            return false;
        }
    }
    assert(a@ =~= b@);
    true
}

/// Whether `journal_stream`, the value of `$JOURNAL_STREAM`, names the file
/// with device number `device` and inode number `inode`, as `DEVICE:INODE`
/// in decimal.
///
/// systemd sets that variable for a service whose standard output or error
/// is connected to the journal.
pub fn journal_stream_matches(journal_stream: &[u8], device: u64, inode: u64) -> (r: bool)
    ensures
        r == (journal_stream@ == decimal(device as nat) + seq![':' as u8] + decimal(inode as nat)),
{
    let mut expected: Vec<u8> = Vec::new();
    put_decimal(&mut expected, device);
    expected.push(':' as u8);
    put_decimal(&mut expected, inode);
    assert(expected@ =~= decimal(device as nat) + seq![':' as u8] + decimal(inode as nat));
    bytes_equal(journal_stream, expected.as_slice())
}

} // verus!
