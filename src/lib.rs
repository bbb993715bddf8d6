//! Structured logging to the systemd journal over its native datagram protocol.
use vstd::prelude::*;

pub mod fields;
pub mod record;
pub mod logger;
pub mod transport;

pub use fields::{escape_journal_key, put_field_bytes, put_field_length_encoded, FieldName, PutAsFieldValue};
pub use logger::{journal_stream_matches, JournalLog};
pub use record::{record_payload, Level, LogRecord};
pub use transport::{PayloadSend, SendAction, SendEvent};
