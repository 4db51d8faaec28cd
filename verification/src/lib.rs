//! A key/value store served over a bounded ring of fixed-width request
//! records: the record format, the ring protocol, the bucket-striped hash
//! table and the execution of requests against it.

pub mod command;
pub mod execution;
pub mod request;
pub mod request_laws;
pub mod ring;
pub mod ring_laws;
pub mod server;
pub mod table;
pub mod table_laws;
pub mod text;

pub use command::{
    classify, is_exit_word, malformed_message, parse_command, parse_menu_choice, Command,
    MalformedCommand, MenuChoice,
};
pub use execution::{process_request, report_delete, report_get, report_insert, report_request};
pub use request::{Operation, Request, KEY_CAPACITY, REQUEST_SIZE, VALUE_CAPACITY};
pub use ring::{
    slot_offset, Header, QueueError, RequestQueue, Ticket, CAPACITY, HEADER_SIZE, SEGMENT_NAME,
    SHARED_MEMORY_SIZE,
};
pub use server::{plan_server_step, ServerStep, DEFAULT_BUCKETS, DEFAULT_WORKERS, IDLE_MILLIS};
pub use table::{bucket_index, Bucket, HashTable};
