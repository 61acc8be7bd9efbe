//! Verified core of a small request/response application-server framework:
//! the wire format of its messages, the incremental reader that assembles
//! them, and the decisions taken by the server and client loops.
pub mod byte_order;
pub mod bytes_buffer;
pub mod incremental_read;
pub mod bincode_codec;
pub mod stream_handling;
pub mod stream_serialization;
pub mod connection_task;
pub mod shutdown;
pub mod request_processing;
pub mod traits;
pub mod manage_connection;
pub mod server_runner;
pub mod client_session;
pub mod client_tasks;
