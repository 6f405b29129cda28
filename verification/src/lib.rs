//! Core of a small document-archive service: the wire protocol that frames
//! and encodes requests and responses, a model of the worker pool's job
//! queue, and the server's dispatch and shutdown decisions.

pub mod bytes;
pub mod message;
pub mod pool;
pub mod server;
