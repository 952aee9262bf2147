//! The logic of a Matrix bot that translates the messages of its rooms.
//!
//! `handler` takes a message from its arrival to its end and asks for one
//! outside action at a time; `pipeline` holds the decisions it is made of, and
//! `dispatch`, `commands`, `report`, `rerun`, `retry`, `backoff`, `pending` and
//! `db` those around it. What a translation may look like is decided in `guard` and
//! `batch`.
pub mod backoff;
pub mod batch;
pub mod commands;
pub mod compose;
pub mod config;
pub mod db;
pub mod dispatch;
pub mod error;
pub mod guard;
pub mod handler;
pub mod ids;
pub mod interval;
pub mod lang;
pub mod markup;
pub mod message;
pub mod outcome;
pub mod pending;
pub mod pipeline;
pub mod record;
pub mod report;
pub mod rerun;
pub mod retry;
pub mod skip;
pub mod stats;
pub mod targets;
pub mod text;
