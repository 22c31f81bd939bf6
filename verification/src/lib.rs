//! A job queue: job lifecycle rules, retry back-off, repeatable schedules,
//! storage decisions for a Redis-backed queue, the worker protocol and the
//! HTTP API's request and response rules.

pub mod job;
pub mod state;
pub mod ids;
pub mod text;
pub mod clock;
pub mod repeat;
pub mod keys;
pub mod cursor;
pub mod idempotency;
pub mod storage;
pub mod worker;
pub mod listing;
pub mod paging;
pub mod api;
