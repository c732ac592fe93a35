//! The decisions of a distributed load tester: what its configuration service
//! stores and pushes, what a worker does with a pushed configuration, and what
//! the echo targets answer. Sockets, clocks and tasks belong to the caller.
pub mod calendar;
pub mod enroll;
pub mod enroll_laws;
pub mod expire;
pub mod fnv;
pub mod handler;
pub mod handler_laws;
pub mod limiter;
pub mod limiter_laws;
pub mod load_test;
pub mod metric_names;
pub mod metrics;
pub mod metrics_laws;
pub mod registration;
pub mod sse;
pub mod text;
pub mod text_laws;
pub mod worker;
pub mod worker_laws;
