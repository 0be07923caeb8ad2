//! A two-thread latency benchmark harness: pacing, producer and consumer
//! decisions, completion signalling, and correlation of send and receive
//! timestamps into latency distributions.

pub mod pacer;
pub mod correlate;
pub mod histogram;
pub mod consumer;
pub mod producer;
pub mod config;
pub mod affinity;
