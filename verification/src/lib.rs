//! Ships locally generated log records to a remote append-only log stream:
//! events are batched under the sink's size, count and ordering limits, and a
//! sequence token is tracked across appends and recovered after failures.

pub mod batch;
pub mod cloudwatch;
pub mod configuration;
pub mod ec2;
