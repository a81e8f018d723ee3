//! Core data plane of a telemetry pipeline: the metric data model with its
//! merge algebra, the event envelope, and the transform execution contract.

pub mod number;
pub mod text;
pub mod time;
pub mod sorted;
pub mod tags;
pub mod value;
pub mod metric;
pub mod buffer;
pub mod event;
pub mod fingerprint;
pub mod firehose;
pub mod render;
pub mod transform;
pub mod transforms;
