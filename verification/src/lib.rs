//! Request metrics for the InheritX backend: the labels under which request
//! latency is recorded, the bookkeeping of in-flight requests around a handler,
//! and the reply of the Prometheus scrape endpoint.

pub mod exposition;
pub mod labels;
pub mod lifecycle;
