//! Asynchronous device-to-host readback: requests are prepared on the producer
//! side, staged by a device schedule, handed over a completion channel and
//! resolved into a host-side store on the consumer side, with per-cycle retry.

pub mod channel;
pub mod compute;
pub mod cycle;
pub mod gpu_insert;
pub mod ids;
pub mod in_flight;
pub mod mirror_handle;
pub mod retry_queue;
pub mod store;
pub mod transfer;

pub use compute::graph::StagingNode;
pub use gpu_insert::{GpuInsert, GpuInsertCommand, GpuInsertError, InsertNextFrame};
