//! Host/target test-stand protocol: frame codec, message schema, host
//! transport and the target's receive, DMA and dispatch logic.

pub mod cobs;
pub mod message;
pub mod conn;
pub mod pin;
pub mod target;
pub mod rx;
pub mod dma;
pub mod dispatch;
pub mod request;
