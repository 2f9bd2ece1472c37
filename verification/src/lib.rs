//! Control plane core: task submission and per-workflow event tailing over a
//! shared, append-only log. The library decides; the caller performs the I/O.

pub mod text;
pub mod clock;
pub mod wire;
pub mod log;
pub mod event;
pub mod tailer;
pub mod submit;
pub mod service;
pub mod tools;
