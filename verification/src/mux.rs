//! The stream multiplexer: many logical streams over one duplex.

pub mod buffer;
pub mod frame;
pub mod ids;
pub mod multiplexer;
pub mod pump;
pub mod stream;
