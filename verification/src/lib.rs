//! Fixed-capacity, overwrite-on-full circular buffers for streams of numeric
//! samples, keeping only the most recent pushes once the capacity is reached.

pub mod ring;
pub mod int_buffer;
