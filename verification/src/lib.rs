//! A schema-driven binary object-graph builder.
//!
//! The library constructs a compact, directly interpretable byte buffer from
//! in-memory values: strings, fixed-layout structs, length-prefixed vectors,
//! tagged unions, and tables with optional, defaulted fields.  The buffer is
//! written from its high end toward its low end, so every referenced object
//! is fully written before anything that points at it; all references are
//! stored as relative offsets, so the finished buffer is position
//! independent and a reader can navigate it by address arithmetic alone.

pub mod bytes;
pub mod buffer;
pub mod vtable;
pub mod builder;
pub mod reader;
pub mod laws;
pub mod sample;
