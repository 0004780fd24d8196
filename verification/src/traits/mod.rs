//! The TL serialization interface and its implementations for the
//! primitive TL types.
pub mod tl_object;
