//! Mappers that handle sequences of items.

pub use crate::mappers::{contains, Contains, KV};
