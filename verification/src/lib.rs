//! A weighted shared-ownership primitive: many handles share read access to
//! one value, and duplication usually costs no touch of the shared counter.
//! Each handle privately holds a slice ("weight") of a single shared counter;
//! only a handle whose weight is down to one unit withdraws a fresh block.
//! The value is torn down exactly once, by the release that empties the
//! counter.

pub mod warc;
pub mod weights;
