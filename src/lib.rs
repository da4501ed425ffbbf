//! A growable buffer of comparable elements with binary search, implicit
//! binary-tree index navigation, and the partitioning step of a chunked
//! search.
pub mod order;
pub mod btree;
pub mod chunks;
