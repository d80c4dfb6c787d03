//! Generic containers: list-like sequences over a singly linked chain and a
//! doubly linked chain, and a fixed-capacity table addressed by key digest.

pub mod hash_table;
pub mod linked_list;
pub mod linked_lists;
