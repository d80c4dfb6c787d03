//! The nodes that the chains are made of.

pub mod extended;
pub mod singly;

pub use extended::ExtNode;
pub use singly::SNode;
