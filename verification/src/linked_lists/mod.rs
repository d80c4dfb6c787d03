//! Linked sequences and what they are built from.

pub mod double;
pub mod errors;
pub mod model;
pub mod node;
pub mod singly;
pub mod traits;
pub mod types;

pub use double::Double;
pub use errors::Error;
pub use errors::Result;
pub use node::ExtNode;
pub use node::SNode;
pub use singly::Singly;
pub use traits::ExtendedNode;
pub use traits::List;
pub use traits::SinglyNode;
