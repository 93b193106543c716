pub mod nibbles;
pub mod node;
