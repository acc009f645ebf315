//! Small gadgets shared by the components.
pub mod hash;
