//! A validated, hierarchical namespace of classes (grouping nodes) and
//! actions (leaf nodes bound to a handler), assembled by a move-chained
//! builder that enforces case-insensitive sibling name uniqueness and
//! yields, atomically, either a fully validated immutable tree or a
//! descriptive build error.

mod builder;
pub mod laws;
mod node;
pub mod shape;

pub use builder::Commander;
pub use builder::CommanderBuilder;
pub use builder::EndClassError;
pub use builder::FinalizeError;
pub use node::Action;
pub use node::BuildError;
pub use node::SubClass;
pub use node::check_names;
pub use node::check_result;
pub use node::has_action_named;
pub use node::has_class_named;
pub use node::lower_of;
pub use node::name_available;
pub use node::spec_conflict;
