pub mod node_at_range_helpers;
pub mod node_at_range;
pub mod enclosing_scope;
pub mod context_for_range;
pub mod node_text;
pub mod context_pack;
