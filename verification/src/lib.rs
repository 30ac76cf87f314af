pub mod address;
pub mod decoder;
pub mod flatten;
pub mod instruction;
pub mod lifecycle;
pub mod pipeline;
pub mod plugin;
pub mod registry;
pub mod transaction;
