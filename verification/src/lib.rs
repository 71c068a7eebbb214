//! Register definitions for memory-mapped peripherals: the grammar of the
//! register and register-index declarations, and the plan of the items that
//! each declaration expands to.

pub mod keyword;
pub mod literal;
pub mod log_baud_rate;
pub mod names;
pub mod printing;
pub mod reg;
pub mod reg_index;
pub mod reg_index_items;
pub mod reg_index_syntax;
pub mod reg_items;
pub mod reg_syntax;
pub mod syntax;
pub mod thread_future;
pub mod token;
