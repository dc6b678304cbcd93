//! Restartable-sequence support: the kernel ABI model, the post-commit
//! offset table that the build derives from the payload object, and the
//! source-generation rules for the rseq attribute macros.

pub mod build_error;
pub mod decimal;
pub mod magic;
pub mod elf;
pub mod post_commit;
pub mod text_order;
pub mod offset_table;
pub mod rseq_types;
pub mod task;
pub mod macros;
pub mod start_signature;
pub mod rewrite;
pub mod name_consts;
pub mod context;
pub mod cache;
