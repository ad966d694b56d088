//! Paged KV-cache management for GPU inference: the block table and decision
//! protocol of the kernel side, and the executors that carry decisions out.

pub mod abi;
pub mod block_laws;
pub mod blocks;
pub mod completion_laws;
pub mod cpu_pool;
pub mod ctl;
pub mod daemon;
pub mod daemon_laws;
pub mod decisions;
pub mod device;
pub mod dispatch;
pub mod errno;
pub mod executor;
pub mod executor_laws;
pub mod fault;
pub mod fault_laws;
pub mod gpu;
pub mod hook;
pub mod hook_laws;
pub mod ioctl;
pub mod kv;
pub mod laws;
pub mod layout;
pub mod lifecycle;
pub mod limits;
pub mod listings;
pub mod num;
pub mod numbers;
pub mod offload;
pub mod opening_laws;
pub mod order;
pub mod parse;
pub mod places;
pub mod policy;
pub mod policy_laws;
pub mod pools;
pub mod query_laws;
pub mod ranges;
pub mod registration_laws;
pub mod reservation_laws;
pub mod rm;
pub mod rm_laws;
pub mod runtime;
pub mod runtime_laws;
pub mod seqs;
pub mod session_laws;
pub mod sessions;
pub mod state;
pub mod stats;
pub mod text;
pub mod text_laws;
pub mod types;
pub mod vaspace;
pub mod workload;
pub mod workload_laws;
