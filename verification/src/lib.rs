//! A cycle-level RV32I instruction-set simulator with an instrumented,
//! configurable multi-level memory hierarchy.
//!
//! The crate models the two subsystems that carry the real engineering —
//! the five-stage pipelined datapath (decode, hazard detection, forwarding,
//! branch prediction) and the cache hierarchy (inclusive, inclusive with a
//! victim cache, or exclusive, over a lazily allocated MMU) — and proves
//! their contracts with Verus.  File and console I/O, ELF parsing and CLI
//! handling live outside the library and hand it plain values.

pub mod alu;
pub mod branch_predictor;
pub mod cache;
pub mod cpu;
pub mod decode_helper;
pub mod error;
pub mod exclusive;
pub mod flags;
pub mod inclusive;
pub mod instruction;
pub mod loader;
pub mod machine;
pub mod mmu;
pub mod pipeline;
pub mod pipelined;
pub mod run_wrapper;
pub mod single_cycle;
pub mod stages;
pub mod stages_simple;
pub mod storage;
pub mod system_call;
