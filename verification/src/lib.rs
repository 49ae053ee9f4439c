//! Memory-safety analysis of LLVM IR for kernel code, with approval of
//! verification conditions, attestation and ring policy.
pub mod analyze;
pub mod assembly;
pub mod attest;
pub mod catalog;
pub mod determinism;
pub mod faults;
pub mod files;
pub mod hitl;
pub mod identity;
pub mod invariants;
pub mod ir;
pub mod json;
pub mod laws;
pub mod layout;
pub mod machine;
pub mod modes;
pub mod names;
pub mod offsets;
pub mod order;
pub mod reading;
pub mod report;
pub mod ring;
pub mod sets;
pub mod sizes;
pub mod solver;
pub mod soundness;
pub mod text;
pub mod verdict;
