//! Loads a shared library into a running process without the tracing facility.
//!
//! The library holds the logic: a tiny label-resolving assembler, the payload
//! builders for x86, x86-64, ARM and AArch64, the parsers of the kernel's
//! per-process files, the authority policy and the loader symbol search.
//! The program around it opens the files and writes the payloads.

// The assembler and its instruction sets.
pub mod tiny_asm;
pub mod arm;
pub mod arm64;
pub mod x86;
pub mod x86_64;

// The payloads built with it.
pub mod payloads;
pub mod payload_arm;
pub mod payload_arm64;
pub mod payload_x86;
pub mod payload_x86_64;

// The target process and the policy.
pub mod elf;
pub mod error;
pub mod maps;
pub mod os;
pub mod policy;
pub mod proc;
pub mod text;
