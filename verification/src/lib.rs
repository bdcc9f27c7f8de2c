//! Conformance-harness logic of the `rcc` C compiler, and the decisions of
//! its LLVM back end taken apart from LLVM itself: SysV ABI classification,
//! signatures, calls, prologues and returns, places, casts, operators,
//! constants, debug descriptions and type shapes.

pub mod text;
pub mod report;
pub mod xfail;
pub mod suite_run;
pub mod bytes;
pub mod order;
pub mod compare;
pub mod adapters;
pub mod steps;
pub mod metadata;
pub mod lines;
pub mod csmith;
pub mod render;
pub mod build_support;
pub mod idx;
pub mod abi;
pub mod lowering;
pub mod filecheck;
pub mod const_bytes;
pub mod debuginfo;
pub mod operators;
pub mod place;
pub mod signature;
pub mod call;
pub mod entry;
pub mod switch;
pub mod storage;
pub mod llvm_types;
pub mod casts;
pub mod aggregate;
pub mod ptr_arith;
pub mod global_init;
pub mod plan_run;
pub mod complex;
