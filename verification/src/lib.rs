//! The core of the Fuel virtual machine, with its behaviour proved: its byte memory with a stack
//! growing up and a heap growing down, memory ranges and write ownership, the
//! register-level memory instructions, gas accounting, jumps, the execution of the
//! memory, stack and control-flow instructions, the debugger, and the planning of the
//! blocks that the just-in-time compiler turns into native code.

pub mod consts;
pub mod error;
pub mod range;
pub mod ownership;
pub mod memory;
pub mod bytes;
pub mod internal;
pub mod memory_ops;
pub mod gas;
pub mod flow;
pub mod predicate;
pub mod storage;
pub mod opcode;
pub mod jit;
pub mod profiler;
pub mod interpreter;
pub mod executors;
pub mod owned_or_mut;
pub mod run;
pub mod metadata;
pub mod receipts;
pub mod semantics;
pub mod math;
pub mod state;
