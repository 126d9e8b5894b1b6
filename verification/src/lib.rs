//! A stack-based bytecode virtual machine for a small dynamically-typed
//! value language, with a runtime hot-spot profiler.
//!
//! The pieces: [`value`] holds the tagged value model, [`stack`] the
//! bounded operand stack, [`frame`] the call frames and the call stack,
//! [`heap`] the reference-counted heap with its generational accounting,
//! [`instruction`] the opcode set with its stable byte encoding and the
//! dispatcher that gives each opcode its semantics, [`runtime`] the
//! machine with its fetch-execute loop and instruction quota, and
//! [`profiler`] with [`profile_text`] the hot-spot profiler and its
//! profile document. [`assoc`] and [`text`] are small supporting pieces:
//! word-keyed association lists and decimal rendering.

pub mod value;
pub mod stack;
pub mod frame;
pub mod heap;
pub mod assoc;
pub mod text;
pub mod instruction;
pub mod profiler;
pub mod runtime;
pub mod profile_text;
