//! An embeddable runtime for an interactive-dialogue bytecode language:
//! a stack-based virtual machine that interprets a compiled program and
//! drives a narrative, one observable event at a time.
//!
//! The embedder holds a [`story::Story`] — a merged, queryable program —
//! and a [`runner::StoryCheckpoint`] marking a resumable position in it.
//! Each call to [`runner::StoryRunner::step`] fetches and executes
//! instructions until one narrative event (a line, an option, a command,
//! completion) is produced, and returns the event together with the next
//! checkpoint.  Scripted function calls dispatch through a
//! [`function::Library`] of built-ins and host-registered functions, and
//! variables live behind the [`variables::VariableStore`] interface.
//!
//! Numbers are IEEE-754 single-precision values carried as their bit
//! patterns, so that every rule of the interpreter is stated and checked
//! over plain integers; the host converts at the boundary.  Two
//! consequences of that design are worth knowing: a number coerced to
//! text is rendered by the software float library, whose output differs
//! from the usual machine formatting on infinities and on magnitudes
//! that call for scientific notation; and a host-registered function
//! receives the node and story but no variable store, since the verifier
//! cannot pass a mutable store through a trait object — variable access
//! belongs to the verified built-ins.

pub mod function;
pub mod model;
pub mod num;
pub mod runner;
pub mod story;
pub mod variables;
