//! A generator that equips a wrapper type around a single-parameter
//! container with a textual parsing routine.
//!
//! The generator reads a structural description of a type declaration,
//! locates the first field whose type carries exactly one type argument,
//! extracts and classifies the `item_separator` annotation, and produces
//! the content of the parsing routine to emit - or a descriptive error
//! tied to the offending source span.  The behaviour of the emitted
//! routine itself - split the input on the separator, parse every piece
//! in order, stop at the first failure - is stated and proved as well.

pub mod decl;
pub mod generator;
pub mod items;
pub mod runtime;
pub mod split;
