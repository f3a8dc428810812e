//! Typed codec between taskwarrior-style JSON task records and an in-memory
//! task model.
//!
//! JSON objects with a fixed core schema plus an open-ended bag of
//! user-defined attributes (UDAs) are decoded into strongly typed [`task::Task`]
//! values and encoded back, preserving round-trip fidelity. Two historical
//! wire formats for the `depends` field (a comma-joined string, and a JSON
//! array of UUID strings) are selected through the [`task::TaskWarriorVersion`]
//! marker types.

pub mod annotation;
pub mod codec;
pub mod date;
pub mod error;
pub mod import;
pub mod json;
pub mod laws;
pub mod priority;
pub mod project;
pub mod reader;
pub mod status;
pub mod strutil;
pub mod tag;
pub mod task;
pub mod uda;
pub mod urgency;
pub mod uuid;

use vstd::prelude::*;

verus! {

} // verus!
