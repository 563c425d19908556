//! Generators for two companions of a record declaration: a staged builder
//! and a structured printer.
//!
//! A declaration comes in as a [`record::RecordDecl`]: plain data that holds
//! what the generators read of a `struct`. [`builders::expand_builder`] and
//! [`debugs::expand_debug`] answer with a fragment, one entry per thing to
//! emit, or with a [`fault::GenError`] that points at the construct that was
//! rejected. [`staged`] says what an emitted builder does when it runs.

use vstd::prelude::*;

pub mod types;
pub mod record;
pub mod fault;
pub mod introspect;
pub mod builders;
pub mod staged;
pub mod usage;
pub mod paths;
pub mod bounds;
pub mod clause;
pub mod debugs;
pub mod sample;
