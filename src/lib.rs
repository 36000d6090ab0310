//! Managed access to LHAPDF data sets: the decisions of the acquisition-and-cache layer.
//!
//! The calls into LHAPDF, the downloads, the file locks and the file system are made by the
//! caller. This crate decides, step by step, what has to happen next: which call to make,
//! when a set has to be fetched or the index refreshed, which archive URL to try, and what
//! the caller finally gets back.

pub mod config;
mod error;
pub mod fetch;
pub mod layout;
pub mod manager;
pub mod member;
pub mod unmanaged;

pub use error::{Error, Result};

use vstd::prelude::*;

verus! {

/// Convert an LHAPDF ID to a set name and member number: the lookup operation for `lhaid`.
pub fn lookup_pdf(lhaid: i32) -> (r: manager::Operation)
    ensures
        r == manager::Operation::new_spec(manager::Call::LookupPdf(lhaid)),
{
    manager::pdf_name_and_member_via_lhaid(lhaid)
}

/// Set LHAPDF's verbosity level: the operation for that call.
pub fn set_verbosity(verbosity: i32) -> (r: manager::Operation)
    ensures
        r == manager::Operation::new_spec(manager::Call::SetVerbosity(verbosity)),
{
    manager::set_verbosity(verbosity)
}

/// Read LHAPDF's verbosity level: the operation for that call.
pub fn verbosity() -> (r: manager::Operation)
    ensures
        r == manager::Operation::new_spec(manager::Call::Verbosity),
{
    manager::verbosity()
}

} // verus!
