//! The error values this library's operations report. Failures are
//! always local: a record is dropped, never the host aborted.

use vstd::prelude::*;

verus! {

/// What went wrong while building or delivering one record.
#[derive(Debug)]
pub enum SproutError {
    /// A record could not be assembled as a JSON document.
    Json(String),
    /// The sink refused the finished record.
    Io(String),
}

} // verus!
