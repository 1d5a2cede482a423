//! Errors of the X11 event source.

use vstd::prelude::*;

verus! {

/// Errors surfaced from the X11 layer.
#[derive(Debug)]
pub enum XError {
    /// Connecting to the X server failed.
    Connect(String),
    /// Creating, mapping or selecting input on a window failed.
    Create(String),
}

} // verus!
