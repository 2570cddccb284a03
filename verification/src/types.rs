//! The types of the language.

use vstd::prelude::*;

verus! {

/// A type of a value.
#[derive(Debug, Clone, Copy, PartialEq, Eq, Structural)]
pub enum Type {
    Int,
    Float,
    String,
    Boolean,
    Void,
}

} // verus!
