//! Tokens with fixed text.

use crate::kind::SyntaxKind;
use vstd::prelude::*;

verus! {

/// A token whose text is known when the program is written, such as a
/// keyword or an operator.
#[derive(Debug, Clone, Copy, PartialEq, Eq, PartialOrd, Ord, Hash)]
pub struct Token {
    pub kind: SyntaxKind,
    pub text: &'static str,
}

} // verus!
