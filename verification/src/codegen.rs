//! Code generation and pretty printing. Both are placeholders that later
//! stages of the compiler fill in: the generator emits nothing yet, and the
//! printer returns its input.

use vstd::prelude::*;
use vstd::string::*;

verus! {

broadcast use vstd::string::group_string_axioms;

/// Generates code from a source text.
pub struct Generator {
    pub source: String,
}

impl Generator {
    /// A generator for `source`.
    pub fn new(source: String) -> (generator: Generator)
        ensures
            generator.source == source,
    {
        Generator { source }
    }

    /// The generated code: empty for every source.
    pub fn generate(&self) -> (code: String)
        ensures
            code@ == Seq::<char>::empty(),
    {
        String::new()
    }
}

/// Prints source text.
pub struct Printer {
    indent: usize,
}

impl Printer {
    /// The number of columns by which nested code is indented.
    pub closed spec fn indent_spec(&self) -> nat {
        self.indent as nat
    }

    /// A printer that does not indent.
    pub fn new() -> (printer: Printer)
        ensures
            printer.indent_spec() == 0,
    {
        Printer { indent: 0 }
    }

    /// The printed form of `source`: the source itself.
    pub fn print(&self, source: &str) -> (printed: String)
        ensures
            printed@ == source@,
    {
        String::from_str(source)
    }
}

} // verus!
