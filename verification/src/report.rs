//! What a run hands back: the output and the trace.

use vstd::prelude::*;

verus! {

/// The two texts of a finished run.
pub struct Result {
    output: String,
    log: String,
}

impl Result {
    /// The output as contracts see it.
    pub closed spec fn output_text(&self) -> Seq<char> {
        self.output@
    }

    /// The trace as contracts see it.
    pub closed spec fn log_text(&self) -> Seq<char> {
        self.log@
    }

    /// A result that holds the two texts.
    pub fn new(output: String, log: String) -> (r: Self)
        ensures
            r.output_text() == output@,
            r.log_text() == log@,
    {
        Result { output, log }
    }

    /// What the program printed.
    pub fn output(&self) -> (r: String)
        ensures
            r@ == self.output_text(),
    {
        self.output.clone()
    }

    /// The trace of the run.
    pub fn log(&self) -> (r: String)
        ensures
            r@ == self.log_text(),
    {
        self.log.clone()
    }
}

} // verus!
