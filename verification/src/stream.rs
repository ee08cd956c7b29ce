use crate::text::push_char;
use vstd::prelude::*;
use vstd::string::StringExecFns;

verus! {

/// A source of number batches: one batch per request index.
pub trait Provider {
    fn get(&self, n: usize) -> Vec<usize>;
}

/// Writes lines, tracking where it stands between calls.
pub struct LineWriter {
    pub state: String,
}

impl LineWriter {
    /// Emits one line's worth of output and rewinds its state.
    pub fn write_newline(&mut self) -> (r: String)
        ensures
            final(self).state@ == "start"@,
            r@ == "foo bar"@,
    {
        self.state = String::from_str("start");
        String::from_str("foo bar")
    }
}

} // verus!
