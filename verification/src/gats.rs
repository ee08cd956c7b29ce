use std::marker::PhantomData;
use vstd::prelude::*;

verus! {

/// Users configure the analysis through this marker.
pub trait Config {

}

/// A reference to a config is still a config.
impl<P: Config + ?Sized> Config for &P {

}

#[derive(Debug)]
pub struct State;

/// A factory producing one analysis per request.
pub trait Factory {
    type Analysis;

    fn manufacture(&self, state: &State) -> Self::Analysis;
}

/// The analysis a config gives rise to.
#[derive(Debug)]
pub struct Analysis<C> {
    pub config: PhantomData<C>,
}

/// Any user-defined config can manufacture an analysis.
impl<C: Config> Factory for C {
    type Analysis = Analysis<C>;

    fn manufacture(&self, state: &State) -> Analysis<C> {
        Analysis { config: PhantomData }
    }
}

/// No config: the analysis that will not run.
pub struct NoConfig;

pub struct NoAnalysis;

impl Factory for NoConfig {
    type Analysis = NoAnalysis;

    fn manufacture(&self, state: &State) -> NoAnalysis {
        NoAnalysis
    }
}

/// Manufactures one analysis per byte of the code and drops each.
pub fn run_analysis<F: Factory>(code: &[u8], f: F) {
    let state = State;
    let mut i: usize = 0;
    while i < code.len()
        decreases code@.len() - i,
    {
        let _analysis = f.manufacture(&state);
        i = i + 1;
    }
}

} // verus!
