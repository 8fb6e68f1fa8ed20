//! The interface of an evaluator.
use crate::error::{LoxError, LoxErrorModel};
use crate::types::{LoxType, ValueModel};
use vstd::prelude::*;

verus! {

/// Something that evaluates inputs of type `T` to values.
pub trait LoxInterpreter<T> {
    /// Whether this evaluator is fit to run.
    spec fn ready(&self) -> bool;

    /// What evaluating `input` gives: a value, or the error met.
    spec fn outcome(&self, input: T) -> Result<ValueModel, LoxErrorModel>;

    /// Evaluates `input`, exactly as [`LoxInterpreter::outcome`] says.
    fn eval(&self, input: T) -> (r: Result<LoxType, LoxError>)
        requires
            self.ready(),
        ensures
            match r {
                Ok(v) => self.outcome(input) == Ok::<ValueModel, LoxErrorModel>(v@),
                Err(e) => self.outcome(input) == Err::<ValueModel, LoxErrorModel>(e@),
            },
    ;
}

} // verus!
