//! The position and input of a chain of steps.
//!
//! A chain runs its steps in order, each on the output of the one before.
//! The steps and the values they pass are held by the caller; the cursor
//! here says which step runs next, records how each ended, and decides
//! whether the chain has an output.
use crate::error::Error;
use crate::text::{chars_of, string_from_vec};
use vstd::prelude::*;

verus! {

/// What the chain does next.
#[derive(Debug, PartialEq, Eq, Structural)]
pub enum NextStep {
    /// Every step has run.
    Finished,
    /// There is no input for the next step.
    NoInput,
    /// Run the step at this position.
    Run(usize),
}

/// How far a chain of `step_count` steps has run, and whether it holds a
/// value for the next step (or, at the end, its output).
#[derive(Clone, Copy, Debug)]
pub struct ChainCursor {
    pub step_count: usize,
    pub current_index: usize,
    pub has_value: bool,
}

impl ChainCursor {
    /// A chain of `step_count` steps, before its input is set.
    pub fn new(step_count: usize) -> (res: Self)
        ensures
            res.step_count == step_count,
            res.current_index == 0,
            !res.has_value,
    {
        ChainCursor { step_count, current_index: 0, has_value: false }
    }

    /// One more step at the end.
    pub fn add_step(&mut self)
        requires
            old(self).step_count < usize::MAX,
        ensures
            final(self).step_count == old(self).step_count + 1,
            final(self).current_index == old(self).current_index,
            final(self).has_value == old(self).has_value,
    {
        self.step_count = self.step_count + 1;
    }

    /// The input is set: the chain starts again from its first step.
    pub fn set_input(&mut self)
        ensures
            final(self).step_count == old(self).step_count,
            final(self).current_index == 0,
            final(self).has_value,
    {
        self.current_index = 0;
        self.has_value = true;
    }

    /// What runs next: nothing when every step has run, nothing either
    /// when there is no value to run on, else the step at the position.
    pub fn next_step(&self) -> (res: NextStep)
        ensures
            self.current_index >= self.step_count ==> res == NextStep::Finished,
            self.current_index < self.step_count && !self.has_value ==> res == NextStep::NoInput,
            self.current_index < self.step_count && self.has_value ==> res == NextStep::Run(
                self.current_index,
            ),
    {
        if self.current_index >= self.step_count {
            NextStep::Finished
        } else if !self.has_value {
            NextStep::NoInput
        } else {
            NextStep::Run(self.current_index)
        }
    }

    /// Records how the step at the position ended: after a success the
    /// chain moves on and holds the step's output; after a failure it holds
    /// no value and stays.
    pub fn step_done(&mut self, succeeded: bool)
        requires
            old(self).current_index < old(self).step_count,
        ensures
            final(self).step_count == old(self).step_count,
            succeeded ==> final(self).current_index == old(self).current_index + 1
                && final(self).has_value,
            !succeeded ==> final(self).current_index == old(self).current_index
                && !final(self).has_value,
    {
        if succeeded {
            self.current_index = self.current_index + 1;
            self.has_value = true;
        } else {
            self.has_value = false;
        }
    }

    /// The error of step `index`, named `name`, that found no input.
    pub fn missing_input(index: usize, name: &str) -> (res: Error)
        ensures
            res matches Error::Step { index: i, step_name: Some(n), source } && i == index && n@
                == name@ && *source is NotInput,
    {
        Error::Step {
            index,
            step_name: Some(string_from_vec(chars_of(name))),
            source: Box::new(Error::NotInput),
        }
    }

    /// Whether the chain has an output: every step has run and left one.
    pub fn finalize(&self) -> (res: Result<(), Error>)
        ensures
            self.current_index != self.step_count ==> res matches Err(Error::ChainNotFinalized),
            self.current_index == self.step_count && !self.has_value ==> (res matches Err(
                Error::Step { index: i, step_name: None, source },
            ) && i == self.current_index && (*source matches Error::Step {
                index: j,
                step_name: None,
                source: inner,
            } && j == self.current_index && *inner is NotInput)),
            self.current_index == self.step_count && self.has_value ==> res is Ok,
    {
        if self.current_index != self.step_count {
            Err(Error::ChainNotFinalized)
        } else if !self.has_value {
            Err(
                Error::Step {
                    index: self.current_index,
                    step_name: None,
                    source: Box::new(
                        Error::Step {
                            index: self.current_index,
                            step_name: None,
                            source: Box::new(Error::NotInput),
                        },
                    ),
                },
            )
        } else {
            Ok(())
        }
    }
}

} // verus!
