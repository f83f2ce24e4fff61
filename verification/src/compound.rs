//! The compound transform: an ordered pipeline of transform steps run as
//! one component.  Its configuration is valid only when every adjacent
//! pair of steps agrees on the event type flowing between them.

use vstd::prelude::*;

use crate::topology::DataType;

verus! {

/// One step of a compound transform: what it consumes and produces.
#[derive(Clone, Copy, PartialEq, Eq, Structural, Debug)]
pub struct CompoundStep {
    pub input_type: DataType,
    pub output_type: DataType,
}

/// The configuration of a compound transform.
#[derive(Debug)]
pub struct CompoundConfig {
    pub steps: Vec<CompoundStep>,
}

/// Whether one step may feed the next: a log output cannot feed a metric
/// input, nor a metric output a log input.
pub open spec fn spec_pair_consistent(a: CompoundStep, b: CompoundStep) -> bool {
    !((a.output_type is Log && b.input_type is Metric) || (a.output_type is Metric
        && b.input_type is Log))
}

/// Whether every adjacent pair of steps is consistent.
pub open spec fn spec_steps_consistent(steps: Seq<CompoundStep>) -> bool {
    forall|i: int|
        0 <= i && i + 1 < steps.len() ==> spec_pair_consistent(
            #[trigger] steps[i],
            steps[i + 1],
        )
}

impl CompoundConfig {
    /// Whether every adjacent pair of steps agrees on the event type
    /// flowing between them.
    pub fn consistent_types(&self) -> (r: bool)
        ensures
            r <==> spec_steps_consistent(self.steps@),
    {
        let n = self.steps.len();
        if n < 2 {
            return true;
        }
        let mut i: usize = 0;
        while i + 1 < n
            invariant
                i < n,
                n == self.steps@.len(),
                n >= 2,
                forall|k: int|
                    0 <= k < i ==> spec_pair_consistent(
                        #[trigger] self.steps@[k],
                        self.steps@[k + 1],
                    ),
            decreases n - i,
        {
            let a = self.steps[i];
            let b = self.steps[i + 1];
            let bad = (matches!(a.output_type, DataType::Log) && matches!(
                b.input_type,
                DataType::Metric,
            )) || (matches!(a.output_type, DataType::Metric) && matches!(
                b.input_type,
                DataType::Log,
            ));
            if bad {
                return false;
            }
            i = i + 1;
        }
        true
    }

    /// The example configuration shown to users: a compound transform
    /// with no steps yet.
    pub fn generate_config() -> (c: CompoundConfig)
        ensures
            c.steps@.len() == 0,
    {
        CompoundConfig { steps: Vec::new() }
    }

    /// Building the runnable transform demands at least one step and
    /// consistent types; this checks what `build` would enforce.
    pub fn validate_for_build(&self) -> (r: Result<(), String>)
        ensures
            r is Ok <==> self.steps@.len() >= 1 && spec_steps_consistent(self.steps@),
    {
        if !self.consistent_types() {
            return Err(String::from_str("Inconsistent type in a compound transform"));
        }
        if self.steps.is_empty() {
            return Err(String::from_str("must specify at least one transform"));
        }
        Ok(())
    }
}

/// Counts events a compound step failed to process.
#[derive(Clone, Copy, PartialEq, Eq, Structural, Debug)]
pub struct CompoundErrorEvents {
    pub count: usize,
}

impl CompoundErrorEvents {
    /// The value the processing-errors counter grows by.
    pub fn counter_increment(&self) -> (r: u64)
        ensures
            r == self.count as u64,
    {
        self.count as u64
    }
}

/// Marks one event dropped for not matching a step's input type.
#[derive(Clone, Copy, PartialEq, Eq, Structural, Debug)]
pub struct CompoundTypeMismatchEventDropped {}

impl CompoundTypeMismatchEventDropped {
    /// The value the discarded-events counter grows by.
    pub fn counter_increment(&self) -> (r: u64)
        ensures
            r == 1,
    {
        1
    }
}

} // verus!
