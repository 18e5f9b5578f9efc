//! Generation of grouped algorithm inputs.
//!
//! An [`Input`] is the capability the measured algorithms consume: it
//! knows its own size and how to materialise an instance of a requested
//! size from a configuration value (the builder). The [`InputBuilder`]
//! combines an input capability with a size [`Distribution`] and
//! produces an [`InputSet`]: one group of independently generated
//! instances per generated size.

use vstd::prelude::*;

use self::distribution::Distribution;
use crate::Error;

pub mod distribution;

verus! {

/// The capability implemented by the input types of measured algorithms.
pub trait Input: Sized {
    /// The configuration consulted when generating an instance.
    type Builder;

    /// The size of this instance, as a specification value.
    spec fn size_spec(&self) -> usize;

    /// Returns the size of the input.
    fn get_size(&self) -> (r: usize)
        ensures
            r == self.size_spec(),
    ;

    /// Generates an input of the given size, using the given builder.
    /// Nothing is promised of the instance: input generation may be
    /// randomised.
    fn generate_input(size: usize, builder: &Self::Builder) -> Self;
}

/// The generated inputs, grouped by requested size.
pub struct InputSet<I: Input> {
    /// The groups of inputs: every instance of one group was requested
    /// at the same nominal size.
    pub inputs: Vec<Vec<I>>,
}

impl<I: Input> InputSet<I> {
    /// Every group holds at least one instance.
    pub open spec fn wf(&self) -> bool {
        forall|i: int| 0 <= i < self.inputs@.len() ==> (#[trigger] self.inputs@[i])@.len() >= 1
    }
}

/// Builds an [`InputSet`] from a size distribution and an input builder.
pub struct InputBuilder<I: Input, D: Distribution> {
    /// The distribution that generates the input sizes.
    pub distribution: D,
    /// The configuration handed to every input generation.
    pub builder: I::Builder,
}

impl<I: Input, D: Distribution> InputBuilder<I, D> {
    /// Creates a new builder from a size distribution and the input
    /// configuration handed to every generation.
    pub fn new(distribution: D, builder: I::Builder) -> (r: InputBuilder<I, D>)
        ensures
            r.distribution == distribution,
            r.builder == builder,
    {
        InputBuilder { distribution, builder }
    }

    /// Generates `n` groups of one input each.
    pub fn build(&self, n: usize) -> (r: Result<InputSet<I>, Error>)
        requires
            self.distribution.dist_wf(),
        ensures
            match r {
                Ok(s) => n >= 1 && s.inputs@.len() == n && (forall|i: int|
                    0 <= i < n ==> (#[trigger] s.inputs@[i])@.len() == 1) && s.wf(),
                Err(e) => n == 0 && e == Error::InvalidArgument,
            },
    {
        self.build_with_repetitions(n, 1)
    }

    /// Generates `n` groups of `repetitions` independently generated
    /// inputs each; the instances of one group share a nominal size, and
    /// groups follow the order of the generated sizes. Rejects a zero
    /// count and zero repetitions.
    pub fn build_with_repetitions(&self, n: usize, repetitions: usize) -> (r: Result<
        InputSet<I>,
        Error,
    >)
        requires
            self.distribution.dist_wf(),
        ensures
            match r {
                Ok(s) => n >= 1 && repetitions >= 1 && s.inputs@.len() == n && (forall|i: int|
                    0 <= i < n ==> (#[trigger] s.inputs@[i])@.len() == repetitions) && s.wf(),
                Err(e) => (n == 0 || repetitions == 0) && e == Error::InvalidArgument,
            },
    {
        if repetitions == 0 {
            return Err(Error::InvalidArgument);
        }
        let sizes = match self.distribution.generate(n) {
            Ok(sizes) => sizes,
            Err(e) => {
                return Err(e);
            },
        };
        let mut inputs: Vec<Vec<I>> = Vec::new();
        let mut j: usize = 0;
        while j < n
            invariant
                repetitions >= 1,
                sizes@.len() == n,
                j <= n,
                inputs@.len() == j,
                forall|i: int| 0 <= i < j ==> (#[trigger] inputs@[i])@.len() == repetitions,
            decreases n - j,
        {
            let size = sizes[j];
            let mut group: Vec<I> = Vec::new();
            let mut k: usize = 0;
            while k < repetitions
                invariant
                    k <= repetitions,
                    group@.len() == k,
                decreases repetitions - k,
            {
                group.push(I::generate_input(size, &self.builder));
                k = k + 1;
            }
            inputs.push(group);
            j = j + 1;
        }
        Ok(InputSet { inputs })
    }
}

} // verus!
