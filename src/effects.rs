use vstd::prelude::*;

verus! {

/// A mono effect: one sample in, one sample out. Effects are supplied by
/// the host; each owns its private state (delay lines and the like) and
/// says, through `output`, `after` and `cleared`, what its calls do.
pub trait AudioEffect: Sized {
    type Sample;

    /// What `process` returns for `sample` in the current state.
    spec fn output(&self, sample: Self::Sample) -> Self::Sample;

    /// The effect's state after processing `sample`.
    spec fn after(&self, sample: Self::Sample) -> Self;

    /// The effect's state after `reset`.
    spec fn cleared(&self) -> Self;

    fn process(&mut self, sample: Self::Sample) -> (r: Self::Sample)
        ensures
            r == old(self).output(sample),
            *final(self) == old(self).after(sample);

    /// Clear all internal state.
    fn reset(&mut self)
        ensures
            *final(self) == old(self).cleared();

    fn name(&self) -> &'static str;
}

/// What the first `n` effects of `es` make of `sample`: the sample folded
/// through them in list order, each handed the output of the one before.
pub open spec fn chain_output<E: AudioEffect>(es: Seq<E>, sample: E::Sample, n: int) -> E::Sample
    decreases n,
{
    if n <= 0 {
        sample
    } else {
        es[n - 1].output(chain_output(es, sample, n - 1))
    }
}

/// A serial chain of effects applied to a mono signal. An empty chain passes
/// the signal through unchanged.
pub struct EffectChain<E> {
    pub effects: Vec<E>,
}

impl<E> EffectChain<E> {
    pub fn new() -> (r: EffectChain<E>)
        ensures
            r.effects@.len() == 0,
    {
        EffectChain { effects: Vec::new() }
    }

    pub fn is_empty(&self) -> (r: bool)
        ensures
            r == (self.effects@.len() == 0),
    {
        self.effects.len() == 0
    }
}

impl<E: AudioEffect> EffectChain<E> {
    /// Run `sample` through every effect in list order, each one handed the
    /// output of the one before and processing exactly that one sample. With
    /// no effects the sample comes back as it is.
    pub fn process(&mut self, sample: E::Sample) -> (r: E::Sample)
        ensures
            r == chain_output(old(self).effects@, sample, old(self).effects@.len() as int),
            old(self).effects@.len() == 0 ==> r == sample && final(self).effects@ == old(self).effects@,
            final(self).effects@.len() == old(self).effects@.len(),
            forall|i: int|
                0 <= i < old(self).effects@.len() ==> final(self).effects@[i] == old(
                    self,
                ).effects@[i].after(chain_output(old(self).effects@, sample, i)),
    {
        let n = self.effects.len();
        if n == 0 {
            return sample;
        }
        let mut x = sample;
        let mut i: usize = 0;
        while i < n
            invariant
                i <= n,
                n == old(self).effects@.len(),
                self.effects@.len() == n,
                x == chain_output(old(self).effects@, sample, i as int),
                forall|k: int| i <= k < n ==> self.effects@[k] == old(self).effects@[k],
                forall|k: int|
                    0 <= k < i ==> self.effects@[k] == old(self).effects@[k].after(
                        chain_output(old(self).effects@, sample, k),
                    ),
            decreases n - i,
        {
            x = self.effects[i].process(x);
            i = i + 1;
        }
        x
    }

    /// Reset every effect, keeping them all in the chain, in order.
    pub fn reset_all(&mut self)
        ensures
            final(self).effects@.len() == old(self).effects@.len(),
            forall|i: int|
                0 <= i < old(self).effects@.len() ==> final(self).effects@[i] == old(self).effects@[i].cleared(),
    {
        let n = self.effects.len();
        let mut i: usize = 0;
        while i < n
            invariant
                i <= n,
                n == old(self).effects@.len(),
                self.effects@.len() == n,
                forall|k: int| i <= k < n ==> self.effects@[k] == old(self).effects@[k],
                forall|k: int| 0 <= k < i ==> self.effects@[k] == old(self).effects@[k].cleared(),
            decreases n - i,
        {
            self.effects[i].reset();
            i = i + 1;
        }
    }
}

impl<E> Default for EffectChain<E> {
    fn default() -> (r: EffectChain<E>)
        ensures
            r.effects@.len() == 0,
    {
        EffectChain::new()
    }
}

} // verus!
