//! The mixture: its components, its log-weights, and what is derived from
//! the two without arithmetic on the weights.

use crate::component::{layout_ok, uniform_output, Component};
use crate::table::{reaches, rows};
use vstd::prelude::*;

verus! {

/// A mixture of components of one output dimension, with one log-weight per
/// component.
///
/// `M` is the model of a component and `T` the type of a log-weight; the
/// mixture stores both as it receives them, so it is for the caller to hand
/// in log-weights that are normalized. A value of this type always has at
/// least one component, as many log-weights as components, and components
/// that all emit vectors of dimension `output_size`.
#[derive(Debug)]
pub struct PPCAMix<M, T> {
    output_size: usize,
    models: Vec<Component<M>>,
    log_weights: Vec<T>,
}

/// What a mixture holds, as mathematical values.
pub struct MixView<M, T> {
    pub output_size: usize,
    pub models: Seq<Component<M>>,
    pub log_weights: Seq<T>,
}

/// Sum of the parameter counts of `models`.
pub open spec fn total_parameters<M>(models: Seq<Component<M>>) -> nat
    decreases models.len(),
{
    if models.len() == 0 {
        0
    } else {
        total_parameters(models.drop_last()) + models.last().shape.n_parameters as nat
    }
}

/// The log-likelihood that every component gives to sample `i`, beside the
/// log-weight of that component.
pub open spec fn scores_at<T>(llks: Seq<Seq<T>>, log_weights: Seq<T>, i: int) -> Seq<(T, T)> {
    Seq::new(log_weights.len(), |k: int| (llks[k][i], log_weights[k]))
}

impl<M, T> MixView<M, T> {
    /// The layout rules that every mixture obeys.
    pub open spec fn wf(self) -> bool {
        &&& layout_ok(self.models, self.log_weights.len())
        &&& self.output_size == self.models[0].shape.output_size
    }

    /// The latent dimension of every component, in order.
    pub open spec fn state_sizes(self) -> Seq<usize> {
        Seq::new(self.models.len(), |k: int| self.models[k].shape.state_size)
    }

    /// Free parameters of the mixture: those of the components, and one per
    /// log-weight but one, since the weights are normalized.
    pub open spec fn n_parameters(self) -> int {
        total_parameters(self.models) + self.models.len() - 1
    }

    /// The same mixture over other components.
    pub open spec fn with_models(self, models: Seq<Component<M>>) -> MixView<M, T> {
        MixView { output_size: self.output_size, models, log_weights: self.log_weights }
    }
}

impl<M, T> View for PPCAMix<M, T> {
    type V = MixView<M, T>;

    closed spec fn view(&self) -> MixView<M, T> {
        MixView {
            output_size: self.output_size,
            models: self.models@,
            log_weights: self.log_weights@,
        }
    }
}

/// The total over the first `k` components is at most the total over all.
pub proof fn lemma_total_parameters_prefix<M>(models: Seq<Component<M>>, k: int)
    requires
        0 <= k <= models.len(),
    ensures
        total_parameters(models.take(k)) <= total_parameters(models),
    decreases models.len() - k,
{
    if k == models.len() {
        assert(models.take(k) =~= models);
    } else {
        lemma_total_parameters_prefix(models, k + 1);
        assert(models.take(k + 1).drop_last() =~= models.take(k));
    }
}

impl<M, T> PPCAMix<M, T> {
    #[verifier::type_invariant]
    spec fn inv(self) -> bool {
        self@.wf()
    }

    /// Builds a mixture from its components and log-weights, which are
    /// stored as given.
    pub fn new(models: Vec<Component<M>>, log_weights: Vec<T>) -> (mix: Self)
        requires
            layout_ok(models@, log_weights@.len()),
        ensures
            mix@ == (MixView {
                output_size: models@[0].shape.output_size,
                models: models@,
                log_weights: log_weights@,
            }),
    {
        let output_size: usize = models[0].shape.output_size;
        PPCAMix { output_size, models, log_weights }
    }

    /// The output dimension that all components share.
    pub fn output_size(&self) -> (size: usize)
        ensures
            size == self@.output_size,
            self@.wf(),
    {
        proof {
            use_type_invariant(self);
        }
        self.output_size
    }

    /// The components, in order.
    pub fn models(&self) -> (models: &[Component<M>])
        ensures
            models@ == self@.models,
            self@.wf(),
    {
        proof {
            use_type_invariant(self);
        }
        self.models.as_slice()
    }

    /// The log-weights, one per component, in the order of the components.
    pub fn log_weights(&self) -> (log_weights: &[T])
        ensures
            log_weights@ == self@.log_weights,
            self@.wf(),
    {
        proof {
            use_type_invariant(self);
        }
        self.log_weights.as_slice()
    }

    /// The latent dimension of every component, in order.
    pub fn state_sizes(&self) -> (sizes: Vec<usize>)
        ensures
            sizes@ == self@.state_sizes(),
    {
        let n: usize = self.models.len();
        let mut sizes: Vec<usize> = Vec::with_capacity(n);
        let mut k: usize = 0;
        while k < n
            invariant
                n == self.models@.len(),
                k <= n,
                sizes@.len() == k,
                forall|j: int|
                    0 <= j < k ==> (#[trigger] sizes@[j]) == self.models@[j].shape.state_size,
            decreases n - k,
        {
            sizes.push(self.models[k].shape.state_size);
            k = k + 1;
        }
        assert(sizes@ =~= self@.state_sizes());
        sizes
    }

    /// The number of free parameters of the mixture, or `None` where that
    /// number does not fit in a `usize`.
    pub fn checked_n_parameters(&self) -> (count: Option<usize>)
        ensures
            match count {
                Some(n) => n == self@.n_parameters(),
                None => self@.n_parameters() > usize::MAX,
            },
    {
        proof {
            use_type_invariant(self);
        }
        let n: usize = self.models.len();
        let mut total: usize = n - 1;
        let mut k: usize = 0;
        assert(self.models@.take(0) =~= Seq::<Component<M>>::empty());
        while k < n
            invariant
                n == self.models@.len(),
                n >= 1,
                k <= n,
                total == total_parameters(self.models@.take(k as int)) + n - 1,
            decreases n - k,
        {
            proof {
                assert(self.models@.take(k + 1).drop_last() =~= self.models@.take(k as int));
                lemma_total_parameters_prefix(self.models@, k + 1);
            }
            match total.checked_add(self.models[k].shape.n_parameters) {
                Some(next) => {
                    total = next;
                },
                None => {
                    return None;
                },
            }
            k = k + 1;
        }
        assert(self.models@.take(n as int) =~= self.models@);
        Some(total)
    }

    /// The number of free parameters of the mixture.
    pub fn n_parameters(&self) -> (count: usize)
        requires
            self@.n_parameters() <= usize::MAX,
        ensures
            count == self@.n_parameters(),
    {
        self.checked_n_parameters().unwrap()
    }

    /// The mixture that one step of re-estimation arrives at: `updated`
    /// holds the re-estimated components and `log_weights` their new
    /// log-weights, both in the order of the components of `self`. The
    /// output dimension stays.
    pub fn iterate(&self, updated: Vec<Component<M>>, log_weights: Vec<T>) -> (mix: Self)
        requires
            updated@.len() == self@.models.len(),
            log_weights@.len() == self@.models.len(),
            uniform_output(updated@, self@.output_size),
        ensures
            mix@ == (MixView {
                output_size: self@.output_size,
                models: updated@,
                log_weights: log_weights@,
            }),
    {
        proof {
            use_type_invariant(self);
        }
        PPCAMix { output_size: self.output_size, models: updated, log_weights }
    }
}

impl<M, T: Copy> PPCAMix<M, T> {
    /// Lines up, for sample `i`, the log-likelihood that every component
    /// gives to the sample with the log-weight of that component. Row `k` of
    /// `llks` holds the log-likelihoods under component `k`, one per sample.
    pub fn scores(&self, llks: &Vec<Vec<T>>, i: usize) -> (pairs: Vec<(T, T)>)
        requires
            llks@.len() == self@.models.len(),
            reaches(rows(llks@), i as int),
        ensures
            pairs@ == scores_at(rows(llks@), self@.log_weights, i as int),
    {
        proof {
            use_type_invariant(self);
        }
        let n: usize = self.log_weights.len();
        let mut pairs: Vec<(T, T)> = Vec::with_capacity(n);
        let mut k: usize = 0;
        while k < n
            invariant
                n == self.log_weights@.len(),
                n == llks@.len(),
                k <= n,
                reaches(rows(llks@), i as int),
                pairs@.len() == k,
                forall|j: int|
                    0 <= j < k ==> (#[trigger] pairs@[j]) == (
                        llks@[j]@[i as int],
                        self.log_weights@[j],
                    ),
            decreases n - k,
        {
            assert(0 <= i < rows(llks@)[k as int].len());
            pairs.push((llks[k][i], self.log_weights[k]));
            k = k + 1;
        }
        assert(pairs@ =~= scores_at(rows(llks@), self@.log_weights, i as int));
        pairs
    }

    /// The mixture over the canonical forms of its components: `canonical`
    /// holds them in the order of the components of `self`. Log-weights and
    /// output dimension stay.
    pub fn to_canonical(&self, canonical: Vec<Component<M>>) -> (mix: Self)
        requires
            canonical@.len() == self@.models.len(),
            uniform_output(canonical@, self@.output_size),
        ensures
            mix@ == self@.with_models(canonical@),
    {
        proof {
            use_type_invariant(self);
        }
        let n: usize = self.log_weights.len();
        let mut log_weights: Vec<T> = Vec::with_capacity(n);
        let mut k: usize = 0;
        while k < n
            invariant
                n == self.log_weights@.len(),
                k <= n,
                log_weights@ == self.log_weights@.take(k as int),
            decreases n - k,
        {
            log_weights.push(self.log_weights[k]);
            assert(self.log_weights@.take(k + 1) =~= self.log_weights@.take(k as int).push(
                self.log_weights@[k as int],
            ));
            k = k + 1;
        }
        assert(self.log_weights@.take(n as int) =~= self.log_weights@);
        PPCAMix { output_size: self.output_size, models: canonical, log_weights }
    }
}

impl<M: Clone, T: Clone> Clone for PPCAMix<M, T> {
    /// Clones every component and every log-weight, in order.
    fn clone(&self) -> (copy: Self)
        ensures
            copy@.output_size == self@.output_size,
            copy@.models.len() == self@.models.len(),
            forall|k: int|
                0 <= k < self@.models.len() ==> cloned::<Component<M>>(
                    self@.models[k],
                    #[trigger] copy@.models[k],
                ),
            copy@.log_weights.len() == self@.log_weights.len(),
            forall|k: int|
                0 <= k < self@.log_weights.len() ==> cloned::<T>(
                    self@.log_weights[k],
                    #[trigger] copy@.log_weights[k],
                ),
    {
        proof {
            use_type_invariant(self);
        }
        let models = self.models.clone();
        let log_weights = self.log_weights.clone();
        assert forall|k: int| 0 <= k < models@.len() implies (#[trigger] models@[k]).shape
            == self.models@[k].shape by {
            assert(cloned::<Component<M>>(self.models@[k], models@[k]));
        }
        PPCAMix { output_size: self.output_size, models, log_weights }
    }
}

/// A mixture of `K` components that each have `p` parameters has
/// `K * p + (K - 1)` parameters.
pub proof fn lemma_n_parameters_uniform<M, T>(mix: MixView<M, T>, p: nat)
    requires
        forall|k: int| 0 <= k < mix.models.len() ==> (#[trigger] mix.models[k]).shape.n_parameters == p,
    ensures
        mix.n_parameters() == mix.models.len() * p + (mix.models.len() - 1),
{
    lemma_total_parameters_uniform(mix.models, p);
}

/// Components that each have `p` parameters have `K * p` parameters in all.
pub proof fn lemma_total_parameters_uniform<M>(models: Seq<Component<M>>, p: nat)
    requires
        forall|k: int| 0 <= k < models.len() ==> (#[trigger] models[k]).shape.n_parameters == p,
    ensures
        total_parameters(models) == models.len() * p,
    decreases models.len(),
{
    if models.len() > 0 {
        let head = models.drop_last();
        assert forall|k: int| 0 <= k < head.len() implies (#[trigger] head[k]).shape.n_parameters
            == p by {
            assert(head[k] == models[k]);
        }
        lemma_total_parameters_uniform(head, p);
        assert(models.len() * p == head.len() * p + p) by (nonlinear_arith)
            requires
                models.len() == head.len() + 1,
        ;
    }
}

/// A mixture put over the same components a second time does not change,
/// and a mixture put over other components keeps its log-weights and its
/// output dimension.
pub proof fn lemma_with_models_idempotent<M, T>(mix: MixView<M, T>, models: Seq<Component<M>>)
    ensures
        mix.with_models(models).with_models(models) == mix.with_models(models),
        mix.with_models(models).log_weights == mix.log_weights,
        mix.with_models(models).output_size == mix.output_size,
{
}

} // verus!
