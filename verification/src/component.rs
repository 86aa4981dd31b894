//! Components of a mixture and the rules a list of them must obey.

use vstd::prelude::*;

verus! {

/// The static descriptors that a mixture reads of one component.
#[derive(Clone, Copy, Debug, PartialEq, Eq, Structural)]
pub struct ComponentShape {
    /// Dimension of the vectors that the component emits.
    pub output_size: usize,
    /// Dimension of the component's latent state.
    pub state_size: usize,
    /// Number of free parameters of the component.
    pub n_parameters: usize,
}

/// One component of a mixture: a model, opaque to this crate, together with
/// its static descriptors.
#[derive(Debug)]
pub struct Component<M> {
    pub shape: ComponentShape,
    pub model: M,
}

impl<M: Clone> Clone for Component<M> {
    /// Clones the model and keeps the descriptors.
    fn clone(&self) -> (copy: Self)
        ensures
            copy.shape == self.shape,
            cloned::<M>(self.model, copy.model),
    {
        Component { shape: self.shape, model: self.model.clone() }
    }
}

/// Why a list of components and a number of log-weights cannot form a mixture.
#[derive(Clone, Copy, Debug, PartialEq, Eq, Structural)]
pub enum LayoutError {
    /// The list of components is empty.
    NoComponents,
    /// There is not exactly one log-weight per component.
    WeightCount { components: usize, weights: usize },
    /// Component `index` emits vectors of dimension `found`, while the
    /// components before it emit vectors of dimension `expected`.
    OutputSize { index: usize, expected: usize, found: usize },
}

/// Every component of `models` emits vectors of dimension `size`.
pub open spec fn uniform_output<M>(models: Seq<Component<M>>, size: usize) -> bool {
    forall|k: int| 0 <= k < models.len() ==> (#[trigger] models[k]).shape.output_size == size
}

/// `index` is the first component whose output dimension differs from that of
/// component 0.
pub open spec fn first_mismatch<M>(models: Seq<Component<M>>, index: int) -> bool {
    &&& 0 < index < models.len()
    &&& models[index].shape.output_size != models[0].shape.output_size
    &&& forall|j: int|
        0 <= j < index ==> (#[trigger] models[j]).shape.output_size
            == models[0].shape.output_size
}

/// `models` with `n_weights` log-weights can form a mixture: there is at
/// least one component, one log-weight per component, and one output
/// dimension for all.
pub open spec fn layout_ok<M>(models: Seq<Component<M>>, n_weights: nat) -> bool {
    &&& models.len() > 0
    &&& n_weights == models.len()
    &&& uniform_output(models, models[0].shape.output_size)
}

/// Decides whether `models` with `n_weights` log-weights can form a mixture,
/// and returns the common output dimension if they can. The three rules are
/// tested in the order of the variants of [`LayoutError`], and the first one
/// broken is reported.
pub fn check_layout<M>(models: &Vec<Component<M>>, n_weights: usize) -> (r: Result<
    usize,
    LayoutError,
>)
    ensures
        r is Ok <==> layout_ok(models@, n_weights as nat),
        match r {
            Ok(size) => size == models@[0].shape.output_size,
            Err(LayoutError::NoComponents) => models@.len() == 0,
            Err(LayoutError::WeightCount { components, weights }) => {
                &&& models@.len() > 0
                &&& n_weights != models@.len()
                &&& components == models@.len()
                &&& weights == n_weights
            },
            Err(LayoutError::OutputSize { index, expected, found }) => {
                &&& models@.len() > 0
                &&& n_weights == models@.len()
                &&& first_mismatch(models@, index as int)
                &&& expected == models@[0].shape.output_size
                &&& found == models@[index as int].shape.output_size
            },
        },
{
    let n: usize = models.len();
    if n == 0 {
        return Err(LayoutError::NoComponents);
    }
    if n_weights != n {
        return Err(LayoutError::WeightCount { components: n, weights: n_weights });
    }
    let expected: usize = models[0].shape.output_size;
    let mut k: usize = 1;
    while k < n
        invariant
            n == models@.len(),
            n_weights == n,
            1 <= k <= n,
            expected == models@[0].shape.output_size,
            forall|j: int| 0 <= j < k ==> (#[trigger] models@[j]).shape.output_size == expected,
        decreases n - k,
    {
        let found: usize = models[k].shape.output_size;
        if found != expected {
            return Err(LayoutError::OutputSize { index: k, expected, found });
        }
        k = k + 1;
    }
    Ok(expected)
}

} // verus!
