use ppca_mix::component::{Component, ComponentShape};
use ppca_mix::mixture::PPCAMix;

fn mixture_of(counts: &[usize]) -> PPCAMix<(), i64> {
    let mut models = Vec::new();
    let mut weights = Vec::new();
    for &n_parameters in counts {
        models.push(Component {
            shape: ComponentShape { output_size: 3, state_size: 2, n_parameters },
            model: (),
        });
        weights.push(0i64);
    }
    PPCAMix::new(models, weights)
}

#[test]
fn single_component_adds_no_weight_parameter() {
    let mix = mixture_of(&[11]);
    assert_eq!(mix.checked_n_parameters(), Some(11));
    assert_eq!(mix.n_parameters(), 11);
}

#[test]
fn parameters_sum_over_components_plus_weights_but_one() {
    let mix = mixture_of(&[11, 7, 0, 4]);
    assert_eq!(mix.checked_n_parameters(), Some(25));
    assert_eq!(mix.n_parameters(), 25);
}

#[test]
fn equal_components_give_k_times_p_plus_k_minus_one() {
    for k in 1usize..8 {
        for p in [0usize, 1, 5, 1000] {
            let counts = vec![p; k];
            let mix = mixture_of(&counts);
            assert_eq!(mix.n_parameters(), k * p + (k - 1));
            assert_eq!(mix.checked_n_parameters(), Some(k * p + (k - 1)));
        }
    }
}

#[test]
fn largest_count_that_fits() {
    let mix = mixture_of(&[usize::MAX - 4, 1, 1]);
    assert_eq!(mix.checked_n_parameters(), Some(usize::MAX));
    assert_eq!(mix.n_parameters(), usize::MAX);
    let single = mixture_of(&[usize::MAX]);
    assert_eq!(single.checked_n_parameters(), Some(usize::MAX));
}

#[test]
fn count_that_does_not_fit_is_none() {
    let mix = mixture_of(&[usize::MAX - 4, 1, 2]);
    assert_eq!(mix.checked_n_parameters(), None);
    let by_weights = mixture_of(&[usize::MAX - 3, 1, 1]);
    assert_eq!(by_weights.checked_n_parameters(), None);
    let pair = mixture_of(&[usize::MAX, 0]);
    assert_eq!(pair.checked_n_parameters(), None);
    let late = mixture_of(&[1, 2, usize::MAX, 5]);
    assert_eq!(late.checked_n_parameters(), None);
}
