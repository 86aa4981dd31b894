use ppca_mix::component::{Component, ComponentShape};
use ppca_mix::mixture::PPCAMix;
use ppca_mix::table::{blend_terms, check_table, copy_column};

fn mixture(log_weights: Vec<f64>) -> PPCAMix<usize, f64> {
    let mut models = Vec::new();
    for k in 0..log_weights.len() {
        models.push(Component {
            shape: ComponentShape { output_size: 2, state_size: 1, n_parameters: 5 },
            model: k,
        });
    }
    PPCAMix::new(models, log_weights)
}

#[test]
fn check_table_accepts_rows_of_the_width() {
    let table = vec![vec![1.0f64, 2.0, 3.0], vec![4.0, 5.0, 6.0]];
    assert_eq!(check_table(&table, 3), None);
    let empty: Vec<Vec<f64>> = Vec::new();
    assert_eq!(check_table(&empty, 7), None);
    let no_samples: Vec<Vec<f64>> = vec![vec![], vec![]];
    assert_eq!(check_table(&no_samples, 0), None);
}

#[test]
fn check_table_reports_the_first_ragged_row() {
    let table = vec![vec![1.0f64, 2.0, 3.0], vec![4.0, 5.0], vec![6.0]];
    assert_eq!(check_table(&table, 3), Some(1));
    assert_eq!(check_table(&table, 2), Some(0));
    assert_eq!(check_table(&table, 1), Some(0));
}

#[test]
fn column_keeps_the_order_of_the_rows() {
    let table = vec![vec![1.0f64, 2.0, 3.0], vec![4.0, 5.0, 6.0], vec![7.0, 8.0, 9.0]];
    assert_eq!(copy_column(&table, 0), vec![1.0, 4.0, 7.0]);
    assert_eq!(copy_column(&table, 1), vec![2.0, 5.0, 8.0]);
    assert_eq!(copy_column(&table, 2), vec![3.0, 6.0, 9.0]);
    let empty: Vec<Vec<f64>> = Vec::new();
    assert_eq!(copy_column(&empty, 5), Vec::<f64>::new());
}

#[test]
fn column_of_ragged_rows_that_reach_far_enough() {
    let table = vec![vec![1u8, 2, 3], vec![4, 5], vec![6, 7, 8, 9]];
    assert_eq!(copy_column(&table, 1), vec![2, 5, 7]);
}

#[test]
fn scores_pair_each_component_with_its_weight() {
    let mix = mixture(vec![-0.1, -2.5, -3.0]);
    let llks = vec![vec![-10.0f64, -11.0], vec![-20.0, -21.0], vec![-30.0, -31.0]];
    assert_eq!(check_table(&llks, 2), None);
    assert_eq!(mix.scores(&llks, 0), vec![(-10.0, -0.1), (-20.0, -2.5), (-30.0, -3.0)]);
    assert_eq!(mix.scores(&llks, 1), vec![(-11.0, -0.1), (-21.0, -2.5), (-31.0, -3.0)]);
}

#[test]
fn scores_carry_non_finite_values_through() {
    let mix = mixture(vec![f64::NEG_INFINITY, -0.5]);
    let llks = vec![vec![f64::NAN], vec![f64::INFINITY]];
    let pairs = mix.scores(&llks, 0);
    assert_eq!(pairs.len(), 2);
    assert!(pairs[0].0.is_nan());
    assert_eq!(pairs[0].1, f64::NEG_INFINITY);
    assert_eq!(pairs[1], (f64::INFINITY, -0.5));
}

#[test]
fn blend_terms_borrow_the_entries_of_one_sample() {
    let posterior = vec![0.25f64, 0.75];
    let reconstructions = vec![
        vec![vec![1.0f64, 2.0], vec![3.0, 4.0], vec![5.0, 6.0]],
        vec![vec![10.0, 20.0], vec![30.0, 40.0], vec![50.0, 60.0]],
    ];
    let terms = blend_terms(&posterior, &reconstructions, 1);
    assert_eq!(terms.len(), 2);
    assert_eq!(terms[0], (0.25, &vec![3.0, 4.0]));
    assert_eq!(terms[1], (0.75, &vec![30.0, 40.0]));
    assert!(std::ptr::eq(terms[0].1, &reconstructions[0][1]));
    assert!(std::ptr::eq(terms[1].1, &reconstructions[1][1]));
    let last = blend_terms(&posterior, &reconstructions, 2);
    assert_eq!(last[0], (0.25, &vec![5.0, 6.0]));
    assert_eq!(last[1], (0.75, &vec![50.0, 60.0]));
}
