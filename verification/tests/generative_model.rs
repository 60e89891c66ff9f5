use free_energy::generative_model::GenerativeModel;

fn uniform_model(state_dim: usize, obs_dim: usize) -> GenerativeModel<f64> {
    GenerativeModel::new(state_dim, obs_dim, 1.0 / state_dim as f64, 1.0 / obs_dim as f64)
}

#[test]
fn test_generative_model_creation() {
    let m = uniform_model(3, 2);
    assert_eq!(m.state_dim, 3);
    assert_eq!(m.obs_dim, 2);
}

#[test]
fn test_set_likelihood() {
    let mut m = uniform_model(2, 2);
    m.set_likelihood(0, vec![0.9, 0.1]);
    assert!((m.likelihood[0][0] - 0.9).abs() < 1e-10);
}

#[test]
fn test_set_transition() {
    let mut m = uniform_model(2, 2);
    m.set_transition(0, vec![0.8, 0.2]);
    assert!((m.transition[0][0] - 0.8).abs() < 1e-10);
}

#[test]
fn test_predict_observation() {
    let mut m = uniform_model(2, 3);
    m.set_likelihood(0, vec![0.7, 0.2, 0.1]);
    let obs = m.predict_observation(0);
    assert!((obs[0] - 0.7).abs() < 1e-10);
}

#[test]
fn test_predict_next_state() {
    let mut m = uniform_model(3, 2);
    m.set_transition(0, vec![0.6, 0.3, 0.1]);
    let next = m.predict_next_state(0);
    assert!((next[0] - 0.6).abs() < 1e-10);
}

#[test]
fn test_joint_probability() {
    let mut m = uniform_model(2, 2);
    m.set_likelihood(0, vec![0.8, 0.2]);
    m.set_prior(vec![0.5, 0.5]);
    let (p_obs_given_s, p_s) = m.joint_factors(0, 0);
    let jp = p_obs_given_s.unwrap_or(0.0) * p_s.unwrap_or(0.0);
    assert!((jp - 0.4).abs() < 1e-10);
}

#[test]
fn new_fills_every_distribution_uniformly() {
    let m = GenerativeModel::new(3, 2, 7u32, 9u32);
    assert_eq!(m.likelihood, vec![vec![9, 9], vec![9, 9], vec![9, 9]]);
    assert_eq!(m.transition, vec![vec![7, 7, 7], vec![7, 7, 7], vec![7, 7, 7]]);
    assert_eq!(m.prior, vec![7, 7, 7]);
}

#[test]
fn new_with_no_states_is_empty() {
    let m = GenerativeModel::new(0, 4, 1u8, 2u8);
    assert!(m.likelihood.is_empty());
    assert!(m.transition.is_empty());
    assert!(m.prior.is_empty());
}

#[test]
fn set_likelihood_refuses_unknown_state() {
    let mut m = GenerativeModel::new(2, 2, 1u32, 1u32);
    m.set_likelihood(2, vec![5, 5]);
    assert_eq!(m.likelihood, vec![vec![1, 1], vec![1, 1]]);
}

#[test]
fn set_likelihood_refuses_wrong_length() {
    let mut m = GenerativeModel::new(2, 2, 1u32, 1u32);
    m.set_likelihood(0, vec![5, 5, 5]);
    assert_eq!(m.likelihood, vec![vec![1, 1], vec![1, 1]]);
}

#[test]
fn set_transition_refuses_wrong_length() {
    let mut m = GenerativeModel::new(3, 2, 1u32, 1u32);
    // a row of obs_dim entries is not a next-state distribution
    m.set_transition(1, vec![5, 5]);
    assert_eq!(m.transition, vec![vec![1, 1, 1]; 3]);
}

#[test]
fn set_prior_replaces_or_refuses() {
    let mut m = GenerativeModel::new(2, 3, 1u32, 1u32);
    m.set_prior(vec![4, 6, 0]);
    assert_eq!(m.prior, vec![1, 1]);
    m.set_prior(vec![4, 6]);
    assert_eq!(m.prior, vec![4, 6]);
}

#[test]
fn update_touches_only_its_row() {
    let mut m = GenerativeModel::new(3, 2, 0u32, 0u32);
    m.set_likelihood(1, vec![3, 4]);
    assert_eq!(m.predict_observation(0), &[0, 0]);
    assert_eq!(m.predict_observation(1), &[3, 4]);
    assert_eq!(m.predict_observation(2), &[0, 0]);
    assert_eq!(m.transition, vec![vec![0, 0, 0]; 3]);
    assert_eq!(m.prior, vec![0, 0, 0]);
}

#[test]
fn last_update_wins() {
    let mut m = GenerativeModel::new(2, 2, 0u32, 0u32);
    m.set_transition(0, vec![1, 2]);
    m.set_transition(0, vec![3, 4]);
    assert_eq!(m.predict_next_state(0), &[3, 4]);
    m.set_transition(0, vec![9]);
    assert_eq!(m.predict_next_state(0), &[3, 4]);
}

#[test]
fn joint_factors_out_of_range() {
    let mut m = GenerativeModel::new(2, 2, 0.5f64, 0.5f64);
    m.set_likelihood(1, vec![0.3, 0.7]);
    assert_eq!(m.joint_factors(1, 1), (Some(0.7), Some(0.5)));
    assert_eq!(m.joint_factors(1, 2), (None, Some(0.5)));
    assert_eq!(m.joint_factors(2, 0), (None, None));
}

#[test]
fn updates_commute() {
    let mut a = GenerativeModel::new(2, 2, 0i32, 0i32);
    a.set_likelihood(0, vec![1, 2]);
    a.set_transition(1, vec![3, 4]);
    a.set_prior(vec![5, 6]);
    let mut b = GenerativeModel::new(2, 2, 0i32, 0i32);
    b.set_prior(vec![5, 6]);
    b.set_transition(1, vec![3, 4]);
    b.set_likelihood(0, vec![1, 2]);
    assert_eq!(a.likelihood, b.likelihood);
    assert_eq!(a.transition, b.transition);
    assert_eq!(a.prior, b.prior);
}

#[test]
fn updates_keep_the_shape() {
    let mut m = GenerativeModel::new(3, 2, 0u8, 0u8);
    m.set_likelihood(2, vec![1, 1]);
    m.set_likelihood(1, vec![1]);
    m.set_transition(0, vec![2, 2, 2]);
    m.set_transition(2, vec![2, 2]);
    m.set_prior(vec![3, 3]);
    assert_eq!(m.likelihood.len(), 3);
    assert!(m.likelihood.iter().all(|row| row.len() == 2));
    assert_eq!(m.transition.len(), 3);
    assert!(m.transition.iter().all(|row| row.len() == 3));
    assert_eq!(m.prior.len(), 3);
}

#[test]
fn prior_read_back_through_joint_factors() {
    let mut m = GenerativeModel::new(3, 1, 0u16, 0u16);
    m.set_prior(vec![10, 20, 30]);
    assert_eq!(m.joint_factors(2, 0), (Some(0), Some(30)));
    assert_eq!(m.joint_factors(3, 0), (None, None));
}
