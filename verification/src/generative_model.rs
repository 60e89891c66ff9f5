//! A generative model mapping hidden states to observations.
use vstd::prelude::*;

use crate::filled;
use crate::filled_vec;

verus! {

/// A simple generative model: for each hidden state, a distribution over
/// observations (`likelihood`) and over next states (`transition`), and a prior
/// over states.
#[derive(Clone, Debug)]
pub struct GenerativeModel<T> {
    pub state_dim: usize,
    pub obs_dim: usize,
    /// state -> observation distribution
    pub likelihood: Vec<Vec<T>>,
    /// state -> next state distribution
    pub transition: Vec<Vec<T>>,
    /// prior over states
    pub prior: Vec<T>,
}

/// The mathematical content of a [`GenerativeModel`].
#[verifier::ext_equal]
pub struct ModelView<T> {
    pub state_dim: nat,
    pub obs_dim: nat,
    pub likelihood: Seq<Seq<T>>,
    pub transition: Seq<Seq<T>>,
    pub prior: Seq<T>,
}

/// The rows of a matrix held as a vector of vectors.
pub open spec fn rows<T>(m: Seq<Vec<T>>) -> Seq<Seq<T>> {
    m.map_values(|r: Vec<T>| r@)
}

/// `m` has `n_rows` rows of `n_cols` entries each.
pub open spec fn is_matrix<T>(m: Seq<Seq<T>>, n_rows: nat, n_cols: nat) -> bool {
    &&& m.len() == n_rows
    &&& forall|i: int| 0 <= i < n_rows ==> (#[trigger] m[i]).len() == n_cols
}

impl<T> View for GenerativeModel<T> {
    type V = ModelView<T>;

    open spec fn view(&self) -> ModelView<T> {
        ModelView {
            state_dim: self.state_dim as nat,
            obs_dim: self.obs_dim as nat,
            likelihood: rows(self.likelihood@),
            transition: rows(self.transition@),
            prior: self.prior@,
        }
    }
}

impl<T> ModelView<T> {
    /// Every distribution has the length that the dimensions call for.
    pub open spec fn well_formed(self) -> bool {
        &&& is_matrix(self.likelihood, self.state_dim, self.obs_dim)
        &&& is_matrix(self.transition, self.state_dim, self.state_dim)
        &&& self.prior.len() == self.state_dim
    }

    /// The model with every distribution uniform: each observation row holds
    /// `obs_dim` copies of `uniform_obs`; each transition row and the prior hold
    /// `state_dim` copies of `uniform_state`.
    pub open spec fn uniform(state_dim: nat, obs_dim: nat, uniform_state: T, uniform_obs: T) -> Self {
        ModelView {
            state_dim,
            obs_dim,
            likelihood: filled(state_dim, filled(obs_dim, uniform_obs)),
            transition: filled(state_dim, filled(state_dim, uniform_state)),
            prior: filled(state_dim, uniform_state),
        }
    }

    /// A likelihood row of length `len` may replace the row of `state`.
    pub open spec fn accepts_likelihood(self, state: int, len: nat) -> bool {
        0 <= state < self.state_dim && len == self.obs_dim
    }

    /// A transition row of length `len` may replace the row of `state`.
    pub open spec fn accepts_transition(self, state: int, len: nat) -> bool {
        0 <= state < self.state_dim && len == self.state_dim
    }

    /// A prior of length `len` may replace the prior.
    pub open spec fn accepts_prior(self, len: nat) -> bool {
        len == self.state_dim
    }

    /// The model after a request to set the observation distribution of `state`
    /// to `dist`: replaced where accepted, unchanged otherwise.
    pub open spec fn with_likelihood(self, state: int, dist: Seq<T>) -> Self {
        if self.accepts_likelihood(state, dist.len()) {
            ModelView {
                state_dim: self.state_dim,
                obs_dim: self.obs_dim,
                likelihood: self.likelihood.update(state, dist),
                transition: self.transition,
                prior: self.prior,
            }
        } else {
            self
        }
    }

    /// The model after a request to set the next-state distribution of `state`
    /// to `dist`: replaced where accepted, unchanged otherwise.
    pub open spec fn with_transition(self, state: int, dist: Seq<T>) -> Self {
        if self.accepts_transition(state, dist.len()) {
            ModelView {
                state_dim: self.state_dim,
                obs_dim: self.obs_dim,
                likelihood: self.likelihood,
                transition: self.transition.update(state, dist),
                prior: self.prior,
            }
        } else {
            self
        }
    }

    /// The model after a request to set the prior to `prior`: replaced where
    /// accepted, unchanged otherwise.
    pub open spec fn with_prior(self, prior: Seq<T>) -> Self {
        if self.accepts_prior(prior.len()) {
            ModelView {
                state_dim: self.state_dim,
                obs_dim: self.obs_dim,
                likelihood: self.likelihood,
                transition: self.transition,
                prior,
            }
        } else {
            self
        }
    }

    /// The entry `p(obs | state)`, where the model holds one.
    pub open spec fn likelihood_entry(self, state: int, obs: int) -> Option<T> {
        if 0 <= state < self.likelihood.len() && 0 <= obs < self.likelihood[state].len() {
            Some(self.likelihood[state][obs])
        } else {
            None
        }
    }

    /// The entry `p(state)` of the prior, where the model holds one.
    pub open spec fn prior_entry(self, state: int) -> Option<T> {
        if 0 <= state < self.prior.len() {
            Some(self.prior[state])
        } else {
            None
        }
    }
}

/// `n_rows` rows, each a vector of `n_cols` copies of `v`.
fn filled_rows<T: Copy>(n_rows: usize, n_cols: usize, v: T) -> (out: Vec<Vec<T>>)
    ensures
        rows(out@) == filled(n_rows as nat, filled(n_cols as nat, v)),
{
    let mut out: Vec<Vec<T>> = Vec::new();
    let mut i: usize = 0;
    while i < n_rows
        invariant
            i <= n_rows,
            out@.len() == i,
            forall|k: int| 0 <= k < i ==> (#[trigger] out@[k])@ == filled(n_cols as nat, v),
        decreases n_rows - i,
    {
        let row = filled_vec(n_cols, v);
        out.push(row);
        i = i + 1;
    }
    assert(rows(out@) =~= filled(n_rows as nat, filled(n_cols as nat, v)));
    out
}

impl<T: Copy> GenerativeModel<T> {
    /// Creates a model whose distributions are all uniform. The caller supplies
    /// the uniform weights: `uniform_state` (one over `state_dim`) for the
    /// transitions and the prior, and `uniform_obs` (one over `obs_dim`) for the
    /// likelihoods.
    pub fn new(state_dim: usize, obs_dim: usize, uniform_state: T, uniform_obs: T) -> (m: Self)
        ensures
            m@ == ModelView::uniform(state_dim as nat, obs_dim as nat, uniform_state, uniform_obs),
            m@.well_formed(),
            m.state_dim == state_dim,
            m.obs_dim == obs_dim,
            forall|s: int, o: int|
                0 <= s < state_dim && 0 <= o < obs_dim ==> #[trigger] m@.likelihood[s][o] == uniform_obs,
            forall|s: int, t: int|
                0 <= s < state_dim && 0 <= t < state_dim ==> #[trigger] m@.transition[s][t] == uniform_state,
            forall|s: int| 0 <= s < state_dim ==> #[trigger] m@.prior[s] == uniform_state,
    {
        let m = GenerativeModel {
            state_dim,
            obs_dim,
            likelihood: filled_rows(state_dim, obs_dim, uniform_obs),
            transition: filled_rows(state_dim, state_dim, uniform_state),
            prior: filled_vec(state_dim, uniform_state),
        };
        assert(m@ =~= ModelView::uniform(state_dim as nat, obs_dim as nat, uniform_state, uniform_obs));
        m
    }

    /// Looks up the two factors of the joint probability `p(s, o) = p(o|s) p(s)`:
    /// the likelihood entry and the prior entry, each `None` where the model
    /// holds no such entry.
    pub fn joint_factors(&self, state: usize, obs: usize) -> (r: (Option<T>, Option<T>))
        ensures
            r.0 == self@.likelihood_entry(state as int, obs as int),
            r.1 == self@.prior_entry(state as int),
            r.0 is Some <==> (state < self@.likelihood.len() && obs < self@.likelihood[state as int].len()),
            r.0 is Some ==> r.0->0 == self@.likelihood[state as int][obs as int],
            r.1 is Some <==> state < self@.prior.len(),
            r.1 is Some ==> r.1->0 == self@.prior[state as int],
    {
        let p_obs_given_s = if state < self.likelihood.len() && obs < self.likelihood[state].len() {
            Some(self.likelihood[state][obs])
        } else {
            None
        };
        let p_s = if state < self.prior.len() {
            Some(self.prior[state])
        } else {
            None
        };
        (p_obs_given_s, p_s)
    }
}

impl<T> GenerativeModel<T> {
    /// Sets `p(observation | state)` to `dist`, where `state` is a hidden state of
    /// the model and `dist` has one entry per observation; otherwise leaves the
    /// model as it is.
    pub fn set_likelihood(&mut self, state: usize, dist: Vec<T>)
        requires
            old(self)@.accepts_likelihood(state as int, dist@.len()) ==> state < old(self)@.likelihood.len(),
        ensures
            final(self)@ == old(self)@.with_likelihood(state as int, dist@),
            final(self).state_dim == old(self).state_dim,
            final(self).obs_dim == old(self).obs_dim,
            final(self)@.transition == old(self)@.transition,
            final(self)@.prior == old(self)@.prior,
            state < old(self).state_dim && dist@.len() == old(self).obs_dim ==> final(self)@.likelihood
                == old(self)@.likelihood.update(state as int, dist@),
            !(state < old(self).state_dim && dist@.len() == old(self).obs_dim) ==> final(self)@.likelihood
                == old(self)@.likelihood,
    {
        if state < self.state_dim && dist.len() == self.obs_dim {
            let ghost d = dist@;
            self.likelihood.set(state, dist);
            assert(rows(self.likelihood@) =~= rows(old(self).likelihood@).update(state as int, d));
        }
    }

    /// Sets `p(next_state | state)` to `dist`, where `state` is a hidden state of
    /// the model and `dist` has one entry per state; otherwise leaves the model as
    /// it is.
    pub fn set_transition(&mut self, state: usize, dist: Vec<T>)
        requires
            old(self)@.accepts_transition(state as int, dist@.len()) ==> state < old(self)@.transition.len(),
        ensures
            final(self)@ == old(self)@.with_transition(state as int, dist@),
            final(self).state_dim == old(self).state_dim,
            final(self).obs_dim == old(self).obs_dim,
            final(self)@.likelihood == old(self)@.likelihood,
            final(self)@.prior == old(self)@.prior,
            state < old(self).state_dim && dist@.len() == old(self).state_dim ==> final(self)@.transition
                == old(self)@.transition.update(state as int, dist@),
            !(state < old(self).state_dim && dist@.len() == old(self).state_dim) ==> final(self)@.transition
                == old(self)@.transition,
    {
        if state < self.state_dim && dist.len() == self.state_dim {
            let ghost d = dist@;
            self.transition.set(state, dist);
            assert(rows(self.transition@) =~= rows(old(self).transition@).update(state as int, d));
        }
    }

    /// Sets the prior over states to `prior` where it has one entry per state;
    /// otherwise leaves the model as it is.
    pub fn set_prior(&mut self, prior: Vec<T>)
        ensures
            final(self)@ == old(self)@.with_prior(prior@),
            final(self).state_dim == old(self).state_dim,
            final(self).obs_dim == old(self).obs_dim,
            final(self)@.likelihood == old(self)@.likelihood,
            final(self)@.transition == old(self)@.transition,
            prior@.len() == old(self).state_dim ==> final(self)@.prior == prior@,
            prior@.len() != old(self).state_dim ==> final(self)@.prior == old(self)@.prior,
    {
        if prior.len() == self.state_dim {
            self.prior = prior;
        }
    }

    /// The observation distribution `p(o | state)`.
    pub fn predict_observation(&self, state: usize) -> (r: &[T])
        requires
            state < self@.likelihood.len(),
        ensures
            r@ == self@.likelihood[state as int],
    {
        self.likelihood[state].as_slice()
    }

    /// The next-state distribution `p(s' | state)`.
    pub fn predict_next_state(&self, state: usize) -> (r: &[T])
        requires
            state < self@.transition.len(),
        ensures
            r@ == self@.transition[state as int],
    {
        self.transition[state].as_slice()
    }
}

} // verus!

verus! {

/// A well-formed model takes every accepted update without going out of
/// bounds, and stays well-formed after any update, accepted or not.
pub proof fn lemma_updates_keep_well_formed<T>(m: ModelView<T>, state: int, dist: Seq<T>)
    requires
        m.well_formed(),
    ensures
        m.accepts_likelihood(state, dist.len()) ==> state < m.likelihood.len(),
        m.accepts_transition(state, dist.len()) ==> state < m.transition.len(),
        m.with_likelihood(state, dist).well_formed(),
        m.with_transition(state, dist).well_formed(),
        m.with_prior(dist).well_formed(),
{
    let l = m.with_likelihood(state, dist);
    let t = m.with_transition(state, dist);
    assert forall|i: int| 0 <= i < m.state_dim implies (#[trigger] l.likelihood[i]).len() == m.obs_dim by {
        if m.accepts_likelihood(state, dist.len()) && i != state {
            assert(l.likelihood[i] == m.likelihood[i]);
        }
    }
    assert forall|i: int| 0 <= i < m.state_dim implies (#[trigger] t.transition[i]).len() == m.state_dim by {
        if m.accepts_transition(state, dist.len()) && i != state {
            assert(t.transition[i] == m.transition[i]);
        }
    }
}

/// What an accepted update writes is what the matching lookups read back:
/// the predicted distribution, and each factor of the joint probability.
pub proof fn lemma_update_read_back<T>(m: ModelView<T>, state: int, dist: Seq<T>)
    requires
        m.well_formed(),
    ensures
        m.accepts_likelihood(state, dist.len()) ==> m.with_likelihood(state, dist).likelihood[state] == dist,
        m.accepts_transition(state, dist.len()) ==> m.with_transition(state, dist).transition[state] == dist,
        m.accepts_prior(dist.len()) ==> m.with_prior(dist).prior == dist,
        forall|obs: int|
            m.accepts_likelihood(state, dist.len()) && 0 <= obs < dist.len() ==> #[trigger] m.with_likelihood(
                state,
                dist,
            ).likelihood_entry(state, obs) == Some(dist[obs]),
        forall|s: int|
            m.accepts_prior(dist.len()) && 0 <= s < dist.len() ==> #[trigger] m.with_prior(dist).prior_entry(s)
                == Some(dist[s]),
{
}

/// A refused update leaves the whole model unchanged.
pub proof fn lemma_refused_update_unchanged<T>(m: ModelView<T>, state: int, dist: Seq<T>)
    ensures
        !m.accepts_likelihood(state, dist.len()) ==> m.with_likelihood(state, dist) == m,
        !m.accepts_transition(state, dist.len()) ==> m.with_transition(state, dist) == m,
        !m.accepts_prior(dist.len()) ==> m.with_prior(dist) == m,
{
}

/// An update of one state's row leaves every other row, the other
/// distributions and the dimensions as they were.
pub proof fn lemma_update_is_local<T>(m: ModelView<T>, state: int, other: int, dist: Seq<T>)
    requires
        m.well_formed(),
        other != state,
    ensures
        0 <= other < m.likelihood.len() ==> m.with_likelihood(state, dist).likelihood[other] == m.likelihood[other],
        m.with_likelihood(state, dist).transition == m.transition,
        m.with_likelihood(state, dist).prior == m.prior,
        0 <= other < m.transition.len() ==> m.with_transition(state, dist).transition[other] == m.transition[other],
        m.with_transition(state, dist).likelihood == m.likelihood,
        m.with_transition(state, dist).prior == m.prior,
        m.with_prior(dist).likelihood == m.likelihood,
        m.with_prior(dist).transition == m.transition,
        m.with_likelihood(state, dist).state_dim == m.state_dim,
        m.with_likelihood(state, dist).obs_dim == m.obs_dim,
        m.with_transition(state, dist).state_dim == m.state_dim,
        m.with_transition(state, dist).obs_dim == m.obs_dim,
        m.with_prior(dist).state_dim == m.state_dim,
        m.with_prior(dist).obs_dim == m.obs_dim,
{
}

/// Of two updates of the same row, or of the prior, the second one wins when
/// it is accepted.
pub proof fn lemma_last_update_wins<T>(m: ModelView<T>, state: int, first: Seq<T>, second: Seq<T>)
    requires
        m.well_formed(),
    ensures
        m.accepts_likelihood(state, second.len()) ==> m.with_likelihood(state, first).with_likelihood(state, second)
            == m.with_likelihood(state, second),
        m.accepts_transition(state, second.len()) ==> m.with_transition(state, first).with_transition(state, second)
            == m.with_transition(state, second),
        m.accepts_prior(second.len()) ==> m.with_prior(first).with_prior(second) == m.with_prior(second),
{
    if m.accepts_likelihood(state, second.len()) {
        assert(m.with_likelihood(state, first).with_likelihood(state, second).likelihood =~= m.likelihood.update(state, second));
        assert(m.with_likelihood(state, first).with_likelihood(state, second) =~= m.with_likelihood(state, second));
    }
    if m.accepts_transition(state, second.len()) {
        assert(m.with_transition(state, first).with_transition(state, second).transition =~= m.transition.update(state, second));
        assert(m.with_transition(state, first).with_transition(state, second) =~= m.with_transition(state, second));
    }
}

/// Updates of different distributions may be made in either order.
pub proof fn lemma_updates_commute<T>(m: ModelView<T>, s1: int, d1: Seq<T>, s2: int, d2: Seq<T>, p: Seq<T>)
    ensures
        m.with_likelihood(s1, d1).with_transition(s2, d2) == m.with_transition(s2, d2).with_likelihood(s1, d1),
        m.with_likelihood(s1, d1).with_prior(p) == m.with_prior(p).with_likelihood(s1, d1),
        m.with_transition(s2, d2).with_prior(p) == m.with_prior(p).with_transition(s2, d2),
{
    assert(m.with_likelihood(s1, d1).with_transition(s2, d2) =~= m.with_transition(s2, d2).with_likelihood(s1, d1));
    assert(m.with_likelihood(s1, d1).with_prior(p) =~= m.with_prior(p).with_likelihood(s1, d1));
    assert(m.with_transition(s2, d2).with_prior(p) =~= m.with_prior(p).with_transition(s2, d2));
}

/// An update is accepted exactly when its state is a hidden state of the model
/// and its row has the right length: one entry per observation for a
/// likelihood, one per state for a transition or a prior. Whatever the other
/// dimension is, an accepted row is then the one that is read back.
pub proof fn lemma_update_accepted_exactly<T>(m: ModelView<T>, state: int, dist: Seq<T>)
    requires
        m.well_formed(),
    ensures
        m.accepts_likelihood(state, dist.len()) <==> (0 <= state < m.state_dim && dist.len() == m.obs_dim),
        m.accepts_transition(state, dist.len()) <==> (0 <= state < m.state_dim && dist.len() == m.state_dim),
        m.accepts_prior(dist.len()) <==> dist.len() == m.state_dim,
        0 <= state < m.state_dim && dist.len() == m.obs_dim ==> m.with_likelihood(state, dist).likelihood[state]
            == dist,
        0 <= state < m.state_dim && dist.len() == m.state_dim ==> m.with_transition(state, dist).transition[state]
            == dist,
        dist.len() == m.state_dim ==> m.with_prior(dist).prior == dist,
        !(0 <= state < m.state_dim && dist.len() == m.obs_dim) ==> m.with_likelihood(state, dist) == m,
        !(0 <= state < m.state_dim && dist.len() == m.state_dim) ==> m.with_transition(state, dist) == m,
        dist.len() != m.state_dim ==> m.with_prior(dist) == m,
{
}

/// Every entry of a freshly created model is the uniform weight it was given:
/// `uniform_obs` in each observation row, `uniform_state` in each transition
/// row and in the prior, with `state_dim` rows of the right lengths.
pub proof fn lemma_uniform_entries<T>(state_dim: nat, obs_dim: nat, uniform_state: T, uniform_obs: T)
    ensures
        ModelView::uniform(state_dim, obs_dim, uniform_state, uniform_obs).well_formed(),
        ModelView::uniform(state_dim, obs_dim, uniform_state, uniform_obs).state_dim == state_dim,
        ModelView::uniform(state_dim, obs_dim, uniform_state, uniform_obs).obs_dim == obs_dim,
        forall|s: int, o: int|
            0 <= s < state_dim && 0 <= o < obs_dim ==> #[trigger] ModelView::uniform(
                state_dim,
                obs_dim,
                uniform_state,
                uniform_obs,
            ).likelihood[s][o] == uniform_obs,
        forall|s: int, t: int|
            0 <= s < state_dim && 0 <= t < state_dim ==> #[trigger] ModelView::uniform(
                state_dim,
                obs_dim,
                uniform_state,
                uniform_obs,
            ).transition[s][t] == uniform_state,
        forall|s: int|
            0 <= s < state_dim ==> #[trigger] ModelView::uniform(state_dim, obs_dim, uniform_state, uniform_obs).prior[s]
                == uniform_state,
{
}

} // verus!
