//! A homeostatic system with set points and current values.
use vstd::prelude::*;

verus! {

/// A homeostatic system: for each regulated variable a set point, a current
/// value and survivable bounds `(min, max)`, and a tolerance for the whole.
#[derive(Clone, Debug)]
pub struct HomeostaticSystem<T> {
    pub set_points: Vec<T>,
    pub current: Vec<T>,
    /// (min, max) for each variable
    pub bounds: Vec<(T, T)>,
    pub tolerance: T,
}

/// The mathematical content of a [`HomeostaticSystem`].
#[verifier::ext_equal]
pub struct SystemView<T> {
    pub set_points: Seq<T>,
    pub current: Seq<T>,
    pub bounds: Seq<(T, T)>,
    pub tolerance: T,
}

impl<T> View for HomeostaticSystem<T> {
    type V = SystemView<T>;

    open spec fn view(&self) -> SystemView<T> {
        SystemView {
            set_points: self.set_points@,
            current: self.current@,
            bounds: self.bounds@,
            tolerance: self.tolerance,
        }
    }
}

impl<T> SystemView<T> {
    /// A fresh system: every variable starts at its set point.
    pub open spec fn fresh(set_points: Seq<T>, bounds: Seq<(T, T)>, tolerance: T) -> Self {
        SystemView { set_points, current: set_points, bounds, tolerance }
    }

    /// Every variable is exactly at its set point.
    pub open spec fn at_set_points(self) -> bool {
        self.current == self.set_points
    }
}

/// A vector holding the same values as `v`.
fn copy_values<T: Copy>(v: &Vec<T>) -> (out: Vec<T>)
    ensures
        out@ == v@,
{
    let mut out: Vec<T> = Vec::new();
    let mut i: usize = 0;
    while i < v.len()
        invariant
            i <= v.len(),
            out@ == v@.take(i as int),
        decreases v.len() - i,
    {
        out.push(v[i]);
        i = i + 1;
        assert(out@ =~= v@.take(i as int));
    }
    assert(v@.take(v.len() as int) =~= v@);
    out
}

impl<T: Copy> HomeostaticSystem<T> {
    /// Creates a system whose variables all start at their set points.
    pub fn new(set_points: Vec<T>, bounds: Vec<(T, T)>, tolerance: T) -> (h: Self)
        ensures
            h@ == SystemView::fresh(set_points@, bounds@, tolerance),
            h@.set_points == set_points@,
            h@.current == set_points@,
            h@.bounds == bounds@,
            h.tolerance == tolerance,
    {
        let current = copy_values(&set_points);
        HomeostaticSystem { set_points, current, bounds, tolerance }
    }
}

/// A freshly created system is at its set points and keeps the given set
/// points, the bounds of each variable in order, and the tolerance.
pub proof fn lemma_fresh_at_set_points<T>(set_points: Seq<T>, bounds: Seq<(T, T)>, tolerance: T)
    ensures
        SystemView::fresh(set_points, bounds, tolerance).at_set_points(),
        SystemView::fresh(set_points, bounds, tolerance).current.len() == set_points.len(),
        SystemView::fresh(set_points, bounds, tolerance).current == set_points,
        SystemView::fresh(set_points, bounds, tolerance).set_points == set_points,
        SystemView::fresh(set_points, bounds, tolerance).bounds == bounds,
        SystemView::fresh(set_points, bounds, tolerance).tolerance == tolerance,
{
}

} // verus!
