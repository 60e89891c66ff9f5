use free_energy::homeostasis::HomeostaticSystem;

#[test]
fn test_homeostatic_system_creation() {
    let h = HomeostaticSystem::new(vec![37.0], vec![(35.0, 42.0)], 1.0);
    assert_eq!(h.current[0], 37.0);
}

#[test]
fn new_system_starts_at_set_points() {
    let h = HomeostaticSystem::new(vec![37.0, 100.0], vec![(35.0, 42.0), (90.0, 110.0)], 1.0);
    assert_eq!(h.current, vec![37.0, 100.0]);
    assert_eq!(h.set_points, vec![37.0, 100.0]);
    assert_eq!(h.bounds, vec![(35.0, 42.0), (90.0, 110.0)]);
    assert_eq!(h.tolerance, 1.0);
}

#[test]
fn new_system_keeps_values_when_set_points_are_integers() {
    let h = HomeostaticSystem::new(vec![3i64, -2], vec![(0, 5), (-4, 4)], 1);
    assert_eq!(h.current, h.set_points);
}
