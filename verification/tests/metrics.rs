use matrix_engine::AmapMetrics;
use matrix_engine::MetricsError;

fn names(list: &[&str]) -> Vec<String> {
    list.iter().map(|s| s.to_string()).collect()
}

#[test]
fn counters_start_at_zero() {
    let m = AmapMetrics::new(names(&["req", "err"]));
    assert_eq!(m.names.len(), 2);
    assert_eq!(m.counts, vec![0, 0]);
}

#[test]
fn duplicate_names_are_registered_once() {
    let m = AmapMetrics::new(names(&["a", "b", "a", "c", "b"]));
    assert_eq!(m.names, names(&["a", "b", "c"]));
    assert_eq!(m.counts, vec![0, 0, 0]);
}

#[test]
fn incr_and_decr_move_the_right_counter() {
    let mut m = AmapMetrics::new(names(&["req", "err"]));
    m.incr(&"req".to_string()).unwrap();
    m.incr(&"req".to_string()).unwrap();
    m.incr(&"err".to_string()).unwrap();
    m.decr(&"err".to_string()).unwrap();
    m.decr(&"err".to_string()).unwrap();
    assert_eq!(m.counts, vec![2, -1]);
}

#[test]
fn unknown_key_is_reported_and_changes_nothing() {
    let mut m = AmapMetrics::new(names(&["req"]));
    assert_eq!(m.incr(&"nope".to_string()).unwrap_err(), MetricsError::KeyNotFound);
    assert_eq!(m.decr(&"nope".to_string()).unwrap_err(), MetricsError::KeyNotFound);
    assert_eq!(m.counts, vec![0]);
}

#[test]
fn counters_wrap_at_the_edges() {
    let mut m = AmapMetrics {
        names: names(&["edge"]),
        counts: vec![i64::MAX],
    };
    m.incr(&"edge".to_string()).unwrap();
    assert_eq!(m.counts, vec![i64::MIN]);
    m.decr(&"edge".to_string()).unwrap();
    assert_eq!(m.counts, vec![i64::MAX]);
}

#[test]
fn render_lists_counters_in_registration_order() {
    let mut m = AmapMetrics::new(names(&["req", "err"]));
    m.incr(&"req".to_string()).unwrap();
    m.incr(&"req".to_string()).unwrap();
    m.decr(&"err".to_string()).unwrap();
    assert_eq!(m.render(), "req: 2\nerr: -1\n");
}

#[test]
fn clone_copies_the_counters() {
    let mut m = AmapMetrics::new(names(&["req"]));
    m.incr(&"req".to_string()).unwrap();
    let copy = m.clone();
    assert_eq!(copy.counts, vec![1]);
}

#[test]
fn empty_metrics_render_nothing() {
    let m = AmapMetrics::new(Vec::new());
    assert_eq!(m.render(), "");
}
