use metrics_sqlite::metrics_db::SESSION_TIME_GAP_THRESHOLD;
use metrics_sqlite::{
    DerivMetric, JoinedMetric, Metric, MetricKey, MetricsDb, MetricsError, Scalar, Session, Span,
};

fn number(value: f64) -> Scalar {
    Scalar { bits: value.to_bits() }
}

fn at(secs: u64) -> Span {
    Span::from_secs(secs)
}

fn key(id: i64, name: &str) -> MetricKey {
    MetricKey { id, key: name.to_string(), unit: String::new(), description: String::new() }
}

fn sample(id: i64, secs: u64, key_id: i64, value: f64) -> Metric {
    Metric { id, timestamp: at(secs), metric_key_id: key_id, value: number(value) }
}

fn session(start: u64, end: u64) -> Session {
    Session { start_time: at(start), end_time: at(end), duration: at(end - start) }
}

fn times(secs: &[u64]) -> Vec<Span> {
    secs.iter().map(|s| at(*s)).collect()
}

fn store(keys: Vec<MetricKey>, metrics: Vec<Metric>) -> MetricsDb {
    match MetricsDb::new(keys, metrics) {
        Ok(db) => db,
        Err(e) => panic!("{}", e.message()),
    }
}

/// Two keys; `hits` has the samples 1, 2, 4 and 5, `rate` the sample 3.
fn small_store() -> MetricsDb {
    store(
        vec![key(1, "hits"), key(2, "rate")],
        vec![
            sample(1, 0, 1, 0.0),
            sample(2, 5, 1, 10.0),
            sample(3, 10, 2, 231.2),
            sample(4, 50, 1, 30.0),
            sample(5, 55, 1, 20.0),
        ],
    )
}

/// What a reader of a derived step computes from it.
fn rate(step: &DerivMetric) -> f64 {
    let change = f64::from_bits(step.to_value.bits) - f64::from_bits(step.from_value.bits);
    change / (step.elapsed.nanos as f64 / 1e9)
}

#[test]
fn threshold_is_thirty_seconds() {
    assert_eq!(Span { nanos: SESSION_TIME_GAP_THRESHOLD }, at(30));
}

#[test]
fn session_new_computes_the_duration() {
    assert_eq!(
        Session::new(Span::from_parts(3, 5), Span::from_parts(10, 7)),
        Session {
            start_time: Span::from_parts(3, 5),
            end_time: Span::from_parts(10, 7),
            duration: Span::from_parts(7, 2),
        }
    );
    assert_eq!(Session::new(at(4), at(4)).duration, Span::zero());
}

#[test]
fn session_contains_both_ends() {
    let s = session(10, 20);
    assert!(s.contains(at(10)));
    assert!(s.contains(at(15)));
    assert!(s.contains(at(20)));
    assert!(!s.contains(Span::from_parts(9, 999_999_999)));
    assert!(!s.contains(Span::from_parts(20, 1)));
}

#[test]
fn sessions_split_at_gaps_over_thirty_seconds() {
    assert_eq!(
        MetricsDb::process_sessions(&times(&[0, 5, 10, 50, 55])),
        Ok(vec![session(0, 10), session(50, 55)])
    );
}

#[test]
fn sessions_do_not_split_at_a_gap_of_exactly_thirty_seconds() {
    assert_eq!(
        MetricsDb::process_sessions(&times(&[0, 30, 60])),
        Ok(vec![session(0, 60)])
    );
    let just_over = vec![at(0), Span::from_parts(30, 1)];
    assert_eq!(
        MetricsDb::process_sessions(&just_over),
        Ok(vec![
            session(0, 0),
            Session::new(Span::from_parts(30, 1), Span::from_parts(30, 1)),
        ])
    );
}

#[test]
fn sessions_of_lone_samples() {
    assert_eq!(MetricsDb::process_sessions(&times(&[7])), Ok(vec![session(7, 7)]));
    assert_eq!(
        MetricsDb::process_sessions(&times(&[0, 100, 200])),
        Ok(vec![session(0, 0), session(100, 100), session(200, 200)])
    );
    assert_eq!(
        MetricsDb::process_sessions(&times(&[0, 5, 10, 50])),
        Ok(vec![session(0, 10), session(50, 50)])
    );
}

#[test]
fn sessions_of_samples_at_one_time() {
    assert_eq!(MetricsDb::process_sessions(&times(&[3, 3, 3])), Ok(vec![session(3, 3)]));
}

#[test]
fn sessions_of_no_samples_fail() {
    assert_eq!(MetricsDb::process_sessions(&Vec::new()), Err(MetricsError::EmptyDatabase));
}

#[test]
fn empty_store_is_refused() {
    assert!(matches!(
        MetricsDb::new(vec![key(1, "hits")], Vec::new()),
        Err(MetricsError::EmptyDatabase)
    ));
    assert!(matches!(MetricsDb::new(Vec::new(), Vec::new()), Err(MetricsError::EmptyDatabase)));
}

#[test]
fn samples_out_of_order_are_refused() {
    let refusal = MetricsError::QueryError("samples are not in ascending order of time".to_string());
    assert_eq!(MetricsDb::process_sessions(&times(&[5, 4])), Err(refusal.clone()));
    assert_eq!(MetricsDb::process_sessions(&times(&[1, 2, 1])), Err(refusal.clone()));
    assert_eq!(MetricsDb::process_sessions(&times(&[0, 100, 99, 200])), Err(refusal.clone()));
    match MetricsDb::new(vec![key(1, "hits")], vec![sample(1, 5, 1, 0.0), sample(2, 4, 1, 0.0)]) {
        Err(e) => assert_eq!(e, refusal),
        Ok(_) => panic!("samples out of order were taken in"),
    }
    assert_eq!(metrics_sqlite::metrics_db::OUT_OF_ORDER, "samples are not in ascending order of time");
}

#[test]
fn samples_at_equal_times_are_in_order() {
    let db = store(
        vec![key(1, "hits")],
        vec![sample(1, 5, 1, 0.0), sample(2, 5, 1, 1.0), sample(3, 6, 1, 2.0)],
    );
    assert_eq!(db.sessions(), vec![session(5, 6)]);
}

#[test]
fn store_reports_its_sessions() {
    assert_eq!(small_store().sessions(), vec![session(0, 10), session(50, 55)]);
}

#[test]
fn available_keys_lists_each_name_once() {
    let db = store(
        vec![key(1, "hits"), key(2, "rate"), key(3, "hits"), key(4, "latency")],
        vec![sample(1, 0, 1, 0.0)],
    );
    let mut names = db.available_keys();
    names.sort();
    assert_eq!(names, vec!["hits".to_string(), "latency".to_string(), "rate".to_string()]);
    let none = store(Vec::new(), vec![sample(1, 0, 1, 0.0)]);
    assert_eq!(none.available_keys(), Vec::<String>::new());
}

#[test]
fn metrics_for_key_takes_the_samples_of_that_key() {
    let db = small_store();
    assert_eq!(
        db.metrics_for_key("hits", None),
        Ok(vec![
            sample(1, 0, 1, 0.0),
            sample(2, 5, 1, 10.0),
            sample(4, 50, 1, 30.0),
            sample(5, 55, 1, 20.0),
        ])
    );
    assert_eq!(db.metrics_for_key("rate", None), Ok(vec![sample(3, 10, 2, 231.2)]));
}

#[test]
fn metrics_for_key_keeps_to_the_session() {
    let db = small_store();
    let sessions = db.sessions();
    assert_eq!(
        db.metrics_for_key("hits", Some(&sessions[0])),
        Ok(vec![sample(1, 0, 1, 0.0), sample(2, 5, 1, 10.0)])
    );
    assert_eq!(
        db.metrics_for_key("hits", Some(&sessions[1])),
        Ok(vec![sample(4, 50, 1, 30.0), sample(5, 55, 1, 20.0)])
    );
    assert_eq!(db.metrics_for_key("rate", Some(&sessions[1])), Ok(Vec::new()));
    assert_eq!(
        db.metrics_for_key("hits", Some(&session(5, 50))),
        Ok(vec![sample(2, 5, 1, 10.0), sample(4, 50, 1, 30.0)])
    );
}

#[test]
fn metrics_for_key_of_a_key_without_samples_is_empty_not_a_failure() {
    let db = store(vec![key(1, "hits"), key(2, "idle")], vec![sample(1, 0, 1, 0.0)]);
    assert_eq!(db.metrics_for_key("idle", None), Ok(Vec::new()));
}

#[test]
fn metrics_for_unknown_key_fail() {
    let db = small_store();
    assert_eq!(
        db.metrics_for_key("net.packets", None),
        Err(MetricsError::KeyNotFound("net.packets".to_string()))
    );
    let sessions = db.sessions();
    assert_eq!(
        db.metrics_for_key("Hits", Some(&sessions[0])),
        Err(MetricsError::KeyNotFound("Hits".to_string()))
    );
    let no_keys = store(Vec::new(), vec![sample(1, 0, 1, 0.0)]);
    assert_eq!(
        no_keys.metrics_for_key("hits", None),
        Err(MetricsError::KeyNotFound("hits".to_string()))
    );
    assert_eq!(
        no_keys.deriv_metrics_for_key("hits", None),
        Err(MetricsError::KeyNotFound("hits".to_string()))
    );
}

#[test]
fn derivative_of_two_samples_is_one_step() {
    let db = store(vec![key(1, "x")], vec![sample(1, 0, 1, 0.0), sample(2, 1, 1, 10.0)]);
    let steps = db.deriv_metrics_for_key("x", None).unwrap();
    assert_eq!(
        steps,
        vec![DerivMetric {
            timestamp: at(1),
            key: "x.deriv".to_string(),
            from_value: number(0.0),
            to_value: number(10.0),
            elapsed: at(1),
        }]
    );
    assert_eq!(rate(&steps[0]), 10.0);
}

#[test]
fn derivative_has_one_step_for_each_pair_of_neighbours() {
    let db = small_store();
    let steps = db.deriv_metrics_for_key("hits", None).unwrap();
    assert_eq!(steps.len(), 3);
    assert_eq!(
        steps.iter().map(|s| s.timestamp).collect::<Vec<_>>(),
        vec![at(5), at(50), at(55)]
    );
    assert_eq!(steps.iter().map(rate).collect::<Vec<_>>(), vec![2.0, 20.0 / 45.0, -2.0]);
    assert!(steps.iter().all(|s| s.key == "hits.deriv"));
    let sessions = db.sessions();
    let within = db.deriv_metrics_for_key("hits", Some(&sessions[1])).unwrap();
    assert_eq!(
        within,
        vec![DerivMetric {
            timestamp: at(55),
            key: "hits.deriv".to_string(),
            from_value: number(30.0),
            to_value: number(20.0),
            elapsed: at(5),
        }]
    );
}

#[test]
fn derivative_of_fewer_than_two_samples_is_empty() {
    let db = small_store();
    assert_eq!(db.deriv_metrics_for_key("rate", None), Ok(Vec::new()));
    let sessions = db.sessions();
    assert_eq!(db.deriv_metrics_for_key("rate", Some(&sessions[1])), Ok(Vec::new()));
}

#[test]
fn export_joins_each_sample_with_its_key_name() {
    let db = store(
        vec![key(1, "hits"), key(2, "rate")],
        vec![sample(1, 0, 1, 1.0), sample(2, 5, 2, 2.5), sample(3, 6, 9, 7.0), sample(4, 8, 1, 2.0)],
    );
    let joined = |id: i64, secs: u64, name: &str, value: f64| JoinedMetric {
        id,
        timestamp: at(secs),
        key: name.to_string(),
        value: number(value),
    };
    assert_eq!(
        db.export_rows(),
        vec![joined(1, 0, "hits", 1.0), joined(2, 5, "rate", 2.5), joined(4, 8, "hits", 2.0)]
    );
}

#[test]
fn refresh_takes_in_what_the_store_holds_now() {
    let mut db = small_store();
    let taken = db.refresh(
        vec![key(1, "hits"), key(2, "rate"), key(3, "latency")],
        vec![sample(6, 100, 3, 1.0), sample(7, 101, 3, 3.0)],
    );
    assert_eq!(taken, Ok(()));
    assert_eq!(
        db.metrics_for_key("latency", None),
        Ok(vec![sample(6, 100, 3, 1.0), sample(7, 101, 3, 3.0)])
    );
    assert_eq!(db.metrics_for_key("hits", None), Ok(Vec::new()));
    let mut names = db.available_keys();
    names.sort();
    assert_eq!(names, vec!["hits".to_string(), "latency".to_string(), "rate".to_string()]);
}

#[test]
fn refresh_keeps_the_sessions_of_the_opening() {
    let mut db = small_store();
    assert_eq!(db.refresh(vec![key(1, "hits")], vec![sample(9, 1000, 1, 1.0)]), Ok(()));
    assert_eq!(db.sessions(), vec![session(0, 10), session(50, 55)]);
}

#[test]
fn refresh_takes_in_a_store_that_was_emptied() {
    let mut db = small_store();
    assert_eq!(db.refresh(vec![key(1, "hits")], Vec::new()), Ok(()));
    assert_eq!(db.metrics_for_key("hits", None), Ok(Vec::new()));
    assert_eq!(db.deriv_metrics_for_key("hits", None), Ok(Vec::new()));
    assert_eq!(
        db.metrics_for_key("rate", None),
        Err(MetricsError::KeyNotFound("rate".to_string()))
    );
    assert_eq!(db.export_rows(), Vec::new());
    assert_eq!(db.sessions(), vec![session(0, 10), session(50, 55)]);
}

#[test]
fn refresh_refuses_samples_out_of_order_and_keeps_the_last_reading() {
    let mut db = small_store();
    assert_eq!(
        db.refresh(Vec::new(), vec![sample(1, 5, 1, 0.0), sample(2, 4, 1, 0.0)]),
        Err(MetricsError::QueryError("samples are not in ascending order of time".to_string()))
    );
    assert_eq!(db.metrics_for_key("rate", None), Ok(vec![sample(3, 10, 2, 231.2)]));
}
