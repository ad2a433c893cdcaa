use metrics_sqlite::{KeyLookup, MetricKey, MetricsError, NewMetricKey, Scalar};

fn key(id: i64, name: &str, unit: &str, description: &str) -> MetricKey {
    MetricKey {
        id,
        key: name.to_string(),
        unit: unit.to_string(),
        description: description.to_string(),
    }
}

#[test]
fn scalar_zero_is_positive_zero() {
    assert_eq!(Scalar::zero(), Scalar { bits: 0.0f64.to_bits() });
}

#[test]
fn key_by_name_inner_takes_the_first_row_of_that_name() {
    let rows = vec![key(1, "hits", "", ""), key(2, "rate", "", ""), key(3, "rate", "bps", "")];
    assert_eq!(MetricKey::key_by_name_inner("rate", &rows), Ok(key(2, "rate", "", "")));
    assert_eq!(MetricKey::key_by_name_inner("hits", &rows), Ok(key(1, "hits", "", "")));
}

#[test]
fn key_by_name_inner_fails_on_an_unknown_name() {
    let rows = vec![key(1, "hits", "", "")];
    assert_eq!(
        MetricKey::key_by_name_inner("rate", &rows),
        Err(MetricsError::KeyNotFound("rate".to_string()))
    );
    assert_eq!(
        MetricKey::key_by_name_inner("hit", &rows),
        Err(MetricsError::KeyNotFound("hit".to_string()))
    );
}

#[test]
fn key_by_name_inner_fails_on_an_empty_registry() {
    assert_eq!(
        MetricKey::key_by_name_inner("hits", &Vec::new()),
        Err(MetricsError::KeyNotFound("hits".to_string()))
    );
}

#[test]
fn key_by_name_uses_a_key_that_was_found() {
    assert_eq!(
        MetricKey::key_by_name("hits", Ok(key(4, "hits", "", ""))),
        KeyLookup::Found(key(4, "hits", "", ""))
    );
}

#[test]
fn key_by_name_creates_an_unknown_key_with_empty_texts() {
    assert_eq!(
        MetricKey::key_by_name("hits", Err(MetricsError::KeyNotFound("hits".to_string()))),
        KeyLookup::Create(NewMetricKey {
            key: "hits".to_string(),
            unit: String::new(),
            description: String::new(),
        })
    );
}

#[test]
fn key_by_name_gives_up_on_any_other_failure() {
    assert_eq!(
        MetricKey::key_by_name("hits", Err(MetricsError::QueryError("locked".to_string()))),
        KeyLookup::Failed(MetricsError::QueryError("locked".to_string()))
    );
    assert_eq!(
        MetricKey::key_by_name("hits", Err(MetricsError::EmptyDatabase)),
        KeyLookup::Failed(MetricsError::EmptyDatabase)
    );
}

#[test]
fn create_or_update_replaces_what_is_given() {
    let stored = key(7, "net.quality.rate", "bps", "old");
    assert_eq!(
        MetricKey::create_or_update(
            stored.clone(),
            Some("Mbps".to_string()),
            Some("Quality's bit rate".to_string())
        ),
        key(7, "net.quality.rate", "Mbps", "Quality's bit rate")
    );
    assert_eq!(
        MetricKey::create_or_update(stored.clone(), None, Some("new".to_string())),
        key(7, "net.quality.rate", "bps", "new")
    );
    assert_eq!(
        MetricKey::create_or_update(stored.clone(), Some("Mbps".to_string()), None),
        key(7, "net.quality.rate", "Mbps", "old")
    );
    assert_eq!(MetricKey::create_or_update(stored.clone(), None, None), stored);
}

#[test]
fn metric_key_clone_keeps_every_field() {
    let stored = key(7, "net.quality.rate", "bps", "old");
    assert_eq!(stored.clone(), stored);
}
