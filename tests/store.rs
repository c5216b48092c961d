use symbol_stats::store::{KeyedStore, QueryOutcome, Summary};

fn bits(v: &[f64]) -> Vec<u64> {
    v.iter().map(|x| x.to_bits()).collect()
}

fn found(r: QueryOutcome) -> Summary {
    match r {
        QueryOutcome::Found(s) => s,
        other => panic!("expected a summary, got {:?}", other),
    }
}

#[test]
fn unknown_key_is_not_found() {
    let store = KeyedStore::new();
    assert_eq!(store.query_summary(&"NOPE".to_string(), 0), QueryOutcome::NotFound);
}

#[test]
fn empty_batch_creates_an_empty_entry() {
    let mut store = KeyedStore::new();
    let key = "EMPTY".to_string();
    store.ingest_batch(&key, &Vec::new());
    assert!(store.contains_key(&key));
    assert_eq!(store.query_summary(&key, 0), QueryOutcome::Empty);
    assert_eq!(store.query_summary(&key, 5), QueryOutcome::Empty);
}

#[test]
fn three_values_scenario() {
    let mut store = KeyedStore::new();
    let key = "ABC".to_string();
    store.ingest_batch(&key, &bits(&[1.0, 2.0, 3.0]));
    let s = found(store.query_summary(&key, 1));
    assert_eq!(s.min, 1.0f64.to_bits());
    assert_eq!(s.max, 3.0f64.to_bits());
    assert_eq!(s.last, 3.0f64.to_bits());
    assert_eq!(s.count, 3);
    assert_eq!(s.divisor, 3);
}

#[test]
fn truncation_bounds_only_the_divisor() {
    let mut store = KeyedStore::new();
    let key = "T".to_string();
    let values: Vec<f64> = (1..=150).map(|i| i as f64).collect();
    store.ingest_batch(&key, &bits(&values));
    let s = found(store.query_summary(&key, 1));
    assert_eq!(s.divisor, 10);
    assert_eq!(s.count, 150);
    assert_eq!(s.min, 1.0f64.to_bits());
    assert_eq!(s.max, 150.0f64.to_bits());
    assert_eq!(found(store.query_summary(&key, 2)).divisor, 100);
    assert_eq!(found(store.query_summary(&key, 3)).divisor, 150);
    assert_eq!(found(store.query_summary(&key, 0)).divisor, 1);
}

#[test]
fn count_is_the_total_over_batches() {
    let mut store = KeyedStore::new();
    let key = "C".to_string();
    store.ingest_batch(&key, &bits(&[5.0, 6.0]));
    store.ingest_batch(&key, &Vec::new());
    store.ingest_batch(&key, &bits(&[7.0; 23]));
    let s = found(store.query_summary(&key, 2));
    assert_eq!(s.count, 25);
    assert_eq!(s.divisor, 25);
    assert_eq!(s.last, 7.0f64.to_bits());
}

#[test]
fn min_and_max_are_exact() {
    let mut store = KeyedStore::new();
    let key = "M".to_string();
    store.ingest_batch(&key, &bits(&[2.5, -7.25, 1e300, 0.0, -1e-300]));
    store.ingest_batch(&key, &bits(&[f64::NAN, 3.0]));
    let s = found(store.query_summary(&key, 9));
    assert_eq!(s.min, (-7.25f64).to_bits());
    assert_eq!(s.max, 1e300f64.to_bits());
    assert_eq!(s.last, 3.0f64.to_bits());
    assert_eq!(s.count, 7);
}

#[test]
fn only_nan_leaves_infinities() {
    let mut store = KeyedStore::new();
    let key = "N".to_string();
    store.ingest_batch(&key, &bits(&[f64::NAN]));
    let s = found(store.query_summary(&key, 0));
    assert_eq!(s.min, f64::INFINITY.to_bits());
    assert_eq!(s.max, f64::NEG_INFINITY.to_bits());
    assert!(f64::from_bits(s.last).is_nan());
}

#[test]
fn one_thousand_single_value_batches() {
    let mut store = KeyedStore::new();
    let key = "K".to_string();
    for i in (1..=1000).rev() {
        store.ingest_batch(&key, &bits(&[i as f64]));
    }
    let s = found(store.query_summary(&key, 3));
    assert_eq!(s.count, 1000);
    assert_eq!(s.divisor, 1000);
    assert_eq!(s.min, 1.0f64.to_bits());
    assert_eq!(s.max, 1000.0f64.to_bits());
    assert_eq!(s.last, 1.0f64.to_bits());
}

#[test]
fn keys_are_kept_apart() {
    let mut store = KeyedStore::new();
    let a = "A".to_string();
    let b = "B".to_string();
    store.ingest_batch(&a, &bits(&[1.0, 9.0]));
    store.ingest_batch(&b, &bits(&[4.0]));
    assert_eq!(found(store.query_summary(&a, 4)).count, 2);
    let sb = found(store.query_summary(&b, 4));
    assert_eq!(sb.count, 1);
    assert_eq!(sb.min, 4.0f64.to_bits());
    assert!(!store.contains_key(&"C".to_string()));
    assert_eq!(store.query_summary(&"C".to_string(), 0), QueryOutcome::NotFound);
}
