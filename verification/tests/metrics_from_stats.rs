use fargate_stats_reporter::{
    metrics_from_stats, Dimension, Metadata, MetadataMap, Metric, MetricRecord, Stats, Timestamp,
};

fn stats() -> Stats {
    Stats {
        container_id: "ze-id".to_owned(),
        metrics: vec![Metric {
            name: "max_usage".to_owned(),
            unit: "Bytes".to_owned(),
            value_bits: 0.25f64.to_bits(),
        }],
        timestamp: Timestamp {
            year: 2019,
            month: 1,
            day: 7,
            hour: 23,
            minute: 15,
            second: 48,
            nanosecond: 677482816,
            offset_minutes: 0,
        },
    }
}

#[test]
fn stats_to_cw_metrics() {
    let mut metrics = Vec::<MetricRecord>::new();
    let stats = vec![stats()];
    let mut metadata = MetadataMap::new();
    metadata.insert(Metadata {
        container_id: "ze-id".to_owned(),
        dimensions: vec![Dimension {
            name: "task".to_owned(),
            value: "some-container".to_owned(),
        }],
    });

    let expected = vec![MetricRecord {
        dimensions: vec![Dimension {
            name: "task".to_owned(),
            value: "some-container".to_owned(),
        }],
        metric_name: "max_usage".to_owned(),
        timestamp: "2019-01-07T23:15:48.677+00:00".to_owned(),
        unit: "Bytes".to_owned(),
        value_bits: 0.25f64.to_bits(),
    }];
    metrics_from_stats(&mut metrics, stats, &metadata);
    assert_eq!(expected, metrics);
}

#[test]
fn container_is_unknown() {
    let mut metrics = Vec::<MetricRecord>::new();
    let stats = vec![stats()];
    let metadata = MetadataMap::new();
    metrics_from_stats(&mut metrics, stats, &metadata);
    assert_eq!(Vec::<MetricRecord>::new(), metrics);
}

#[test]
fn unknown_container_leaves_known_records_alone() {
    let mut metrics = Vec::<MetricRecord>::new();
    let known = stats();
    let mut unknown = stats();
    unknown.container_id = "other-id".to_owned();
    let mut metadata = MetadataMap::new();
    metadata.insert(Metadata {
        container_id: "ze-id".to_owned(),
        dimensions: vec![Dimension {
            name: "task".to_owned(),
            value: "some-container".to_owned(),
        }],
    });
    metrics_from_stats(&mut metrics, vec![unknown, known], &metadata);
    assert_eq!(1, metrics.len());
    assert_eq!("max_usage", metrics[0].metric_name);
    assert_eq!(0.25f64.to_bits(), metrics[0].value_bits);
}
