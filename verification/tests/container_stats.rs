use fargate_stats_reporter::{
    container_stats, MemorySnapshot, Metric, Stats, StatsEntry, Timestamp,
};

fn read_instant() -> Timestamp {
    Timestamp {
        year: 2019,
        month: 1,
        day: 7,
        hour: 23,
        minute: 15,
        second: 48,
        nanosecond: 677482816,
        offset_minutes: 0,
    }
}

#[test]
fn container_stats_no_containers() {
    assert_eq!(Vec::<Stats>::new(), container_stats(Vec::<StatsEntry>::new()));
}

#[test]
fn extrace_container_stats() {
    let entries = vec![StatsEntry {
        container_id: "ze-id".to_owned(),
        snapshot: Some(MemorySnapshot {
            timestamp: read_instant(),
            max_usage_bits: 0.25f64.to_bits(),
            usage_bits: 0.12f64.to_bits(),
        }),
    }];

    let expected = vec![Stats {
        container_id: "ze-id".to_owned(),
        metrics: vec![
            Metric {
                name: "max_usage".to_owned(),
                unit: "Bytes".to_owned(),
                value_bits: 0.25f64.to_bits(),
            },
            Metric {
                name: "usage".to_owned(),
                unit: "Bytes".to_owned(),
                value_bits: 0.12f64.to_bits(),
            },
        ],
        timestamp: read_instant(),
    }];
    assert_eq!(expected, container_stats(entries));
}

#[test]
fn new_container_is_null() {
    let entries = vec![StatsEntry { container_id: "ze-id".to_owned(), snapshot: None }];
    assert_eq!(Vec::<Stats>::new(), container_stats(entries));
}
