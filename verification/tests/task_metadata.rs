use fargate_stats_reporter::{task_metadata, Container, Dimension, Metadata};
use fargate_stats_reporter::metadata_v2::str_has_prefix;

#[test]
fn task_metadata_no_containers() {
    let metadata = task_metadata(Vec::<Container>::new());
    assert_eq!(0, metadata.len());
    assert_eq!(None, metadata.get(&"ze-id".to_owned()));
}

#[test]
fn with_containers() {
    let containers = vec![
        Container { docker_id: "ze-id".to_owned(), name: "some-container".to_owned() },
        Container { docker_id: "ze-id".to_owned(), name: "~internal~ecs~pause".to_owned() },
    ];
    let metadata = task_metadata(containers);
    assert_eq!(1, metadata.len());
    assert!(metadata.contains_key(&"ze-id".to_owned()));
    assert!(!metadata.contains_key(&"other-id".to_owned()));
    let expected = Metadata {
        container_id: "ze-id".to_owned(),
        dimensions: vec![Dimension {
            name: "task".to_owned(),
            value: "some-container".to_owned(),
        }],
    };
    assert_eq!(Some(&expected), metadata.get(&"ze-id".to_owned()));
}

#[test]
fn later_container_replaces_earlier_one() {
    let containers = vec![
        Container { docker_id: "ze-id".to_owned(), name: "first-name".to_owned() },
        Container { docker_id: "ze-id".to_owned(), name: "second-name".to_owned() },
    ];
    let metadata = task_metadata(containers);
    assert_eq!(1, metadata.len());
    let entry = metadata.get(&"ze-id".to_owned()).unwrap();
    assert_eq!("second-name", entry.dimensions[0].value);
}

#[test]
fn prefix_test_compares_characters() {
    assert!(str_has_prefix("~internal~ecs~pause", "~internal"));
    assert!(!str_has_prefix("~intern", "~internal"));
    assert!(!str_has_prefix("app~internal", "~internal"));
    assert!(str_has_prefix("anything", ""));
}

#[test]
fn internal_marker_must_lead_the_name() {
    let containers = vec![Container {
        docker_id: "ze-id".to_owned(),
        name: "app~internal".to_owned(),
    }];
    let metadata = task_metadata(containers);
    assert_eq!(1, metadata.len());
}
