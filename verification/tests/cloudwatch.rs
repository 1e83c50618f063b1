use std::cell::RefCell;

use fargate_stats_reporter::{
    report_to_cloudwatch, DeliveryError, Dimension, MetricRecord, MetricSink,
};

enum SinkBehavior {
    Succeed,
    DispatchError(String),
    Reject { code: String, message: String },
}

struct TestSink {
    behavior: SinkBehavior,
    calls: RefCell<Vec<(String, Vec<MetricRecord>)>>,
}

impl TestSink {
    fn new(behavior: SinkBehavior) -> TestSink {
        TestSink { behavior, calls: RefCell::new(Vec::new()) }
    }
}

impl MetricSink for TestSink {
    fn put_metric_data(
        &self,
        namespace: &str,
        batch: &[MetricRecord],
    ) -> Result<(), DeliveryError> {
        self.calls.borrow_mut().push((namespace.to_owned(), batch.to_vec()));
        match &self.behavior {
            SinkBehavior::Succeed => Ok(()),
            SinkBehavior::DispatchError(m) => Err(DeliveryError::HttpDispatch(m.clone())),
            SinkBehavior::Reject { code, message } => Err(DeliveryError::Rejected {
                code: code.clone(),
                message: message.clone(),
            }),
        }
    }
}

fn metric_datum() -> MetricRecord {
    MetricRecord {
        dimensions: vec![Dimension { name: "container".to_owned(), value: "ze-id".to_owned() }],
        metric_name: "max_usage".to_owned(),
        timestamp: "ze-time".to_owned(),
        unit: "Bytes".to_owned(),
        value_bits: 25.0f64.to_bits(),
    }
}

#[test]
fn cloudwatch_posts_metric_data_to_cloudwatch() {
    let cw = TestSink::new(SinkBehavior::Succeed);
    let data = vec![metric_datum()];
    report_to_cloudwatch(&cw, "testing", &data).unwrap();
    let calls = cw.calls.borrow();
    assert_eq!("testing", calls[0].0);
    assert_eq!(25.0f64.to_bits(), calls[0].1[0].value_bits);
}

#[test]
fn cloudwatch_sends_batches_of_20_metrics() {
    let cw = TestSink::new(SinkBehavior::Succeed);
    let data: Vec<MetricRecord> = std::iter::repeat(metric_datum()).take(40).collect();
    report_to_cloudwatch(&cw, "testing", &data).unwrap();
    let calls = cw.calls.borrow();
    assert_eq!(2, calls.len());
    for (namespace, batch) in calls.iter() {
        assert_eq!("testing", namespace);
        assert_eq!(20, batch.len());
        assert_eq!(25.0f64.to_bits(), batch[19].value_bits);
    }
}

#[test]
fn cloudwatch_says_count_items_were_sent() {
    let cw = TestSink::new(SinkBehavior::Succeed);
    let data = vec![metric_datum(), metric_datum()];
    assert_eq!(2, report_to_cloudwatch(&cw, "testing", &data).unwrap());
}

#[test]
fn cloudwatch_says_zero_items_were_processed_on_dispatch_error() {
    let cw = TestSink::new(SinkBehavior::DispatchError("boom!".to_owned()));
    let data = vec![metric_datum()];
    assert_eq!(0, report_to_cloudwatch(&cw, "testing", &data).unwrap());
}

#[test]
fn cloudwatch_cloudwatch_server_side_error_is_readable() {
    let cw = TestSink::new(SinkBehavior::Reject {
        code: "MissingParameter".to_owned(),
        message: "some message".to_owned(),
    });
    let data = vec![metric_datum()];
    match report_to_cloudwatch(&cw, "testing", &data) {
        Ok(_) => panic!("Expected failed request to return err"),
        Err(failure) => assert!(failure.message.contains("some message")),
    };
}
