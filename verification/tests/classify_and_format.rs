use fargate_stats_reporter::{
    classify_cloudwatch_error, format_timestamp, Action, DeliveryError, DeliveryFailure, Timestamp,
};

#[test]
fn dispatch_failure_is_retried() {
    let action = classify_cloudwatch_error(DeliveryError::HttpDispatch("boom!".to_owned()));
    assert_eq!(Action::Retry("boom!".to_owned()), action);
}

#[test]
fn internal_service_fault_is_retried() {
    let action = classify_cloudwatch_error(DeliveryError::InternalServiceFault(
        "under maintenance".to_owned(),
    ));
    assert_eq!(Action::Retry("under maintenance".to_owned()), action);
}

#[test]
fn unknown_failure_is_retried_with_its_body() {
    let action = classify_cloudwatch_error(DeliveryError::Unknown("<odd reply>".to_owned()));
    assert_eq!(Action::Retry("<odd reply>".to_owned()), action);
}

#[test]
fn structured_rejection_is_fatal_and_keeps_the_message() {
    let action = classify_cloudwatch_error(DeliveryError::Rejected {
        code: "AccessDenied".to_owned(),
        message: "some message".to_owned(),
    });
    assert_eq!(
        Action::Fail(DeliveryFailure {
            code: "AccessDenied".to_owned(),
            message: "some message".to_owned(),
        }),
        action
    );
}

#[test]
fn formats_timestamps_to_milliseconds_with_numeric_offset() {
    let t = Timestamp {
        year: 2019,
        month: 1,
        day: 7,
        hour: 23,
        minute: 15,
        second: 48,
        nanosecond: 677482816,
        offset_minutes: 0,
    };
    assert_eq!("2019-01-07T23:15:48.677+00:00", format_timestamp(&t));
}

#[test]
fn formats_negative_offsets_and_pads_fields() {
    let t = Timestamp {
        year: 987,
        month: 9,
        day: 5,
        hour: 4,
        minute: 8,
        second: 7,
        nanosecond: 1_999_999,
        offset_minutes: -330,
    };
    assert_eq!("0987-09-05T04:08:07.001-05:30", format_timestamp(&t));
}

#[test]
fn truncates_the_subsecond_part() {
    let t = Timestamp {
        year: 2020,
        month: 12,
        day: 31,
        hour: 23,
        minute: 59,
        second: 59,
        nanosecond: 999_999_999,
        offset_minutes: 90,
    };
    assert_eq!("2020-12-31T23:59:59.999+01:30", format_timestamp(&t));
}
