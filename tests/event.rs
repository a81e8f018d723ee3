use vector_core::event::{Event, EventMetadata, LogEvent};
use vector_core::metric::{Metric, MetricKind};
use vector_core::number::Number;
use vector_core::value::MetricValue;

fn counter() -> Metric {
    Metric::new("c", MetricKind::Incremental, MetricValue::Counter { value: Number::from_int(1) })
}

#[test]
fn metadata_bookkeeping() {
    let mut m = counter();
    m.add_finalizer(4);
    m.add_finalizer(9);
    let m = m.with_batch_notifier(2);
    assert_eq!(m.metadata().finalizers(), &vec![4u64, 9]);
    assert_eq!(m.metadata().batch_notifier(), Some(2));
    let copy = m.clone();
    assert_eq!(copy.metadata(), m.metadata());
}

#[test]
fn parts_round_trip() {
    let mut metadata = EventMetadata::new();
    metadata.add_finalizer(1);
    let m = Metric::new_with_metadata("c", MetricKind::Absolute, MetricValue::Gauge { value: Number::from_int(3) }, metadata)
        .with_name("renamed")
        .with_namespace(Some("ns"));
    let (series, data, metadata) = m.clone().into_parts();
    assert_eq!(Metric::from_parts(series, data, metadata), m);
    assert_eq!(m.name(), "renamed");
    assert_eq!(m.namespace(), Some("ns"));
    assert_eq!(m.clone().with_namespace(None).namespace(), None);
}

#[test]
fn event_variants() {
    let log = Event::from_log(LogEvent::from_message("hello"));
    assert!(log.is_log());
    assert!(!log.is_metric());
    assert_eq!(log.clone().into_log().fields, vec![("message".to_string(), "hello".to_string())]);

    let mut metric = Event::from_metric(counter());
    assert!(metric.is_metric());
    metric.as_mut_metric().set_tag_value("k".into(), "v".into());
    assert_eq!(metric.as_metric().tag_value("k"), Some("v".to_string()));

    let mut metadata = EventMetadata::new();
    metadata.add_finalizer(5);
    metric.set_metadata(metadata.clone());
    assert_eq!(metric.metadata(), &metadata);
    assert_eq!(metric.into_metric().metadata, metadata);
}
