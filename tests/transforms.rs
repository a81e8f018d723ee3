use indexmap::IndexMap;
use vector_core::event::{Event, LogEvent};
use vector_core::metric::{Metric, MetricKind};
use vector_core::number::Number;
use vector_core::tags::MetricTags;
use vector_core::transform::{DataType, FunctionTransform, Transform};
use vector_core::transforms::add_tags::{AddTags, AddTagsConfig};
use vector_core::transforms::filter::{Condition, Filter, FilterConfig, IsLog};
use vector_core::transforms::remap::{Remap, RemapConfig, RemapOutcome};
use vector_core::transforms::remove_tags::{RemoveTags, RemoveTagsConfig};
use vector_core::value::MetricValue;

fn tag_map(pairs: &[(&str, &str)]) -> MetricTags {
    let mut t = MetricTags::new();
    for (k, v) in pairs {
        t.insert(k.to_string(), v.to_string());
    }
    t
}

fn transform_one(t: &mut impl FunctionTransform, event: Event) -> Option<Event> {
    let mut out = Vec::new();
    t.transform(&mut out, event);
    assert!(out.len() <= 1);
    out.pop()
}

struct Always(bool);

impl Condition for Always {
    fn spec_check(&self, _event: Event) -> bool {
        self.0
    }

    fn check(&self, _event: &Event) -> bool {
        self.0
    }
}

#[test]
fn add_tags() {
    let metric = Metric::new("bar", MetricKind::Absolute, MetricValue::Gauge { value: Number::from_int(10) });
    let expected = metric
        .clone()
        .with_tags(Some(tag_map(&[("region", "us-east-1"), ("host", "localhost")])));

    let mut map = IndexMap::new();
    map.insert("region".to_string(), "us-east-1".to_string());
    map.insert("host".to_string(), "localhost".to_string());

    let mut transform = AddTags::new(map, true);
    let event = transform_one(&mut transform, Event::Metric(metric)).unwrap();
    assert_eq!(event, Event::Metric(expected));
}

#[test]
fn add_tags_override() {
    let metric = Metric::new("bar", MetricKind::Absolute, MetricValue::Gauge { value: Number::from_int(10) })
        .with_tags(Some(tag_map(&[("region", "us-east-1")])));
    let expected = metric.clone();

    let mut map = IndexMap::new();
    map.insert("region".to_string(), "overridden".to_string());

    let mut transform = AddTags::new(map, false);
    let event = transform_one(&mut transform, Event::Metric(metric)).unwrap();
    assert_eq!(event, Event::Metric(expected));
}

#[test]
fn add_tags_overwrite_replaces_in_order() {
    let metric = Metric::new("bar", MetricKind::Absolute, MetricValue::Gauge { value: Number::from_int(1) })
        .with_tags(Some(tag_map(&[("region", "us-east-1")])));
    let mut map = IndexMap::new();
    map.insert("region".to_string(), "eu-west-1".to_string());
    map.insert("zone".to_string(), "b".to_string());
    let mut transform = AddTagsConfig { tags: map, overwrite: true }.build();
    let event = transform_one(&mut transform, Event::Metric(metric.clone())).unwrap();
    assert_eq!(
        event,
        Event::Metric(metric.with_tags(Some(tag_map(&[("region", "eu-west-1"), ("zone", "b")]))))
    );
}

#[test]
fn add_no_tags_leaves_absent_tags() {
    let metric = Metric::new("bar", MetricKind::Absolute, MetricValue::Gauge { value: Number::from_int(1) });
    let mut transform = AddTags::new(IndexMap::new(), true);
    let event = transform_one(&mut transform, Event::Metric(metric.clone())).unwrap();
    assert_eq!(event, Event::Metric(metric));
}

#[test]
fn add_tags_config_types() {
    let config = AddTagsConfig { tags: IndexMap::new(), overwrite: false };
    assert_eq!(config.input_type(), DataType::Metric);
    assert_eq!(config.output_type(), DataType::Metric);
}

#[test]
fn filter_generate_config() {
    let config = FilterConfig::generate_config();
    assert_eq!(config.condition.kind, "check_fields");
    assert_eq!(config.condition.options, vec![("message.eq".to_string(), "value".to_string())]);
    assert_eq!(config.input_type(), DataType::Any);
    assert_eq!(config.output_type(), DataType::Any);
}

#[test]
fn passes_metadata() {
    let mut filter = Filter::new(IsLog);
    let mut log = LogEvent::from_message("message");
    log.metadata.add_finalizer(3);
    let event = Event::Log(log);
    let metadata = event.metadata().clone();
    let result = transform_one(&mut filter, event).unwrap();
    assert_eq!(result.metadata(), &metadata);
}

#[test]
fn filter_always_false_drops_everything() {
    let mut filter = Filter::new(Always(false));
    let mut out = Vec::new();
    filter.transform(&mut out, Event::Log(LogEvent::from_message("a")));
    filter.transform(&mut out, Event::Metric(Metric::new("m", MetricKind::Absolute, MetricValue::Counter { value: Number::from_int(1) })));
    assert!(out.is_empty());
}

#[test]
fn filter_always_true_passes_everything() {
    let mut filter = Filter::new(Always(true));
    let events = vec![
        Event::Log(LogEvent::from_message("a")),
        Event::Metric(Metric::new("m", MetricKind::Absolute, MetricValue::Counter { value: Number::from_int(1) })),
    ];
    let mut out = Vec::new();
    for e in events.clone() {
        filter.transform(&mut out, e);
    }
    assert_eq!(out, events);
}

#[test]
fn remap_generate_config() {
    let config = RemapConfig::generate_config();
    assert_eq!(config, RemapConfig { source: String::new(), drop_on_error: false, drop_on_abort: true });
    assert_eq!(config.input_type(), DataType::Any);
    assert_eq!(config.output_type(), DataType::Any);
}

#[test]
fn remap_keeps_copy_only_when_needed() {
    let keep_all = Remap::new(&RemapConfig { source: String::new(), drop_on_error: false, drop_on_abort: false });
    assert!(keep_all.needs_copy(true, false));
    assert!(keep_all.needs_copy(false, true));
    assert!(!keep_all.needs_copy(false, false));
    let drop_all = Remap::new(&RemapConfig { source: String::new(), drop_on_error: true, drop_on_abort: true });
    assert!(!drop_all.needs_copy(true, true));
}

#[test]
fn remap_error_restores_or_drops() {
    let saved = Event::Log(LogEvent::from_message("augment me"));
    let keep = Remap { drop_on_error: false, drop_on_abort: false };
    let mut out = Vec::new();
    assert!(!keep.finish(&mut out, RemapOutcome::Error("bar is a string".to_string()), Some(saved.clone())));
    assert_eq!(out, vec![saved.clone()]);
    assert!(!keep.finish(&mut out, RemapOutcome::Abort, Some(saved.clone())));
    assert_eq!(out, vec![saved.clone(), saved.clone()]);

    let drop = Remap { drop_on_error: true, drop_on_abort: true };
    let mut dropped = Vec::new();
    assert!(drop.finish(&mut dropped, RemapOutcome::Error("bar is a string".to_string()), None));
    assert!(drop.finish(&mut dropped, RemapOutcome::Abort, None));
    assert!(dropped.is_empty());
}

#[test]
fn remap_done_emits_all_events() {
    let policy = Remap { drop_on_error: false, drop_on_abort: true };
    let a = Event::Log(LogEvent::from_message("foo"));
    let b = Event::Log(LogEvent::from_message("bar"));
    let mut out = vec![a.clone()];
    assert!(!policy.finish(&mut out, RemapOutcome::Done(vec![b.clone(), a.clone()]), None));
    assert_eq!(out, vec![a.clone(), b, a]);
}

#[test]
fn remove_tags_generate_config() {
    let config = RemoveTagsConfig::generate_config();
    assert!(config.tags.is_empty());
    assert_eq!(config.input_type(), DataType::Metric);
    assert_eq!(config.output_type(), DataType::Metric);
}

#[test]
fn remove_tags() {
    let metric = Metric::new("foo", MetricKind::Incremental, MetricValue::Counter { value: Number::from_int(10) })
        .with_tags(Some(tag_map(&[("env", "production"), ("region", "us-east-1"), ("host", "127.0.0.1")])));
    let expected = metric.clone().with_tags(Some(tag_map(&[("env", "production")])));

    let mut transform = RemoveTags::new(vec!["region".into(), "host".into()]);
    let metric = transform_one(&mut transform, Event::Metric(metric)).unwrap().into_metric();
    assert_eq!(metric, expected);
}

#[test]
fn remove_all_tags() {
    let metric = Metric::new("foo", MetricKind::Incremental, MetricValue::Counter { value: Number::from_int(10) })
        .with_tags(Some(tag_map(&[("env", "production")])));
    let expected = metric.clone().with_tags(None);

    let mut transform = RemoveTags::new(vec!["env".into()]);
    let metric = transform_one(&mut transform, Event::Metric(metric)).unwrap().into_metric();
    assert_eq!(metric, expected);
}

#[test]
fn remove_tags_from_none() {
    let metric = Metric::new(
        "foo",
        MetricKind::Incremental,
        MetricValue::string_set(vec!["bar".to_string()]),
    );
    let expected = metric.clone().with_tags(None);

    let mut transform = RemoveTagsConfig { tags: vec!["env".into()] }.build();
    let metric = transform_one(&mut transform, Event::Metric(metric)).unwrap().into_metric();
    assert_eq!(metric, expected);
}

#[test]
fn remove_tags_from_empty_map() {
    let metric = Metric::new("foo", MetricKind::Incremental, MetricValue::Counter { value: Number::from_int(1) })
        .with_tags(Some(MetricTags::new()));
    let mut nothing = RemoveTags::new(vec![]);
    let kept = transform_one(&mut nothing, Event::Metric(metric.clone())).unwrap().into_metric();
    assert_eq!(kept, metric.clone());
    let mut some = RemoveTags::new(vec!["x".into()]);
    let cleared = transform_one(&mut some, Event::Metric(metric.clone())).unwrap().into_metric();
    assert_eq!(cleared, metric.with_tags(None));
}

#[test]
fn transform_dispatch() {
    let mut t: Transform<RemoveTags, ()> = Transform::function(RemoveTags::new(vec![]));
    let _f: &mut RemoveTags = t.as_function();
    let _g: RemoveTags = t.into_function();
    let mut task: Transform<RemoveTags, u8> = Transform::task(7);
    assert_eq!(*task.as_task(), 7);
    assert_eq!(task.into_task(), 7);
}

#[test]
fn add_tags_reports_present_names() {
    let metric = Metric::new("bar", MetricKind::Absolute, MetricValue::Gauge { value: Number::from_int(1) })
        .with_tags(Some(tag_map(&[("region", "us-east-1"), ("zone", "a")])));
    let mut map = IndexMap::new();
    map.insert("zone".to_string(), "b".to_string());
    map.insert("host".to_string(), "h".to_string());
    map.insert("region".to_string(), "x".to_string());
    let stage = AddTags::new(map, false);
    assert!(!stage.overwrites());
    let mut out = Vec::new();
    let present = stage.transform_event(&mut out, Event::Metric(metric.clone()));
    assert_eq!(present, vec!["zone".to_string(), "region".to_string()]);
    assert_eq!(
        out,
        vec![Event::Metric(metric.with_tags(Some(tag_map(&[("region", "us-east-1"), ("zone", "a"), ("host", "h")]))))]
    );
}

#[test]
fn filter_reports_verdict() {
    let filter = Filter::new(IsLog);
    let mut out = Vec::new();
    assert!(filter.transform_event(&mut out, Event::Log(LogEvent::from_message("m"))));
    let metric = Event::Metric(Metric::new("m", MetricKind::Absolute, MetricValue::Counter { value: Number::from_int(1) }));
    assert!(!filter.transform_event(&mut out, metric.clone()));
    assert_eq!(out.len(), 1);
    assert!(filter.accepts_event(&metric));
    assert!(!RemoveTags::new(vec![]).accepts_event(&Event::Log(LogEvent::from_message("m"))));
    assert!(AddTags::new(IndexMap::new(), true).accepts_event(&metric));
}
