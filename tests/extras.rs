use vector_core::firehose::RequestError;
use vector_core::metric::MetricKind;
use vector_core::number::Number;
use vector_core::transforms::add_tags::AddTagsConfig;
use vector_core::transforms::filter::FilterConfig;
use vector_core::transforms::remap::RemapConfig;
use vector_core::transforms::remove_tags::RemoveTagsConfig;
use vector_core::value::{zip_buckets, zip_quantiles, zip_samples, Bucket, MetricValue, Quantile, Sample, StatisticKind};

#[test]
fn metric_kind_names_round_trip() {
    assert_eq!(MetricKind::parse("incremental"), Ok(MetricKind::Incremental));
    assert_eq!(MetricKind::parse("absolute"), Ok(MetricKind::Absolute));
    assert_eq!(MetricKind::Incremental.name(), "incremental");
    assert_eq!(MetricKind::Absolute.name(), "absolute");
    assert_eq!(
        MetricKind::parse("gauge"),
        Err("invalid metric kind gauge, metric kind must be `absolute` or `incremental`".to_string())
    );
}

#[test]
fn value_shape_names() {
    assert_eq!(MetricValue::Counter { value: Number::zero() }.shape_name(), "counter");
    assert_eq!(MetricValue::Gauge { value: Number::zero() }.shape_name(), "gauge");
    assert_eq!(MetricValue::string_set(vec![]).shape_name(), "set");
    assert_eq!(
        MetricValue::Distribution { samples: vec![], statistic: StatisticKind::Summary }.shape_name(),
        "distribution"
    );
    assert_eq!(
        MetricValue::AggregatedHistogram { buckets: vec![], count: 0, sum: Number::zero() }.shape_name(),
        "aggregated histogram"
    );
    assert_eq!(
        MetricValue::AggregatedSummary { quantiles: vec![], count: 0, sum: Number::zero() }.shape_name(),
        "aggregated summary"
    );
}

#[test]
fn zips_stop_at_the_shorter_list() {
    let one = Number::from_int(1);
    let two = Number::from_int(2);
    assert_eq!(
        zip_samples(&vec![one, two], &vec![5]),
        vec![Sample { value: one, rate: 5 }]
    );
    assert_eq!(
        zip_buckets(&vec![one], &vec![3, 4]),
        vec![Bucket { upper_limit: one, count: 3 }]
    );
    assert_eq!(
        zip_quantiles(&vec![one, two], &vec![two, one]),
        vec![Quantile { upper_limit: one, value: two }, Quantile { upper_limit: two, value: one }]
    );
}

#[test]
fn firehose_errors() {
    let missing = RequestError::AccessKeyMissing { request_id: "r1".into() };
    assert_eq!(missing.status(), 401);
    assert_eq!(missing.request_id(), Some("r1"));
    let closed = RequestError::ShuttingDown { source: "closed".into(), request_id: "r2".into() };
    assert_eq!(closed.status(), 503);
    assert_eq!(closed.request_id(), Some("r2"));
    let encoding = RequestError::UnsupportedEncoding { encoding: "zip".into(), request_id: "r3".into() };
    assert_eq!(encoding.status(), 400);
    let version = RequestError::UnsupportedProtocolVersion { version: "9".into() };
    assert_eq!(version.status(), 400);
    assert_eq!(version.request_id(), None);
}

#[test]
fn stage_type_names() {
    let add = AddTagsConfig { tags: indexmap::IndexMap::new(), overwrite: true };
    assert_eq!(add.transform_type(), "add_tags");
    assert_eq!(RemoveTagsConfig::generate_config().transform_type(), "remove_tags");
    assert_eq!(FilterConfig::generate_config().transform_type(), "filter");
    assert_eq!(RemapConfig::generate_config().transform_type(), "remap");
}
