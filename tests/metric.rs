use vector_core::event::EventMetadata;
use vector_core::metric::{Metric, MetricKind};
use vector_core::number::Number;
use vector_core::tags::MetricTags;
use vector_core::time::Timestamp;
use vector_core::value::{Bucket, MetricValue, Quantile, Sample, StatisticKind};

fn ts() -> Timestamp {
    Timestamp::from_unix(1_542_182_950, 11).unwrap()
}

fn tags() -> MetricTags {
    let mut t = MetricTags::new();
    t.insert("normal_tag".to_owned(), "value".to_owned());
    t.insert("true_tag".to_owned(), "true".to_owned());
    t.insert("empty_tag".to_owned(), "".to_owned());
    t
}

fn num(n: i64) -> Number {
    Number::from_int(n)
}

fn strings(items: &[&str]) -> Vec<String> {
    items.iter().map(|s| s.to_string()).collect()
}

fn set_members(v: &MetricValue) -> Vec<String> {
    match v {
        MetricValue::StringSet { values } => values.clone(),
        _ => panic!("not a set"),
    }
}

#[test]
fn merge_counters() {
    let mut counter = Metric::new("counter", MetricKind::Incremental, MetricValue::Counter { value: num(1) });
    let delta = Metric::new("counter", MetricKind::Incremental, MetricValue::Counter { value: num(2) })
        .with_namespace(Some("vector"))
        .with_tags(Some(tags()))
        .with_timestamp(Some(ts()));
    let expected = counter
        .clone()
        .with_value(MetricValue::Counter { value: num(3) })
        .with_timestamp(Some(ts()));
    assert!(counter.data.add(&delta.data));
    assert_eq!(counter, expected);
}

#[test]
fn merge_gauges() {
    let mut gauge = Metric::new("gauge", MetricKind::Incremental, MetricValue::Gauge { value: num(1) });
    let delta = Metric::new("gauge", MetricKind::Incremental, MetricValue::Gauge { value: num(-2) })
        .with_namespace(Some("vector"))
        .with_tags(Some(tags()))
        .with_timestamp(Some(ts()));
    let expected = gauge
        .clone()
        .with_value(MetricValue::Gauge { value: num(-1) })
        .with_timestamp(Some(ts()));
    assert!(gauge.data.add(&delta.data));
    assert_eq!(gauge, expected);
}

#[test]
fn merge_sets() {
    let mut set = Metric::new("set", MetricKind::Incremental, MetricValue::string_set(strings(&["old"])));
    let delta = Metric::new("set", MetricKind::Incremental, MetricValue::string_set(strings(&["new"])))
        .with_namespace(Some("vector"))
        .with_tags(Some(tags()))
        .with_timestamp(Some(ts()));
    let expected = set
        .clone()
        .with_value(MetricValue::string_set(strings(&["old", "new"])))
        .with_timestamp(Some(ts()));
    assert!(set.data.add(&delta.data));
    assert_eq!(set, expected);
}

#[test]
fn merge_histograms() {
    let mut dist = Metric::new(
        "hist",
        MetricKind::Incremental,
        MetricValue::Distribution {
            samples: vec![Sample { value: num(1), rate: 10 }],
            statistic: StatisticKind::Histogram,
        },
    );
    let delta = Metric::new(
        "hist",
        MetricKind::Incremental,
        MetricValue::Distribution {
            samples: vec![Sample { value: num(1), rate: 20 }],
            statistic: StatisticKind::Histogram,
        },
    )
    .with_namespace(Some("vector"))
    .with_tags(Some(tags()))
    .with_timestamp(Some(ts()));
    let expected = dist
        .clone()
        .with_value(MetricValue::Distribution {
            samples: vec![Sample { value: num(1), rate: 10 }, Sample { value: num(1), rate: 20 }],
            statistic: StatisticKind::Histogram,
        })
        .with_timestamp(Some(ts()));
    assert!(dist.data.add(&delta.data));
    assert_eq!(dist, expected);
}

#[test]
fn display() {
    assert_eq!(
        Metric::new("one", MetricKind::Absolute, MetricValue::Counter { value: Number::decimal(123, 2) })
            .with_tags(Some(tags()))
            .to_string(),
        r#"one{empty_tag="",normal_tag="value",true_tag="true"} = 1.23"#
    );

    assert_eq!(
        Metric::new("two word", MetricKind::Incremental, MetricValue::Gauge { value: num(2) })
            .with_timestamp(Some(ts()))
            .to_string(),
        r#"2018-11-14T08:09:10.000000011Z "two word"{} + 2"#
    );

    assert_eq!(
        Metric::new("namespace", MetricKind::Absolute, MetricValue::Counter { value: Number::decimal(123, 2) })
            .with_namespace(Some("vector"))
            .to_string(),
        r#"vector_namespace{} = 1.23"#
    );

    assert_eq!(
        Metric::new("namespace", MetricKind::Absolute, MetricValue::Counter { value: Number::decimal(123, 2) })
            .with_namespace(Some("vector host"))
            .to_string(),
        r#""vector host"_namespace{} = 1.23"#
    );

    let values = MetricValue::string_set(strings(&["v1", "v2_two", "thrəë", "four=4"]));
    assert_eq!(
        Metric::new("three", MetricKind::Absolute, values).to_string(),
        r#"three{} = "four=4" "thrəë" v1 v2_two"#
    );

    assert_eq!(
        Metric::new(
            "four",
            MetricKind::Absolute,
            MetricValue::Distribution {
                samples: vec![Sample { value: num(1), rate: 3 }, Sample { value: num(2), rate: 4 }],
                statistic: StatisticKind::Histogram,
            }
        )
        .to_string(),
        r#"four{} = histogram 3@1 4@2"#
    );

    assert_eq!(
        Metric::new(
            "five",
            MetricKind::Absolute,
            MetricValue::AggregatedHistogram {
                buckets: vec![
                    Bucket { upper_limit: num(51), count: 53 },
                    Bucket { upper_limit: num(52), count: 54 },
                ],
                count: 107,
                sum: num(103),
            }
        )
        .to_string(),
        r#"five{} = count=107 sum=103 53@51 54@52"#
    );

    assert_eq!(
        Metric::new(
            "six",
            MetricKind::Absolute,
            MetricValue::AggregatedSummary {
                quantiles: vec![
                    Quantile { upper_limit: num(1), value: num(63) },
                    Quantile { upper_limit: num(2), value: num(64) },
                ],
                count: 2,
                sum: num(127),
            }
        )
        .to_string(),
        r#"six{} = count=2 sum=127 1@63 2@64"#
    );
}

#[test]
fn counter_add_then_subtract_restores() {
    let a = MetricValue::Counter { value: Number::decimal(-1_750, 3) };
    let b = MetricValue::Counter { value: Number::decimal(12_345, 1) };
    let mut v = a.clone();
    assert!(v.add(&b));
    assert_eq!(v, MetricValue::Counter { value: Number::decimal(1_232_750, 3) });
    assert!(v.subtract(&b));
    assert_eq!(v, a);
}

#[test]
fn gauge_add_then_subtract_restores_across_wraparound() {
    let a = MetricValue::Gauge { value: Number::from_units(i128::MAX - 5) };
    let b = MetricValue::Gauge { value: Number::from_units(10) };
    let mut v = a.clone();
    assert!(v.add(&b));
    assert_eq!(v, MetricValue::Gauge { value: Number::from_units(i128::MIN + 4) });
    assert!(v.subtract(&b));
    assert_eq!(v, a);
}

#[test]
fn set_add_is_union_and_subtract_removes_other() {
    let a = MetricValue::string_set(strings(&["b", "a", "c"]));
    let b = MetricValue::string_set(strings(&["d", "b"]));
    let mut v = a.clone();
    assert!(v.add(&b));
    assert_eq!(set_members(&v), strings(&["a", "b", "c", "d"]));
    assert!(v.subtract(&b));
    assert_eq!(set_members(&v), strings(&["a", "c"]));
}

#[test]
fn set_of_duplicates_is_distinct_and_sorted() {
    let v = MetricValue::string_set(strings(&["z", "a", "z", "m", "a"]));
    assert_eq!(set_members(&v), strings(&["a", "m", "z"]));
}

#[test]
fn histogram_bounds_mismatch_refused() {
    let a = MetricValue::AggregatedHistogram {
        buckets: vec![Bucket { upper_limit: num(1), count: 1 }, Bucket { upper_limit: num(2), count: 2 }],
        count: 3,
        sum: num(4),
    };
    let b = MetricValue::AggregatedHistogram {
        buckets: vec![Bucket { upper_limit: num(1), count: 1 }, Bucket { upper_limit: num(3), count: 2 }],
        count: 3,
        sum: num(4),
    };
    let shorter = MetricValue::AggregatedHistogram {
        buckets: vec![Bucket { upper_limit: num(1), count: 1 }],
        count: 1,
        sum: num(1),
    };
    let mut v = a.clone();
    let other = b.clone();
    assert!(!v.add(&other));
    assert_eq!(v, a);
    assert_eq!(other, b);
    assert!(!v.subtract(&shorter));
    assert_eq!(v, a);
}

#[test]
fn histogram_merge_adds_counts() {
    let mut v = MetricValue::AggregatedHistogram {
        buckets: vec![Bucket { upper_limit: num(1), count: 1 }, Bucket { upper_limit: num(2), count: u32::MAX }],
        count: 3,
        sum: num(4),
    };
    let b = MetricValue::AggregatedHistogram {
        buckets: vec![Bucket { upper_limit: num(1), count: 5 }, Bucket { upper_limit: num(2), count: 2 }],
        count: 7,
        sum: num(6),
    };
    assert!(v.add(&b));
    assert_eq!(
        v,
        MetricValue::AggregatedHistogram {
            buckets: vec![Bucket { upper_limit: num(1), count: 6 }, Bucket { upper_limit: num(2), count: 1 }],
            count: 10,
            sum: num(10),
        }
    );
    assert!(v.subtract(&b));
    assert_eq!(
        v,
        MetricValue::AggregatedHistogram {
            buckets: vec![Bucket { upper_limit: num(1), count: 1 }, Bucket { upper_limit: num(2), count: u32::MAX }],
            count: 3,
            sum: num(4),
        }
    );
}

#[test]
fn summary_merge_adds_values() {
    let mut v = MetricValue::AggregatedSummary {
        quantiles: vec![Quantile { upper_limit: num(1), value: num(10) }],
        count: 1,
        sum: num(10),
    };
    let b = MetricValue::AggregatedSummary {
        quantiles: vec![Quantile { upper_limit: num(1), value: num(5) }],
        count: 2,
        sum: num(3),
    };
    assert!(v.add(&b));
    assert_eq!(
        v,
        MetricValue::AggregatedSummary {
            quantiles: vec![Quantile { upper_limit: num(1), value: num(15) }],
            count: 3,
            sum: num(13),
        }
    );
}

#[test]
fn distribution_statistics_must_match() {
    let mut v = MetricValue::Distribution { samples: vec![], statistic: StatisticKind::Histogram };
    let b = MetricValue::Distribution { samples: vec![Sample { value: num(1), rate: 1 }], statistic: StatisticKind::Summary };
    assert!(!v.add(&b));
    assert_eq!(v, MetricValue::Distribution { samples: vec![], statistic: StatisticKind::Histogram });
}

#[test]
fn distribution_subtract_drops_every_matching_sample() {
    let s1 = Sample { value: num(1), rate: 1 };
    let s2 = Sample { value: num(2), rate: 1 };
    let mut v = MetricValue::Distribution { samples: vec![s1, s2, s1, s2], statistic: StatisticKind::Summary };
    let b = MetricValue::Distribution { samples: vec![s1], statistic: StatisticKind::Summary };
    assert!(v.subtract(&b));
    assert_eq!(v, MetricValue::Distribution { samples: vec![s2, s2], statistic: StatisticKind::Summary });
}

#[test]
fn different_shapes_do_not_merge() {
    let mut v = MetricValue::Counter { value: num(1) };
    assert!(!v.add(&MetricValue::Gauge { value: num(1) }));
    assert!(!v.subtract(&MetricValue::string_set(vec![])));
    assert_eq!(v, MetricValue::Counter { value: num(1) });
}

#[test]
fn zero_keeps_shape() {
    let h = MetricValue::AggregatedHistogram {
        buckets: vec![Bucket { upper_limit: num(1), count: 4 }, Bucket { upper_limit: num(5), count: 9 }],
        count: 13,
        sum: num(20),
    };
    assert_eq!(
        h.zero(),
        MetricValue::AggregatedHistogram {
            buckets: vec![Bucket { upper_limit: num(1), count: 0 }, Bucket { upper_limit: num(5), count: 0 }],
            count: 0,
            sum: num(0),
        }
    );
    let q = MetricValue::AggregatedSummary {
        quantiles: vec![Quantile { upper_limit: Number::decimal(5, 1), value: num(7) }],
        count: 2,
        sum: num(9),
    };
    assert_eq!(
        q.zero(),
        MetricValue::AggregatedSummary {
            quantiles: vec![Quantile { upper_limit: Number::decimal(5, 1), value: num(0) }],
            count: 0,
            sum: num(0),
        }
    );
    let d = MetricValue::Distribution { samples: vec![Sample { value: num(3), rate: 2 }], statistic: StatisticKind::Summary };
    assert_eq!(d.zero(), MetricValue::Distribution { samples: vec![], statistic: StatisticKind::Summary });
    assert_eq!(MetricValue::string_set(strings(&["x"])).zero(), MetricValue::string_set(vec![]));
    assert_eq!(MetricValue::Counter { value: num(8) }.zero(), MetricValue::Counter { value: num(0) });
    assert_eq!(MetricValue::Gauge { value: num(-8) }.zero(), MetricValue::Gauge { value: num(0) });
}

#[test]
fn metric_zero_keeps_series_and_metadata() {
    let mut metadata = EventMetadata::new();
    metadata.add_finalizer(7);
    let m = Metric::new_with_metadata("c", MetricKind::Absolute, MetricValue::Counter { value: num(5) }, metadata.clone())
        .with_tags(Some(tags()))
        .with_timestamp(Some(ts()));
    let z = m.zero();
    assert_eq!(z.series, m.series);
    assert_eq!(z.data.timestamp, Some(ts()));
    assert_eq!(z.data.value, MetricValue::Counter { value: num(0) });
    assert_eq!(z.metadata().finalizers(), &vec![7u64]);
}

#[test]
fn absolute_delta_refused() {
    let mut total = Metric::new("c", MetricKind::Absolute, MetricValue::Counter { value: num(1) });
    let delta = Metric::new("c", MetricKind::Absolute, MetricValue::Counter { value: num(2) });
    let before = total.clone();
    assert!(!total.data.add(&delta.data));
    assert_eq!(total, before);
    assert!(total.data.update(&delta.data));
    assert_eq!(total.data.value, MetricValue::Counter { value: num(3) });
    assert_eq!(total.data.kind, MetricKind::Absolute);
}

#[test]
fn timestamps_take_the_later() {
    let early = Timestamp::from_unix(100, 5).unwrap();
    let late = Timestamp::from_unix(100, 6).unwrap();
    let mut a = Metric::new("c", MetricKind::Incremental, MetricValue::Counter { value: num(1) }).with_timestamp(Some(late));
    let b = Metric::new("c", MetricKind::Incremental, MetricValue::Counter { value: num(1) }).with_timestamp(Some(early));
    assert!(a.data.add(&b.data));
    assert_eq!(a.data.timestamp, Some(late));
    let mut c = Metric::new("c", MetricKind::Incremental, MetricValue::Counter { value: num(1) });
    let d = Metric::new("c", MetricKind::Incremental, MetricValue::Counter { value: num(1) });
    assert!(c.data.add(&d.data));
    assert_eq!(c.data.timestamp, None);
}

#[test]
fn timestamp_out_of_range_refused() {
    assert!(Timestamp::from_unix(i64::MAX, 0).is_none());
    assert!(Timestamp::from_unix(0, 2_000_000_000).is_none());
}

#[test]
fn timestamp_text() {
    assert_eq!(ts().text(), "2018-11-14T08:09:10.000000011Z");
    assert_eq!(Timestamp::from_unix(0, 0).unwrap().text(), "1970-01-01T00:00:00Z");
}

#[test]
fn numbers_render_shortest() {
    let render = |v: Number| Metric::new("n", MetricKind::Absolute, MetricValue::Gauge { value: v }).to_string();
    assert_eq!(render(Number::decimal(-5, 1)), "n{} = -0.5");
    assert_eq!(render(num(0)), "n{} = 0");
    assert_eq!(render(Number::from_units(1)), "n{} = 0.000000001");
    assert_eq!(render(Number::decimal(1_000_100, 4)), "n{} = 100.01");
    assert_eq!(render(Number::from_units(i128::MIN)), "n{} = -170141183460469231731687303715.884105728");
}

#[test]
fn tag_accessors() {
    let mut m = Metric::new("m", MetricKind::Absolute, MetricValue::Counter { value: num(1) });
    assert_eq!(m.tag_value("a"), None);
    m.set_tag_value("a".to_owned(), "1".to_owned());
    m.set_tag_value("b".to_owned(), "2".to_owned());
    m.set_tag_value("a".to_owned(), "3".to_owned());
    assert!(m.tag_matches("a", "3"));
    assert!(!m.tag_matches("a", "1"));
    assert_eq!(m.tag_value("b"), Some("2".to_owned()));
    assert_eq!(m.delete_tag("b"), Some("2".to_owned()));
    assert_eq!(m.delete_tag("b"), None);
    assert_eq!(m.tags().unwrap().len(), 1);
    assert_eq!(m.series.to_string(), r#"m{a="3"}"#);
}

#[test]
fn kind_relabeling_keeps_data() {
    let m = Metric::new("m", MetricKind::Absolute, MetricValue::Counter { value: num(4) }).with_timestamp(Some(ts()));
    let inc = m.clone().into_incremental();
    assert_eq!(inc.data.kind, MetricKind::Incremental);
    assert_eq!(inc.data.value, m.data.value);
    assert_eq!(inc.data.timestamp, m.data.timestamp);
    assert_eq!(inc.into_absolute(), m);
}
