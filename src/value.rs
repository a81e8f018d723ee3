use vstd::prelude::*;
use crate::number::{lemma_plus_minus, Number};
use crate::sorted::{lemma_text_set_take_step, set_insert, set_remove, strictly_sorted, text_set, texts};

verus! {

/// How the samples of a distribution are to be aggregated downstream.
#[derive(Clone, Copy, Debug, PartialEq, Eq, Hash, PartialOrd, Structural)]
pub enum StatisticKind {
    Histogram,
    /// Summary style, as a service's distribution metric.
    Summary,
}

/// A single sample of a distribution: the sampled value and the rate at
/// which it was observed.
#[derive(Clone, Copy, Debug, PartialEq, Eq, Structural)]
pub struct Sample {
    pub value: Number,
    pub rate: u32,
}

/// A bucket of an aggregated histogram: its upper bound and the number of
/// observations counted into it.
#[derive(Clone, Copy, Debug, PartialEq, Eq, Structural)]
pub struct Bucket {
    pub upper_limit: Number,
    pub count: u32,
}

/// A quantile of an aggregated summary: its bound and its value.
#[derive(Clone, Copy, Debug, PartialEq, Eq, Structural)]
pub struct Quantile {
    pub upper_limit: Number,
    pub value: Number,
}

/// The value of a metric, in one of six shapes.
#[derive(Clone, Debug, PartialEq)]
pub enum MetricValue {
    /// A total that only grows, except when reset to zero.
    Counter { value: Number },
    /// A sampled numerical value.
    Gauge { value: Number },
    /// A set of unique strings, held in sorted order. A sorted vector stands
    /// in for std's `BTreeSet`, whose specifications prove nothing of its
    /// contents when the elements are `String`s.
    StringSet { values: Vec<String> },
    /// A list of sampled values.
    Distribution { samples: Vec<Sample>, statistic: StatisticKind },
    /// Observations counted into buckets, with their total count and sum.
    AggregatedHistogram { buckets: Vec<Bucket>, count: u32, sum: Number },
    /// Observations summarised by quantiles, with their total count and sum.
    AggregatedSummary { quantiles: Vec<Quantile>, count: u32, sum: Number },
}

/// Two bucket lists have the same bounds, in the same order.
pub open spec fn same_bucket_limits(a: Seq<Bucket>, b: Seq<Bucket>) -> bool {
    &&& a.len() == b.len()
    &&& forall|i: int| 0 <= i < a.len() ==> #[trigger] a[i].upper_limit == b[i].upper_limit
}

/// Two quantile lists have the same bounds, in the same order.
pub open spec fn same_quantile_limits(a: Seq<Quantile>, b: Seq<Quantile>) -> bool {
    &&& a.len() == b.len()
    &&& forall|i: int| 0 <= i < a.len() ==> #[trigger] a[i].upper_limit == b[i].upper_limit
}

/// Bucket counts added pointwise (wrapping), bounds taken from `a`.
pub open spec fn buckets_plus(a: Seq<Bucket>, b: Seq<Bucket>) -> Seq<Bucket> {
    Seq::new(a.len(), |i: int| Bucket { upper_limit: a[i].upper_limit, count: a[i].count.wrapping_add(b[i].count) })
}

/// Bucket counts subtracted pointwise (wrapping), bounds taken from `a`.
pub open spec fn buckets_minus(a: Seq<Bucket>, b: Seq<Bucket>) -> Seq<Bucket> {
    Seq::new(a.len(), |i: int| Bucket { upper_limit: a[i].upper_limit, count: a[i].count.wrapping_sub(b[i].count) })
}

/// Quantile values added pointwise, bounds taken from `a`.
pub open spec fn quantiles_plus(a: Seq<Quantile>, b: Seq<Quantile>) -> Seq<Quantile> {
    Seq::new(a.len(), |i: int| Quantile { upper_limit: a[i].upper_limit, value: a[i].value.spec_plus(b[i].value) })
}

/// Quantile values subtracted pointwise, bounds taken from `a`.
pub open spec fn quantiles_minus(a: Seq<Quantile>, b: Seq<Quantile>) -> Seq<Quantile> {
    Seq::new(a.len(), |i: int| Quantile { upper_limit: a[i].upper_limit, value: a[i].value.spec_minus(b[i].value) })
}

/// The samples of `a` that do not occur in `b` at all, in their order.
pub open spec fn samples_not_in(a: Seq<Sample>, b: Seq<Sample>) -> Seq<Sample> {
    a.filter(|s: Sample| !b.contains(s))
}

impl MetricValue {
    /// A set's strings are sorted and unique; other shapes have no constraint.
    pub open spec fn wf(&self) -> bool {
        match self {
            MetricValue::StringSet { values } => strictly_sorted(texts(values@)),
            _ => true,
        }
    }

    /// Whether `self` and `other` can be merged: the same shape, the same
    /// statistic for distributions, the same bounds for histograms and
    /// summaries.
    pub open spec fn compatible(&self, other: &MetricValue) -> bool {
        match (self, other) {
            (MetricValue::Counter { .. }, MetricValue::Counter { .. }) => true,
            (MetricValue::Gauge { .. }, MetricValue::Gauge { .. }) => true,
            (MetricValue::StringSet { .. }, MetricValue::StringSet { .. }) => true,
            (
                MetricValue::Distribution { statistic: s1, .. },
                MetricValue::Distribution { statistic: s2, .. },
            ) => s1 == s2,
            (
                MetricValue::AggregatedHistogram { buckets: b1, .. },
                MetricValue::AggregatedHistogram { buckets: b2, .. },
            ) => same_bucket_limits(b1@, b2@),
            (
                MetricValue::AggregatedSummary { quantiles: q1, .. },
                MetricValue::AggregatedSummary { quantiles: q2, .. },
            ) => same_quantile_limits(q1@, q2@),
            _ => false,
        }
    }

    /// `r` is the sum of `a` and `b`: values and counts added, sets united,
    /// sample lists joined.
    pub open spec fn is_sum(a: MetricValue, b: MetricValue, r: MetricValue) -> bool {
        match (a, b, r) {
            (MetricValue::Counter { value: x }, MetricValue::Counter { value: y }, MetricValue::Counter { value: z }) =>
                z == x.spec_plus(y),
            (MetricValue::Gauge { value: x }, MetricValue::Gauge { value: y }, MetricValue::Gauge { value: z }) =>
                z == x.spec_plus(y),
            (MetricValue::StringSet { values: x }, MetricValue::StringSet { values: y }, MetricValue::StringSet { values: z }) =>
                text_set(z@) == text_set(x@).union(text_set(y@)),
            (
                MetricValue::Distribution { samples: x, statistic: s },
                MetricValue::Distribution { samples: y, .. },
                MetricValue::Distribution { samples: z, statistic: t },
            ) => z@ == x@ + y@ && t == s,
            (
                MetricValue::AggregatedHistogram { buckets: x, count: c1, sum: s1 },
                MetricValue::AggregatedHistogram { buckets: y, count: c2, sum: s2 },
                MetricValue::AggregatedHistogram { buckets: z, count: c, sum: s },
            ) => z@ == buckets_plus(x@, y@) && c == c1.wrapping_add(c2) && s == s1.spec_plus(s2),
            (
                MetricValue::AggregatedSummary { quantiles: x, count: c1, sum: s1 },
                MetricValue::AggregatedSummary { quantiles: y, count: c2, sum: s2 },
                MetricValue::AggregatedSummary { quantiles: z, count: c, sum: s },
            ) => z@ == quantiles_plus(x@, y@) && c == c1.wrapping_add(c2) && s == s1.spec_plus(s2),
            _ => false,
        }
    }

    /// `r` is `a` less `b`: values and counts subtracted, `b`'s strings
    /// taken out of a set, and the samples of `a` that occur anywhere in `b`
    /// dropped from a distribution.
    pub open spec fn is_difference(a: MetricValue, b: MetricValue, r: MetricValue) -> bool {
        match (a, b, r) {
            (MetricValue::Counter { value: x }, MetricValue::Counter { value: y }, MetricValue::Counter { value: z }) =>
                z == x.spec_minus(y),
            (MetricValue::Gauge { value: x }, MetricValue::Gauge { value: y }, MetricValue::Gauge { value: z }) =>
                z == x.spec_minus(y),
            (MetricValue::StringSet { values: x }, MetricValue::StringSet { values: y }, MetricValue::StringSet { values: z }) =>
                text_set(z@) == text_set(x@).difference(text_set(y@)),
            (
                MetricValue::Distribution { samples: x, statistic: s },
                MetricValue::Distribution { samples: y, .. },
                MetricValue::Distribution { samples: z, statistic: t },
            ) => z@ == samples_not_in(x@, y@) && t == s,
            (
                MetricValue::AggregatedHistogram { buckets: x, count: c1, sum: s1 },
                MetricValue::AggregatedHistogram { buckets: y, count: c2, sum: s2 },
                MetricValue::AggregatedHistogram { buckets: z, count: c, sum: s },
            ) => z@ == buckets_minus(x@, y@) && c == c1.wrapping_sub(c2) && s == s1.spec_minus(s2),
            (
                MetricValue::AggregatedSummary { quantiles: x, count: c1, sum: s1 },
                MetricValue::AggregatedSummary { quantiles: y, count: c2, sum: s2 },
                MetricValue::AggregatedSummary { quantiles: z, count: c, sum: s },
            ) => z@ == quantiles_minus(x@, y@) && c == c1.wrapping_sub(c2) && s == s1.spec_minus(s2),
            _ => false,
        }
    }

    /// `r` has the shape of `a` with everything reset: zero values, counts
    /// and sums, no set members or samples, the same statistic and bounds.
    pub open spec fn is_zero_of(a: MetricValue, r: MetricValue) -> bool {
        match (a, r) {
            (MetricValue::Counter { .. }, MetricValue::Counter { value }) => value.units == 0,
            (MetricValue::Gauge { .. }, MetricValue::Gauge { value }) => value.units == 0,
            (MetricValue::StringSet { .. }, MetricValue::StringSet { values }) => values@.len() == 0,
            (
                MetricValue::Distribution { statistic: s, .. },
                MetricValue::Distribution { samples, statistic },
            ) => samples@.len() == 0 && statistic == s,
            (
                MetricValue::AggregatedHistogram { buckets: x, .. },
                MetricValue::AggregatedHistogram { buckets, count, sum },
            ) => {
                &&& same_bucket_limits(buckets@, x@)
                &&& forall|i: int| 0 <= i < buckets@.len() ==> #[trigger] buckets@[i].count == 0
                &&& count == 0
                &&& sum.units == 0
            },
            (
                MetricValue::AggregatedSummary { quantiles: x, .. },
                MetricValue::AggregatedSummary { quantiles, count, sum },
            ) => {
                &&& same_quantile_limits(quantiles@, x@)
                &&& forall|i: int| 0 <= i < quantiles@.len() ==> #[trigger] quantiles@[i].value.units == 0
                &&& count == 0
                &&& sum.units == 0
            },
            _ => false,
        }
    }
}

/// Whether two bucket lists have the same bounds.
fn bucket_limits_match(a: &Vec<Bucket>, b: &Vec<Bucket>) -> (r: bool)
    ensures
        r == same_bucket_limits(a@, b@),
{
    if a.len() != b.len() {
        return false;
    }
    let mut i: usize = 0;
    while i < a.len()
        invariant
            a@.len() == b@.len(),
            i <= a@.len(),
            forall|k: int| 0 <= k < i ==> #[trigger] a@[k].upper_limit == b@[k].upper_limit,
        decreases a@.len() - i,
    {
        if a[i].upper_limit.units != b[i].upper_limit.units {
            return false;
        }
        i = i + 1;
    }
    true
}

/// Whether two quantile lists have the same bounds.
fn quantile_limits_match(a: &Vec<Quantile>, b: &Vec<Quantile>) -> (r: bool)
    ensures
        r == same_quantile_limits(a@, b@),
{
    if a.len() != b.len() {
        return false;
    }
    let mut i: usize = 0;
    while i < a.len()
        invariant
            a@.len() == b@.len(),
            i <= a@.len(),
            forall|k: int| 0 <= k < i ==> #[trigger] a@[k].upper_limit == b@[k].upper_limit,
        decreases a@.len() - i,
    {
        if a[i].upper_limit.units != b[i].upper_limit.units {
            return false;
        }
        i = i + 1;
    }
    true
}

/// Bucket counts of `a` and `b` added or subtracted pointwise.
fn combine_buckets(a: &Vec<Bucket>, b: &Vec<Bucket>, negate: bool) -> (r: Vec<Bucket>)
    requires
        a@.len() == b@.len(),
    ensures
        !negate ==> r@ == buckets_plus(a@, b@),
        negate ==> r@ == buckets_minus(a@, b@),
{
    let mut out: Vec<Bucket> = Vec::new();
    let mut i: usize = 0;
    while i < a.len()
        invariant
            a@.len() == b@.len(),
            i <= a@.len(),
            out@.len() == i,
            !negate ==> forall|k: int| 0 <= k < i ==> #[trigger] out@[k] == buckets_plus(a@, b@)[k],
            negate ==> forall|k: int| 0 <= k < i ==> #[trigger] out@[k] == buckets_minus(a@, b@)[k],
        decreases a@.len() - i,
    {
        let count = if negate {
            a[i].count.wrapping_sub(b[i].count)
        } else {
            a[i].count.wrapping_add(b[i].count)
        };
        out.push(Bucket { upper_limit: a[i].upper_limit, count });
        i = i + 1;
    }
    proof {
        if negate {
            assert(out@ =~= buckets_minus(a@, b@));
        } else {
            assert(out@ =~= buckets_plus(a@, b@));
        }
    }
    out
}

/// Quantile values of `a` and `b` added or subtracted pointwise.
fn combine_quantiles(a: &Vec<Quantile>, b: &Vec<Quantile>, negate: bool) -> (r: Vec<Quantile>)
    requires
        a@.len() == b@.len(),
    ensures
        !negate ==> r@ == quantiles_plus(a@, b@),
        negate ==> r@ == quantiles_minus(a@, b@),
{
    let mut out: Vec<Quantile> = Vec::new();
    let mut i: usize = 0;
    while i < a.len()
        invariant
            a@.len() == b@.len(),
            i <= a@.len(),
            out@.len() == i,
            !negate ==> forall|k: int| 0 <= k < i ==> #[trigger] out@[k] == quantiles_plus(a@, b@)[k],
            negate ==> forall|k: int| 0 <= k < i ==> #[trigger] out@[k] == quantiles_minus(a@, b@)[k],
        decreases a@.len() - i,
    {
        let value = if negate {
            a[i].value.minus(b[i].value)
        } else {
            a[i].value.plus(b[i].value)
        };
        out.push(Quantile { upper_limit: a[i].upper_limit, value });
        i = i + 1;
    }
    proof {
        if negate {
            assert(out@ =~= quantiles_minus(a@, b@));
        } else {
            assert(out@ =~= quantiles_plus(a@, b@));
        }
    }
    out
}

/// The strings of `extra` added to the sorted set `values`.
fn unite_strings(values: &mut Vec<String>, extra: &Vec<String>)
    requires
        strictly_sorted(texts(old(values)@)),
    ensures
        strictly_sorted(texts(final(values)@)),
        text_set(final(values)@) == text_set(old(values)@).union(text_set(extra@)),
{
    let ghost start = text_set(values@);
    let mut i: usize = 0;
    while i < extra.len()
        invariant
            i <= extra@.len(),
            strictly_sorted(texts(values@)),
            text_set(values@) == start.union(text_set(extra@.take(i as int))),
        decreases extra@.len() - i,
    {
        let ghost before = text_set(values@);
        set_insert(values, extra[i].clone());
        proof {
            lemma_text_set_take_step(extra@, i as int);
            let post = extra@.take(i + 1);
            assert(text_set(values@) =~= start.union(text_set(post)));
        }
        i = i + 1;
    }
    proof {
        assert(extra@.take(extra@.len() as int) =~= extra@);
    }
}

/// The strings of `extra` taken out of the sorted set `values`.
fn remove_strings(values: &mut Vec<String>, extra: &Vec<String>)
    requires
        strictly_sorted(texts(old(values)@)),
    ensures
        strictly_sorted(texts(final(values)@)),
        text_set(final(values)@) == text_set(old(values)@).difference(text_set(extra@)),
{
    let ghost start = text_set(values@);
    let mut i: usize = 0;
    while i < extra.len()
        invariant
            i <= extra@.len(),
            strictly_sorted(texts(values@)),
            text_set(values@) == start.difference(text_set(extra@.take(i as int))),
        decreases extra@.len() - i,
    {
        set_remove(values, &extra[i]);
        proof {
            lemma_text_set_take_step(extra@, i as int);
            let post = extra@.take(i + 1);
            assert(text_set(values@) =~= start.difference(text_set(post)));
        }
        i = i + 1;
    }
    proof {
        assert(extra@.take(extra@.len() as int) =~= extra@);
    }
}

/// Whether `sample` occurs in `samples`.
fn holds_sample(samples: &Vec<Sample>, sample: Sample) -> (r: bool)
    ensures
        r == samples@.contains(sample),
{
    let mut i: usize = 0;
    while i < samples.len()
        invariant
            i <= samples@.len(),
            forall|k: int| 0 <= k < i ==> #[trigger] samples@[k] != sample,
        decreases samples@.len() - i,
    {
        if samples[i] == sample {
            return true;
        }
        i = i + 1;
    }
    false
}

/// `samples` joined with `extra`.
fn join_samples(samples: &mut Vec<Sample>, extra: &Vec<Sample>)
    ensures
        final(samples)@ == old(samples)@ + extra@,
{
    let ghost start = samples@;
    let mut i: usize = 0;
    while i < extra.len()
        invariant
            i <= extra@.len(),
            samples@ == start + extra@.take(i as int),
        decreases extra@.len() - i,
    {
        samples.push(extra[i]);
        proof {
            assert(start + extra@.subrange(0, i + 1) =~= (start + extra@.take(i as int)).push(extra@[i as int]));
        }
        i = i + 1;
    }
    proof {
        assert(extra@.take(extra@.len() as int) =~= extra@);
    }
}

/// The samples of `samples` that do not occur in `extra`.
fn drop_samples(samples: &Vec<Sample>, extra: &Vec<Sample>) -> (r: Vec<Sample>)
    ensures
        r@ == samples_not_in(samples@, extra@),
{
    let ghost keep = |s: Sample| !extra@.contains(s);
    let mut out: Vec<Sample> = Vec::new();
    let mut i: usize = 0;
    proof {
        reveal(Seq::filter);
        assert(samples@.subrange(0, 0).filter(keep) =~= Seq::<Sample>::empty());
    }
    while i < samples.len()
        invariant
            i <= samples@.len(),
            keep == (|s: Sample| !extra@.contains(s)),
            out@ == samples@.subrange(0, i as int).filter(keep),
        decreases samples@.len() - i,
    {
        let s = samples[i];
        let seen = holds_sample(extra, s);
        proof {
            let post = samples@.subrange(0, i + 1);
            assert(post.drop_last() =~= samples@.subrange(0, i as int));
            assert(post.last() == s);
        }
        if !seen {
            out.push(s);
        }
        proof {
            let post = samples@.subrange(0, i + 1);
            let pre = samples@.subrange(0, i as int);
            assert(keep(s) == !seen);
            reveal(Seq::filter);
            assert(post.filter(keep) == (if keep(post.last()) {
                post.drop_last().filter(keep).push(post.last())
            } else {
                post.drop_last().filter(keep)
            }));
        }
        i = i + 1;
    }
    proof {
        assert(samples@.subrange(0, samples@.len() as int) =~= samples@);
    }
    out
}

impl MetricValue {
    /// Whether `self` and `other` can be merged.
    pub fn is_compatible(&self, other: &MetricValue) -> (r: bool)
        ensures
            r == self.compatible(other),
    {
        match (self, other) {
            (MetricValue::Counter { .. }, MetricValue::Counter { .. }) => true,
            (MetricValue::Gauge { .. }, MetricValue::Gauge { .. }) => true,
            (MetricValue::StringSet { .. }, MetricValue::StringSet { .. }) => true,
            (
                MetricValue::Distribution { statistic: s1, .. },
                MetricValue::Distribution { statistic: s2, .. },
            ) => *s1 == *s2,
            (
                MetricValue::AggregatedHistogram { buckets: b1, .. },
                MetricValue::AggregatedHistogram { buckets: b2, .. },
            ) => bucket_limits_match(b1, b2),
            (
                MetricValue::AggregatedSummary { quantiles: q1, .. },
                MetricValue::AggregatedSummary { quantiles: q2, .. },
            ) => quantile_limits_match(q1, q2),
            _ => false,
        }
    }

    /// A value of the same shape with everything reset: counters, gauges,
    /// counts and sums at zero, sets and distributions empty, histogram and
    /// summary bounds and the distribution statistic kept.
    pub fn zero(&self) -> (r: MetricValue)
        ensures
            MetricValue::is_zero_of(*self, r),
            r.wf(),
    {
        match self {
            MetricValue::Counter { .. } => MetricValue::Counter { value: Number::zero() },
            MetricValue::Gauge { .. } => MetricValue::Gauge { value: Number::zero() },
            MetricValue::StringSet { .. } => MetricValue::StringSet { values: Vec::new() },
            MetricValue::Distribution { samples, statistic } => MetricValue::Distribution {
                samples: Vec::with_capacity(samples.len()),
                statistic: *statistic,
            },
            MetricValue::AggregatedHistogram { buckets, .. } => {
                let mut out: Vec<Bucket> = Vec::new();
                let mut i: usize = 0;
                while i < buckets.len()
                    invariant
                        i <= buckets@.len(),
                        out@.len() == i,
                        forall|k: int| 0 <= k < i ==> #[trigger] out@[k] == (Bucket { upper_limit: buckets@[k].upper_limit, count: 0 }),
                    decreases buckets@.len() - i,
                {
                    out.push(Bucket { upper_limit: buckets[i].upper_limit, count: 0 });
                    i = i + 1;
                }
                MetricValue::AggregatedHistogram { buckets: out, count: 0, sum: Number::zero() }
            },
            MetricValue::AggregatedSummary { quantiles, .. } => {
                let mut out: Vec<Quantile> = Vec::new();
                let mut i: usize = 0;
                while i < quantiles.len()
                    invariant
                        i <= quantiles@.len(),
                        out@.len() == i,
                        forall|k: int| 0 <= k < i ==> #[trigger] out@[k] == (Quantile { upper_limit: quantiles@[k].upper_limit, value: Number { units: 0 } }),
                    decreases quantiles@.len() - i,
                {
                    out.push(Quantile { upper_limit: quantiles[i].upper_limit, value: Number::zero() });
                    i = i + 1;
                }
                MetricValue::AggregatedSummary { quantiles: out, count: 0, sum: Number::zero() }
            },
        }
    }

    /// Adds `other` into `self`. When the two cannot be merged (see
    /// [`MetricValue::compatible`]) this returns `false` and leaves `self`
    /// as it was.
    pub fn add(&mut self, other: &MetricValue) -> (r: bool)
        requires
            old(self).wf(),
        ensures
            r == old(self).compatible(other),
            r ==> MetricValue::is_sum(*old(self), *other, *final(self)),
            !r ==> *final(self) == *old(self),
            final(self).wf(),
    {
        self.merge(other, false)
    }

    /// Subtracts `other` from `self`. When the two cannot be merged (see
    /// [`MetricValue::compatible`]) this returns `false` and leaves `self`
    /// as it was.
    ///
    /// A distribution keeps only those of its samples that occur nowhere in
    /// `other`: a sample present several times goes away entirely, however
    /// often `other` holds it.
    pub fn subtract(&mut self, other: &MetricValue) -> (r: bool)
        requires
            old(self).wf(),
        ensures
            r == old(self).compatible(other),
            r ==> MetricValue::is_difference(*old(self), *other, *final(self)),
            !r ==> *final(self) == *old(self),
            final(self).wf(),
    {
        self.merge(other, true)
    }

    fn merge(&mut self, other: &MetricValue, negate: bool) -> (r: bool)
        requires
            old(self).wf(),
        ensures
            r == old(self).compatible(other),
            r && !negate ==> MetricValue::is_sum(*old(self), *other, *final(self)),
            r && negate ==> MetricValue::is_difference(*old(self), *other, *final(self)),
            !r ==> *final(self) == *old(self),
            final(self).wf(),
    {
        if !self.is_compatible(other) {
            return false;
        }
        let mut cur = MetricValue::Counter { value: Number::zero() };
        core::mem::swap(self, &mut cur);
        let next = match cur {
            MetricValue::Counter { value } => match other {
                MetricValue::Counter { value: v2 } => MetricValue::Counter {
                    value: if negate { value.minus(*v2) } else { value.plus(*v2) },
                },
                _ => MetricValue::Counter { value },
            },
            MetricValue::Gauge { value } => match other {
                MetricValue::Gauge { value: v2 } => MetricValue::Gauge {
                    value: if negate { value.minus(*v2) } else { value.plus(*v2) },
                },
                _ => MetricValue::Gauge { value },
            },
            MetricValue::StringSet { mut values } => {
                match other {
                    MetricValue::StringSet { values: v2 } => {
                        if negate {
                            remove_strings(&mut values, v2);
                        } else {
                            unite_strings(&mut values, v2);
                        }
                    },
                    _ => {},
                }
                MetricValue::StringSet { values }
            },
            MetricValue::Distribution { mut samples, statistic } => {
                match other {
                    MetricValue::Distribution { samples: s2, .. } => {
                        if negate {
                            samples = drop_samples(&samples, s2);
                        } else {
                            join_samples(&mut samples, s2);
                        }
                    },
                    _ => {},
                }
                MetricValue::Distribution { samples, statistic }
            },
            MetricValue::AggregatedHistogram { buckets, count, sum } => match other {
                MetricValue::AggregatedHistogram { buckets: b2, count: c2, sum: s2 } => {
                    MetricValue::AggregatedHistogram {
                        buckets: combine_buckets(&buckets, b2, negate),
                        count: if negate { count.wrapping_sub(*c2) } else { count.wrapping_add(*c2) },
                        sum: if negate { sum.minus(*s2) } else { sum.plus(*s2) },
                    }
                },
                _ => MetricValue::AggregatedHistogram { buckets, count, sum },
            },
            MetricValue::AggregatedSummary { quantiles, count, sum } => match other {
                MetricValue::AggregatedSummary { quantiles: q2, count: c2, sum: s2 } => {
                    MetricValue::AggregatedSummary {
                        quantiles: combine_quantiles(&quantiles, q2, negate),
                        count: if negate { count.wrapping_sub(*c2) } else { count.wrapping_add(*c2) },
                        sum: if negate { sum.minus(*s2) } else { sum.plus(*s2) },
                    }
                },
                _ => MetricValue::AggregatedSummary { quantiles, count, sum },
            },
        };
        *self = next;
        true
    }
}

/// Adding a counter or gauge value and then subtracting the same value gives
/// back the starting value.
pub proof fn lemma_add_then_subtract_restores(a: MetricValue, b: MetricValue, sum: MetricValue, back: MetricValue)
    requires
        a is Counter || a is Gauge,
        MetricValue::is_sum(a, b, sum),
        MetricValue::is_difference(sum, b, back),
    ensures
        back == a,
{
    match (a, b) {
        (MetricValue::Counter { value: x }, MetricValue::Counter { value: y }) => lemma_plus_minus(x, y),
        (MetricValue::Gauge { value: x }, MetricValue::Gauge { value: y }) => lemma_plus_minus(x, y),
        _ => {},
    }
}

/// Adding one set to another gives their union, and subtracting the second
/// set from that union leaves exactly the members of the first that the
/// second lacks: all of the first when the two share no member.
pub proof fn lemma_set_union_then_difference(a: MetricValue, b: MetricValue, sum: MetricValue, back: MetricValue)
    requires
        a is StringSet,
        MetricValue::is_sum(a, b, sum),
        MetricValue::is_difference(sum, b, back),
    ensures
        text_set(sum->StringSet_values@) == text_set(a->StringSet_values@).union(text_set(b->StringSet_values@)),
        text_set(back->StringSet_values@) == text_set(a->StringSet_values@).difference(text_set(b->StringSet_values@)),
        text_set(a->StringSet_values@).disjoint(text_set(b->StringSet_values@))
            ==> text_set(back->StringSet_values@) == text_set(a->StringSet_values@),
{
    let x = text_set(a->StringSet_values@);
    let y = text_set(b->StringSet_values@);
    assert(x.union(y).difference(y) =~= x.difference(y));
    if x.disjoint(y) {
        assert(x.difference(y) =~= x);
    }
}

/// Histograms whose bucket bounds differ cannot be merged.
pub proof fn lemma_histogram_bounds_must_match(a: MetricValue, b: MetricValue)
    requires
        a is AggregatedHistogram,
        b is AggregatedHistogram,
        !same_bucket_limits(a->AggregatedHistogram_buckets@, b->AggregatedHistogram_buckets@),
    ensures
        !a.compatible(&b),
{
}

impl MetricValue {
    /// A set value holding the distinct strings of `items`, in sorted order.
    pub fn string_set(items: Vec<String>) -> (r: MetricValue)
        ensures
            r is StringSet,
            r.wf(),
            text_set(r->StringSet_values@) == text_set(items@),
    {
        let mut values: Vec<String> = Vec::new();
        proof {
            assert(text_set(values@) =~= text_set(items@.take(0)));
        }
        let mut i: usize = 0;
        while i < items.len()
            invariant
                i <= items@.len(),
                strictly_sorted(texts(values@)),
                text_set(values@) == text_set(items@.take(i as int)),
            decreases items@.len() - i,
        {
            set_insert(&mut values, items[i].clone());
            proof {
                lemma_text_set_take_step(items@, i as int);
                let post = items@.take(i + 1);
                assert(text_set(values@) =~= text_set(post));
            }
            i = i + 1;
        }
        proof {
            assert(items@.take(items@.len() as int) =~= items@);
        }
        MetricValue::StringSet { values }
    }
}

impl MetricValue {
    /// The name of the value's shape.
    pub fn shape_name(&self) -> (r: &'static str)
        ensures
            r@ == match *self {
                MetricValue::Counter { .. } => "counter"@,
                MetricValue::Gauge { .. } => "gauge"@,
                MetricValue::StringSet { .. } => "set"@,
                MetricValue::Distribution { .. } => "distribution"@,
                MetricValue::AggregatedHistogram { .. } => "aggregated histogram"@,
                MetricValue::AggregatedSummary { .. } => "aggregated summary"@,
            },
    {
        match self {
            MetricValue::Counter { .. } => "counter",
            MetricValue::Gauge { .. } => "gauge",
            MetricValue::StringSet { .. } => "set",
            MetricValue::Distribution { .. } => "distribution",
            MetricValue::AggregatedHistogram { .. } => "aggregated histogram",
            MetricValue::AggregatedSummary { .. } => "aggregated summary",
        }
    }
}

/// The length of the shorter of two sequences.
pub open spec fn shorter(a: nat, b: nat) -> nat {
    if a <= b { a } else { b }
}

/// Samples from parallel lists of values and rates, as far as both go.
pub fn zip_samples(values: &Vec<Number>, rates: &Vec<u32>) -> (r: Vec<Sample>)
    ensures
        r@.len() == shorter(values@.len(), rates@.len()),
        forall|i: int| 0 <= i < r@.len() ==> #[trigger] r@[i] == (Sample { value: values@[i], rate: rates@[i] }),
{
    let mut out: Vec<Sample> = Vec::new();
    let mut i: usize = 0;
    while i < values.len() && i < rates.len()
        invariant
            i <= values@.len(),
            i <= rates@.len(),
            out@.len() == i,
            forall|k: int| 0 <= k < i ==> #[trigger] out@[k] == (Sample { value: values@[k], rate: rates@[k] }),
        decreases values@.len() - i,
    {
        out.push(Sample { value: values[i], rate: rates[i] });
        i = i + 1;
    }
    out
}

/// Buckets from parallel lists of bounds and counts, as far as both go.
pub fn zip_buckets(limits: &Vec<Number>, counts: &Vec<u32>) -> (r: Vec<Bucket>)
    ensures
        r@.len() == shorter(limits@.len(), counts@.len()),
        forall|i: int| 0 <= i < r@.len() ==> #[trigger] r@[i] == (Bucket { upper_limit: limits@[i], count: counts@[i] }),
{
    let mut out: Vec<Bucket> = Vec::new();
    let mut i: usize = 0;
    while i < limits.len() && i < counts.len()
        invariant
            i <= limits@.len(),
            i <= counts@.len(),
            out@.len() == i,
            forall|k: int| 0 <= k < i ==> #[trigger] out@[k] == (Bucket { upper_limit: limits@[k], count: counts@[k] }),
        decreases limits@.len() - i,
    {
        out.push(Bucket { upper_limit: limits[i], count: counts[i] });
        i = i + 1;
    }
    out
}

/// Quantiles from parallel lists of bounds and values, as far as both go.
pub fn zip_quantiles(limits: &Vec<Number>, values: &Vec<Number>) -> (r: Vec<Quantile>)
    ensures
        r@.len() == shorter(limits@.len(), values@.len()),
        forall|i: int| 0 <= i < r@.len() ==> #[trigger] r@[i] == (Quantile { upper_limit: limits@[i], value: values@[i] }),
{
    let mut out: Vec<Quantile> = Vec::new();
    let mut i: usize = 0;
    while i < limits.len() && i < values.len()
        invariant
            i <= limits@.len(),
            i <= values@.len(),
            out@.len() == i,
            forall|k: int| 0 <= k < i ==> #[trigger] out@[k] == (Quantile { upper_limit: limits@[k], value: values@[k] }),
        decreases limits@.len() - i,
    {
        out.push(Quantile { upper_limit: limits[i], value: values[i] });
        i = i + 1;
    }
    out
}

} // verus!
