use vstd::prelude::*;
use crate::metric::{Metric, MetricKind, MetricSeries};
use crate::number::{pow10, Number};
use crate::tags::MetricTags;
use crate::time::utc_debug_text;
use crate::value::{Bucket, MetricValue, Quantile, Sample, StatisticKind};

verus! {

/// The text that `Debug` gives for a string: quoted, with escapes.
pub uninterp spec fn debug_quoted(s: Seq<char>) -> Seq<char>;

/// Relies on std's `Debug` for `str`, which writes the string between double
/// quotes with special characters escaped.
#[verifier::external_body]
fn quote(s: &str) -> (r: String)
    ensures
        r@ == debug_quoted(s@),
{
    format!("{:?}", s)
}

/// The text of one decimal digit.
pub open spec fn digit_text(d: nat) -> Seq<char> {
    if d == 0 { "0"@ }
    else if d == 1 { "1"@ }
    else if d == 2 { "2"@ }
    else if d == 3 { "3"@ }
    else if d == 4 { "4"@ }
    else if d == 5 { "5"@ }
    else if d == 6 { "6"@ }
    else if d == 7 { "7"@ }
    else if d == 8 { "8"@ }
    else { "9"@ }
}

/// The decimal digits of `n`, without leading zeros.
pub open spec fn digits(n: nat) -> Seq<char>
    decreases n,
{
    if n < 10 {
        digit_text(n)
    } else {
        digits(n / 10) + digit_text(n % 10)
    }
}

/// Digit `k` (from 0, most significant first) of the nine-digit fraction `f`.
pub open spec fn fraction_digit(f: nat, k: nat) -> nat {
    ((f as int / pow10((8 - k) as nat)) % 10) as nat
}

/// How many leading digits of the nine-digit fraction `f`, out of the first
/// `e`, remain once trailing zeros are dropped.
pub open spec fn kept_digits(f: nat, e: nat) -> nat
    decreases e,
{
    if e > 0 && fraction_digit(f, (e - 1) as nat) == 0 {
        kept_digits(f, (e - 1) as nat)
    } else {
        e
    }
}

/// The text of the first `n` digits of the nine-digit fraction `f`.
pub open spec fn fraction_prefix(f: nat, n: nat) -> Seq<char>
    decreases n,
{
    if n == 0 {
        Seq::empty()
    } else {
        fraction_prefix(f, (n - 1) as nat) + digit_text(fraction_digit(f, (n - 1) as nat))
    }
}

/// The absolute value of a number's raw representation.
pub open spec fn magnitude(x: Number) -> nat {
    if x.units < 0 { (-x.units) as nat } else { x.units as nat }
}

/// A number in shortest decimal form: a minus sign when negative, the whole
/// part, and the fractional digits without trailing zeros after a point
/// when there are any (`2`, `-0.5`, `1.23`).
pub open spec fn number_text(x: Number) -> Seq<char> {
    let m = magnitude(x);
    let whole = m / 1_000_000_000;
    let frac = m % 1_000_000_000;
    (if x.units < 0 { "-"@ } else { Seq::empty() }) + digits(whole)
        + (if frac == 0 { Seq::empty() } else { "."@ + fraction_prefix(frac, kept_digits(frac, 9)) })
}

/// A character that a bare word may hold: an ASCII letter or digit, or `_`.
pub open spec fn is_word_char(c: char) -> bool {
    let u = c as u32;
    (48 <= u <= 57) || (65 <= u <= 90) || (97 <= u <= 122) || u == 95
}

/// A word as written: bare when every character may stand in a bare word,
/// otherwise quoted.
pub open spec fn word_text(s: Seq<char>) -> Seq<char> {
    if forall|i: int| 0 <= i < s.len() ==> is_word_char(#[trigger] s[i]) {
        s
    } else {
        debug_quoted(s)
    }
}

/// Texts joined with a separator between neighbours.
pub open spec fn joined(items: Seq<Seq<char>>, sep: Seq<char>) -> Seq<char>
    decreases items.len(),
{
    if items.len() == 0 {
        Seq::empty()
    } else if items.len() == 1 {
        items[0]
    } else {
        joined(items.drop_last(), sep) + sep + items.last()
    }
}

/// Joining one more item.
pub proof fn lemma_joined_step(items: Seq<Seq<char>>, sep: Seq<char>, i: int)
    requires
        0 <= i < items.len(),
    ensures
        joined(items.take(i + 1), sep) == joined(items.take(i), sep) + (if i == 0 { Seq::empty() } else { sep }) + items[i],
{
    assert(items.take(i + 1).drop_last() =~= items.take(i));
    if i == 0 {
        assert(joined(items.take(0), sep) =~= Seq::<char>::empty());
        assert(Seq::<char>::empty() + Seq::<char>::empty() + items[0] =~= items[0]);
    }
}

/// The text of one tag: its name as a word, `=`, and its value quoted.
pub open spec fn tag_text(name: Seq<char>, value: Seq<char>) -> Seq<char> {
    word_text(name) + "="@ + debug_quoted(value)
}

/// The tags of a series, in name order.
pub open spec fn tags_text(names: Seq<String>, values: Seq<String>) -> Seq<char> {
    joined(Seq::new(names.len(), |i: int| tag_text(names[i]@, values[i]@)), ","@)
}

/// A series as `NAMESPACE_NAME{TAGS}`.
pub open spec fn series_text(s: MetricSeries) -> Seq<char> {
    (match s.name.namespace {
        Some(ns) => word_text(ns@) + "_"@,
        None => Seq::empty(),
    }) + word_text(s.name.name@) + "{"@
        + (match s.tags {
            Some(t) => tags_text(t.spec_names(), t.spec_values()),
            None => Seq::empty(),
        }) + "}"@
}

/// A sample as `RATE@VALUE`.
pub open spec fn sample_text(s: Sample) -> Seq<char> {
    digits(s.rate as nat) + "@"@ + number_text(s.value)
}

/// A bucket as `COUNT@BOUND`.
pub open spec fn bucket_text(b: Bucket) -> Seq<char> {
    digits(b.count as nat) + "@"@ + number_text(b.upper_limit)
}

/// A quantile as `BOUND@VALUE`.
pub open spec fn quantile_text(q: Quantile) -> Seq<char> {
    number_text(q.upper_limit) + "@"@ + number_text(q.value)
}

/// `count=N sum=S ` ahead of a histogram's or summary's list.
pub open spec fn totals_text(count: u32, sum: Number) -> Seq<char> {
    "count="@ + digits(count as nat) + " sum="@ + number_text(sum) + " "@
}

/// The data part of a metric's text.
pub open spec fn value_text(v: MetricValue) -> Seq<char> {
    match v {
        MetricValue::Counter { value } => number_text(value),
        MetricValue::Gauge { value } => number_text(value),
        MetricValue::StringSet { values } =>
            joined(Seq::new(values@.len(), |i: int| word_text(values@[i]@)), " "@),
        MetricValue::Distribution { samples, statistic } =>
            (match statistic {
                StatisticKind::Histogram => "histogram "@,
                StatisticKind::Summary => "summary "@,
            }) + joined(Seq::new(samples@.len(), |i: int| sample_text(samples@[i])), " "@),
        MetricValue::AggregatedHistogram { buckets, count, sum } =>
            totals_text(count, sum) + joined(Seq::new(buckets@.len(), |i: int| bucket_text(buckets@[i])), " "@),
        MetricValue::AggregatedSummary { quantiles, count, sum } =>
            totals_text(count, sum) + joined(Seq::new(quantiles@.len(), |i: int| quantile_text(quantiles@[i])), " "@),
    }
}

/// A metric as `[TIMESTAMP ]NAMESPACE_NAME{TAGS} KIND DATA`, where KIND is
/// `=` for absolute and `+` for incremental data.
pub open spec fn metric_text(m: Metric) -> Seq<char> {
    (match m.data.timestamp {
        Some(t) => utc_debug_text(t.spec_secs(), t.spec_nanos()) + " "@,
        None => Seq::empty(),
    }) + series_text(m.series) + " "@
        + (match m.data.kind {
            MetricKind::Absolute => "="@,
            MetricKind::Incremental => "+"@,
        }) + " "@ + value_text(m.data.value)
}

fn digit_str(d: u128) -> (r: &'static str)
    requires
        d < 10,
    ensures
        r@ == digit_text(d as nat),
{
    if d == 0 { "0" }
    else if d == 1 { "1" }
    else if d == 2 { "2" }
    else if d == 3 { "3" }
    else if d == 4 { "4" }
    else if d == 5 { "5" }
    else if d == 6 { "6" }
    else if d == 7 { "7" }
    else if d == 8 { "8" }
    else { "9" }
}

/// Appends the decimal digits of `n`.
fn push_digits(out: &mut String, n: u128)
    ensures
        final(out)@ == old(out)@ + digits(n as nat),
    decreases n,
{
    if n >= 10 {
        push_digits(out, n / 10);
        out.append(digit_str(n % 10));
        proof {
            assert(old(out)@ + digits((n / 10) as nat) + digit_text((n % 10) as nat) =~= old(out)@ + digits(n as nat));
        }
    } else {
        out.append(digit_str(n));
    }
}

/// Appends a number in shortest decimal form.
fn push_number(out: &mut String, x: Number)
    ensures
        final(out)@ == old(out)@ + number_text(x),
{
    let m: u128 = if x.units < 0 { ((-(x.units + 1)) as u128) + 1 } else { x.units as u128 };
    assert(m == magnitude(x));
    let ghost start = out@;
    if x.units < 0 {
        out.append("-");
    }
    let ghost signed = out@;
    push_digits(out, m / 1_000_000_000);
    let frac = m % 1_000_000_000;
    if frac != 0 {
        out.append(".");
        let mut ds: Vec<u128> = Vec::new();
        let mut p: u128 = 100_000_000;
        let mut k: usize = 0;
        proof {
            reveal_with_fuel(pow10, 9);
        }
        while k < 9
            invariant
                k <= 9,
                ds@.len() == k,
                p as int == pow10((8 - k) as nat) || k == 9,
                k < 9 ==> p as int == pow10((8 - k) as nat),
                forall|j: int| 0 <= j < k ==> #[trigger] ds@[j] as nat == fraction_digit(frac as nat, j as nat),
                forall|j: int| 0 <= j < k ==> #[trigger] ds@[j] < 10,
                frac < 1_000_000_000,
            decreases 9 - k,
        {
            proof {
                crate::number::lemma_pow10_bound((8 - k) as nat, 8);
                reveal_with_fuel(pow10, 9);
            }
            ds.push((frac / p) % 10);
            if k < 8 {
                proof {
                    assert(pow10((8 - k) as nat) == 10 * pow10((8 - (k + 1)) as nat));
                }
                p = p / 10;
            }
            k = k + 1;
        }
        let mut end: usize = 9;
        while end > 0 && ds[end - 1] == 0
            invariant
                end <= 9,
                ds@.len() == 9,
                kept_digits(frac as nat, end as nat) == kept_digits(frac as nat, 9),
                forall|j: int| 0 <= j < 9 ==> #[trigger] ds@[j] as nat == fraction_digit(frac as nat, j as nat),
            decreases end,
        {
            end = end - 1;
        }
        let mut i: usize = 0;
        let ghost before = out@;
        while i < end
            invariant
                i <= end <= 9,
                ds@.len() == 9,
                forall|j: int| 0 <= j < 9 ==> #[trigger] ds@[j] as nat == fraction_digit(frac as nat, j as nat),
                forall|j: int| 0 <= j < 9 ==> #[trigger] ds@[j] < 10,
                out@ == before + fraction_prefix(frac as nat, i as nat),
            decreases end - i,
        {
            out.append(digit_str(ds[i]));
            i = i + 1;
        }
    }
    proof {
        assert(out@ =~= start + number_text(x));
    }
}

/// Whether `s` may be written as a bare word.
fn is_bare_word(s: &str) -> (r: bool)
    ensures
        r == forall|i: int| 0 <= i < s@.len() ==> is_word_char(#[trigger] s@[i]),
{
    let n = s.unicode_len();
    let mut i: usize = 0;
    while i < n
        invariant
            n == s@.len(),
            i <= n,
            forall|j: int| 0 <= j < i ==> is_word_char(#[trigger] s@[j]),
        decreases n - i,
    {
        let u = s.get_char(i) as u32;
        if !((48 <= u && u <= 57) || (65 <= u && u <= 90) || (97 <= u && u <= 122) || u == 95) {
            return false;
        }
        i = i + 1;
    }
    true
}

/// Appends a word, bare or quoted as [`word_text`] says.
fn push_word(out: &mut String, s: &str)
    ensures
        final(out)@ == old(out)@ + word_text(s@),
{
    if is_bare_word(s) {
        out.append(s);
    } else {
        let q = quote(s);
        out.append(q.as_str());
    }
}

/// Appends set members as words, space separated.
fn push_words(out: &mut String, v: &Vec<String>)
    ensures
        final(out)@ == old(out)@ + joined(Seq::new(v@.len(), |i: int| word_text(v@[i]@)), " "@),
{
    let ghost items = Seq::new(v@.len(), |i: int| word_text(v@[i]@));
    let ghost start = out@;
    let mut i: usize = 0;
    proof {
        assert(items.take(0) =~= Seq::<Seq<char>>::empty());
        assert(start + joined(items.take(0), " "@) =~= start);
    }
    while i < v.len()
        invariant
            i <= v@.len(),
            items == Seq::new(v@.len(), |i: int| word_text(v@[i]@)),
            out@ == start + joined(items.take(i as int), " "@),
        decreases v@.len() - i,
    {
        proof {
            lemma_joined_step(items, " "@, i as int);
        }
        let ghost mid = out@;
        if i > 0 {
            out.append(" ");
        }
        push_word(out, v[i].as_str());
        proof {
            assert(out@ =~= start + joined(items.take(i + 1), " "@));
        }
        i = i + 1;
    }
    proof {
        assert(items.take(v@.len() as int) =~= items);
    }
}

/// Appends samples as `RATE@VALUE`, space separated.
fn push_samples(out: &mut String, v: &Vec<Sample>)
    ensures
        final(out)@ == old(out)@ + joined(Seq::new(v@.len(), |i: int| sample_text(v@[i])), " "@),
{
    let ghost items = Seq::new(v@.len(), |i: int| sample_text(v@[i]));
    let ghost start = out@;
    let mut i: usize = 0;
    proof {
        assert(items.take(0) =~= Seq::<Seq<char>>::empty());
        assert(start + joined(items.take(0), " "@) =~= start);
    }
    while i < v.len()
        invariant
            i <= v@.len(),
            items == Seq::new(v@.len(), |i: int| sample_text(v@[i])),
            out@ == start + joined(items.take(i as int), " "@),
        decreases v@.len() - i,
    {
        proof {
            lemma_joined_step(items, " "@, i as int);
        }
        let ghost mid = out@;
        if i > 0 {
            out.append(" ");
        }
        push_digits(out, v[i].rate as u128);
        out.append("@");
        push_number(out, v[i].value);
        proof {
            assert(out@ =~= start + joined(items.take(i + 1), " "@));
        }
        i = i + 1;
    }
    proof {
        assert(items.take(v@.len() as int) =~= items);
    }
}

/// Appends buckets as `COUNT@BOUND`, space separated.
fn push_buckets(out: &mut String, v: &Vec<Bucket>)
    ensures
        final(out)@ == old(out)@ + joined(Seq::new(v@.len(), |i: int| bucket_text(v@[i])), " "@),
{
    let ghost items = Seq::new(v@.len(), |i: int| bucket_text(v@[i]));
    let ghost start = out@;
    let mut i: usize = 0;
    proof {
        assert(items.take(0) =~= Seq::<Seq<char>>::empty());
        assert(start + joined(items.take(0), " "@) =~= start);
    }
    while i < v.len()
        invariant
            i <= v@.len(),
            items == Seq::new(v@.len(), |i: int| bucket_text(v@[i])),
            out@ == start + joined(items.take(i as int), " "@),
        decreases v@.len() - i,
    {
        proof {
            lemma_joined_step(items, " "@, i as int);
        }
        let ghost mid = out@;
        if i > 0 {
            out.append(" ");
        }
        push_digits(out, v[i].count as u128);
        out.append("@");
        push_number(out, v[i].upper_limit);
        proof {
            assert(out@ =~= start + joined(items.take(i + 1), " "@));
        }
        i = i + 1;
    }
    proof {
        assert(items.take(v@.len() as int) =~= items);
    }
}

/// Appends quantiles as `BOUND@VALUE`, space separated.
fn push_quantiles(out: &mut String, v: &Vec<Quantile>)
    ensures
        final(out)@ == old(out)@ + joined(Seq::new(v@.len(), |i: int| quantile_text(v@[i])), " "@),
{
    let ghost items = Seq::new(v@.len(), |i: int| quantile_text(v@[i]));
    let ghost start = out@;
    let mut i: usize = 0;
    proof {
        assert(items.take(0) =~= Seq::<Seq<char>>::empty());
        assert(start + joined(items.take(0), " "@) =~= start);
    }
    while i < v.len()
        invariant
            i <= v@.len(),
            items == Seq::new(v@.len(), |i: int| quantile_text(v@[i])),
            out@ == start + joined(items.take(i as int), " "@),
        decreases v@.len() - i,
    {
        proof {
            lemma_joined_step(items, " "@, i as int);
        }
        let ghost mid = out@;
        if i > 0 {
            out.append(" ");
        }
        push_number(out, v[i].upper_limit);
        out.append("@");
        push_number(out, v[i].value);
        proof {
            assert(out@ =~= start + joined(items.take(i + 1), " "@));
        }
        i = i + 1;
    }
    proof {
        assert(items.take(v@.len() as int) =~= items);
    }
}

/// Appends tags as `NAME="VALUE"`, comma separated, in name order.
fn push_tags(out: &mut String, tags: &MetricTags)
    ensures
        final(out)@ == old(out)@ + tags_text(tags.spec_names(), tags.spec_values()),
{
    let n = tags.len();
    let ghost names = tags.spec_names();
    let ghost values = tags.spec_values();
    let ghost items = Seq::new(names.len(), |i: int| tag_text(names[i]@, values[i]@));
    let ghost start = out@;
    let mut i: usize = 0;
    proof {
        assert(items.take(0) =~= Seq::<Seq<char>>::empty());
        assert(start + joined(items.take(0), ","@) =~= start);
    }
    while i < n
        invariant
            n == names.len(),
            names == tags.spec_names(),
            values == tags.spec_values(),
            names.len() == values.len(),
            i <= n,
            items == Seq::new(names.len(), |i: int| tag_text(names[i]@, values[i]@)),
            out@ == start + joined(items.take(i as int), ","@),
        decreases n - i,
    {
        proof {
            lemma_joined_step(items, ","@, i as int);
        }
        if i > 0 {
            out.append(",");
        }
        push_word(out, tags.name_at(i).as_str());
        out.append("=");
        let q = quote(tags.value_at(i).as_str());
        out.append(q.as_str());
        proof {
            assert(out@ =~= start + joined(items.take(i + 1), ","@));
        }
        i = i + 1;
    }
    proof {
        assert(items.take(n as int) =~= items);
    }
}

impl MetricSeries {
    /// The series as `NAMESPACE_NAME{TAGS}`: namespace, name and tag names
    /// bare where they are plain words and quoted otherwise, tag values
    /// quoted, tags in name order.
    pub fn to_string(&self) -> (r: String)
        ensures
            r@ == series_text(*self),
    {
        let mut out = String::new();
        match &self.name.namespace {
            Some(ns) => {
                push_word(&mut out, ns.as_str());
                out.append("_");
            },
            None => {},
        }
        push_word(&mut out, self.name.name.as_str());
        out.append("{");
        match &self.tags {
            Some(t) => push_tags(&mut out, t),
            None => {},
        }
        out.append("}");
        proof {
            assert(out@ =~= series_text(*self));
        }
        out
    }
}

impl Metric {
    /// The metric in a line-oriented text form:
    /// `[TIMESTAMP ]NAMESPACE_NAME{TAGS} KIND DATA`. KIND is `=` for absolute
    /// and `+` for incremental data. DATA is the number of a counter or
    /// gauge, the members of a set, or a list of `X@Y` words: rate and value
    /// for a distribution (after its statistic), count and bound for a
    /// histogram, bound and value for a summary (each after
    /// `count=N sum=S`).
    pub fn to_string(&self) -> (r: String)
        ensures
            r@ == metric_text(*self),
    {
        let mut out = String::new();
        match &self.data.timestamp {
            Some(t) => {
                let ts = t.text();
                out.append(ts.as_str());
                out.append(" ");
            },
            None => {},
        }
        let series = self.series.to_string();
        out.append(series.as_str());
        out.append(" ");
        match self.data.kind {
            MetricKind::Absolute => out.append("="),
            MetricKind::Incremental => out.append("+"),
        }
        out.append(" ");
        let ghost head = out@;
        match &self.data.value {
            MetricValue::Counter { value } => push_number(&mut out, *value),
            MetricValue::Gauge { value } => push_number(&mut out, *value),
            MetricValue::StringSet { values } => push_words(&mut out, values),
            MetricValue::Distribution { samples, statistic } => {
                match statistic {
                    StatisticKind::Histogram => out.append("histogram "),
                    StatisticKind::Summary => out.append("summary "),
                }
                push_samples(&mut out, samples);
            },
            MetricValue::AggregatedHistogram { buckets, count, sum } => {
                push_totals(&mut out, *count, *sum);
                push_buckets(&mut out, buckets);
            },
            MetricValue::AggregatedSummary { quantiles, count, sum } => {
                push_totals(&mut out, *count, *sum);
                push_quantiles(&mut out, quantiles);
            },
        }
        proof {
            assert(out@ =~= head + value_text(self.data.value));
            assert(out@ =~= metric_text(*self));
        }
        out
    }
}

/// Appends `count=N sum=S `.
fn push_totals(out: &mut String, count: u32, sum: Number)
    ensures
        final(out)@ == old(out)@ + totals_text(count, sum),
{
    let ghost start = out@;
    out.append("count=");
    push_digits(out, count as u128);
    out.append(" sum=");
    push_number(out, sum);
    out.append(" ");
    proof {
        assert(out@ =~= start + totals_text(count, sum));
    }
}

} // verus!
