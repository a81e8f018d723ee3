use vstd::prelude::*;
use indexmap::IndexMap;
use crate::event::Event;
use crate::metric::{opt_tags, Metric};
use crate::tags::MetricTags;
use crate::sorted::texts;
use crate::transform::{DataType, FunctionTransform};

verus! {

#[verifier::external_type_specification]
#[verifier::external_body]
#[verifier::reject_recursive_types(K)]
#[verifier::reject_recursive_types(V)]
#[verifier::reject_recursive_types(S)]
pub struct ExIndexMap<K, V, S>(IndexMap<K, V, S>);

/// The entries of an insertion-ordered map, as texts, in insertion order.
pub uninterp spec fn index_map_entries(m: IndexMap<String, String>) -> Seq<(Seq<char>, Seq<char>)>;

/// The texts of name/value pairs.
pub open spec fn pair_texts(v: Seq<(String, String)>) -> Seq<(Seq<char>, Seq<char>)> {
    v.map_values(|p: (String, String)| (p.0@, p.1@))
}

/// Relies on `IndexMap::iter`, which walks the entries in insertion order.
#[verifier::external_body]
fn entries_of(m: &IndexMap<String, String>) -> (r: Vec<(String, String)>)
    ensures
        pair_texts(r@) == index_map_entries(*m),
{
    m.iter().map(|(k, v)| (k.clone(), v.clone())).collect()
}

/// Configuration of a tag-adding stage: the tags to add, in order, and
/// whether they replace values already present.
pub struct AddTagsConfig {
    pub tags: IndexMap<String, String>,
    pub overwrite: bool,
}

/// `entries` applied in order to the tag map `m`: each name is set to its
/// value unless it is present already and `overwrite` is off.
pub open spec fn added_tags(m: Map<Seq<char>, Seq<char>>, entries: Seq<(Seq<char>, Seq<char>)>, overwrite: bool) -> Map<Seq<char>, Seq<char>>
    decreases entries.len(),
{
    if entries.len() == 0 {
        m
    } else {
        let prev = added_tags(m, entries.drop_last(), overwrite);
        let (k, v) = entries.last();
        if overwrite || !prev.contains_key(k) {
            prev.insert(k, v)
        } else {
            prev
        }
    }
}

/// The tags of a metric after the stage: unchanged when there is nothing to
/// add; otherwise the entries applied to the tags, or to an empty map where
/// the metric had none.
pub open spec fn tags_after_adding(
    tags: Option<Map<Seq<char>, Seq<char>>>,
    entries: Seq<(Seq<char>, Seq<char>)>,
    overwrite: bool,
) -> Option<Map<Seq<char>, Seq<char>>> {
    if entries.len() == 0 {
        tags
    } else {
        Some(added_tags(
            match tags {
                Some(m) => m,
                None => Map::empty(),
            },
            entries,
            overwrite,
        ))
    }
}

/// A stage that adds tags to metrics.
pub struct AddTags {
    tags: Vec<(String, String)>,
    overwrite: bool,
}

impl AddTags {
    /// The tags to add, as texts, in order.
    pub closed spec fn spec_entries(&self) -> Seq<(Seq<char>, Seq<char>)> {
        pair_texts(self.tags@)
    }

    /// Whether present tags are replaced.
    pub closed spec fn spec_overwrite(&self) -> bool {
        self.overwrite
    }

    /// Whether present tags are replaced.
    pub fn overwrites(&self) -> (r: bool)
        ensures
            r == self.spec_overwrite(),
    {
        self.overwrite
    }

    /// A stage adding `tags`, in their order.
    pub fn new(tags: IndexMap<String, String>, overwrite: bool) -> (r: AddTags)
        ensures
            r.spec_entries() == index_map_entries(tags),
            r.spec_overwrite() == overwrite,
    {
        AddTags { tags: entries_of(&tags), overwrite }
    }

    /// Adds the configured tags to `metric`; nothing else changes. Returns
    /// the names that the metric already had when they came to be set, in
    /// order: with `overwrite` on their values were replaced, with it off
    /// they were left alone. A driver reports each as a non-fatal signal.
    pub fn add_to(&self, metric: &mut Metric) -> (present: Vec<String>)
        ensures
            opt_tags(final(metric).series.tags) == tags_after_adding(
                opt_tags(old(metric).series.tags),
                self.spec_entries(),
                self.spec_overwrite(),
            ),
            texts(present@) == names_present(opt_tags(old(metric).series.tags), self.spec_entries(), self.spec_overwrite()),
            final(metric).series.name == old(metric).series.name,
            final(metric).data == old(metric).data,
            final(metric).metadata == old(metric).metadata,
    {
        let mut present: Vec<String> = Vec::new();
        if self.tags.len() == 0 {
            proof {
                assert(texts(present@) =~= Seq::<Seq<char>>::empty());
            }
            return present;
        }
        let mut map = match metric.series.tags.take() {
            Some(t) => t,
            None => MetricTags::new(),
        };
        let ghost start = map@;
        let ghost entries = self.spec_entries();
        let mut i: usize = 0;
        proof {
            assert(entries.take(0) =~= Seq::<(Seq<char>, Seq<char>)>::empty());
            assert(texts(present@) =~= present_in(start, entries.take(0), self.overwrite));
        }
        while i < self.tags.len()
            invariant
                i <= self.tags@.len(),
                entries == pair_texts(self.tags@),
                map@ == added_tags(start, entries.take(i as int), self.overwrite),
                texts(present@) == present_in(start, entries.take(i as int), self.overwrite),
            decreases self.tags@.len() - i,
        {
            let (name, value) = &self.tags[i];
            proof {
                assert(entries.take(i + 1).drop_last() =~= entries.take(i as int));
                assert(entries.take(i + 1).last() == (name@, value@));
            }
            let had = map.get(name.as_str()).is_some();
            if had {
                present.push(name.clone());
            }
            if self.overwrite || !had {
                map.insert(name.clone(), value.clone());
            }
            proof {
                assert(texts(present@) =~= present_in(start, entries.take(i + 1), self.overwrite));
            }
            i = i + 1;
        }
        proof {
            assert(entries.take(self.tags@.len() as int) =~= entries);
        }
        metric.series.tags = Some(map);
        present
    }

    /// Adds the configured tags to a metric event and appends it to
    /// `output`. Only metric events may be handed over. Returns the names
    /// the metric already had, as [`AddTags::add_to`] does.
    pub fn transform_event(&self, output: &mut Vec<Event>, event: Event) -> (present: Vec<String>)
        requires
            event is Metric,
        ensures
            adds_tags(self.spec_entries(), self.spec_overwrite(), old(output)@, event, final(output)@),
            texts(present@) == names_present(
                opt_tags(event->Metric_0.series.tags),
                self.spec_entries(),
                self.spec_overwrite(),
            ),
    {
        let ghost start = output@;
        match event {
            Event::Metric(mut m) => {
                let present = self.add_to(&mut m);
                output.push(Event::Metric(m));
                proof {
                    assert(output@.take(start.len() as int) =~= start);
                }
                present
            },
            Event::Log(_) => vstd::pervasive::unreached(),
        }
    }
}

/// The names of `entries` that a tag map already holds when each comes to
/// be set, in order.
pub open spec fn present_in(m: Map<Seq<char>, Seq<char>>, entries: Seq<(Seq<char>, Seq<char>)>, overwrite: bool) -> Seq<Seq<char>>
    decreases entries.len(),
{
    if entries.len() == 0 {
        Seq::empty()
    } else {
        let rest = present_in(m, entries.drop_last(), overwrite);
        if added_tags(m, entries.drop_last(), overwrite).contains_key(entries.last().0) {
            rest.push(entries.last().0)
        } else {
            rest
        }
    }
}

/// The names that a metric with tags `tags` already holds when the stage
/// sets them.
pub open spec fn names_present(
    tags: Option<Map<Seq<char>, Seq<char>>>,
    entries: Seq<(Seq<char>, Seq<char>)>,
    overwrite: bool,
) -> Seq<Seq<char>> {
    present_in(
        match tags {
            Some(m) => m,
            None => Map::empty(),
        },
        entries,
        overwrite,
    )
}

/// `after` is `before` with the metric event `event` appended, its tags set
/// as [`tags_after_adding`] says and all else kept.
pub open spec fn adds_tags(
    entries: Seq<(Seq<char>, Seq<char>)>,
    overwrite: bool,
    before: Seq<Event>,
    event: Event,
    after: Seq<Event>,
) -> bool {
    &&& event is Metric
    &&& after.len() == before.len() + 1
    &&& after.take(before.len() as int) == before
    &&& after.last() is Metric
    &&& opt_tags(after.last()->Metric_0.series.tags) == tags_after_adding(
        opt_tags(event->Metric_0.series.tags),
        entries,
        overwrite,
    )
    &&& after.last()->Metric_0.series.name == event->Metric_0.series.name
    &&& after.last()->Metric_0.data == event->Metric_0.data
    &&& after.last()->Metric_0.metadata == event->Metric_0.metadata
}

impl FunctionTransform for AddTags {
    /// Only metric events.
    open spec fn accepts(&self, event: Event) -> bool {
        event is Metric
    }

    fn accepts_event(&self, event: &Event) -> (r: bool) {
        event.is_metric()
    }

    /// Appends the metric with the configured tags added.
    fn transform(&mut self, output: &mut Vec<Event>, event: Event)
        ensures
            adds_tags(old(self).spec_entries(), old(self).spec_overwrite(), old(output)@, event, final(output)@),
            *final(self) == *old(self),
    {
        self.transform_event(output, event);
    }
}

impl AddTagsConfig {
    /// The name under which the stage is configured.
    pub fn transform_type(&self) -> (r: &'static str)
        ensures
            r@ == "add_tags"@,
    {
        "add_tags"
    }

    /// The stage this configuration describes.
    pub fn build(&self) -> (r: AddTags)
        ensures
            r.spec_entries() == index_map_entries(self.tags),
            r.spec_overwrite() == self.overwrite,
    {
        AddTags { tags: entries_of(&self.tags), overwrite: self.overwrite }
    }

    /// The stage takes metrics.
    pub fn input_type(&self) -> (r: DataType)
        ensures
            r == DataType::Metric,
    {
        DataType::Metric
    }

    /// The stage hands on metrics.
    pub fn output_type(&self) -> (r: DataType)
        ensures
            r == DataType::Metric,
    {
        DataType::Metric
    }
}

/// With `overwrite` off, tags that a metric already has keep their values,
/// whatever the stage was configured to set them to.
pub proof fn lemma_no_overwrite_keeps_present(
    m: Map<Seq<char>, Seq<char>>,
    entries: Seq<(Seq<char>, Seq<char>)>,
)
    requires
        forall|i: int| 0 <= i < entries.len() ==> m.contains_key(#[trigger] entries[i].0),
    ensures
        added_tags(m, entries, false) == m,
    decreases entries.len(),
{
    if entries.len() > 0 {
        let rest = entries.drop_last();
        assert forall|i: int| 0 <= i < rest.len() implies m.contains_key(#[trigger] rest[i].0) by {
            assert(rest[i] == entries[i]);
        }
        lemma_no_overwrite_keeps_present(m, rest);
        assert(m.contains_key(entries[entries.len() - 1].0));
    }
}

} // verus!
