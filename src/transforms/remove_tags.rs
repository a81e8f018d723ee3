use vstd::prelude::*;
use crate::event::Event;
use crate::metric::{opt_tags, Metric};
use crate::sorted::{lemma_text_set_take_step, text_set};
use crate::transform::{DataType, FunctionTransform};

verus! {

/// Configuration of a tag-removing stage: the names of the tags to remove.
#[derive(Clone, Debug, PartialEq)]
pub struct RemoveTagsConfig {
    pub tags: Vec<String>,
}

/// The tags of a metric after removing `names`: unchanged when no name is
/// given or the metric has no tags; otherwise the remaining tags, or none at
/// all where none remain.
pub open spec fn tags_after_removing(
    tags: Option<Map<Seq<char>, Seq<char>>>,
    names: Seq<String>,
) -> Option<Map<Seq<char>, Seq<char>>> {
    match tags {
        None => None,
        Some(m) => if names.len() == 0 {
            Some(m)
        } else if m.remove_keys(text_set(names)).dom().len() == 0 {
            None
        } else {
            Some(m.remove_keys(text_set(names)))
        },
    }
}

/// A stage that removes tags from metrics.
#[derive(Clone, Debug)]
pub struct RemoveTags {
    tags: Vec<String>,
}

impl RemoveTags {
    /// The names of the tags to remove.
    pub closed spec fn spec_names(&self) -> Seq<String> {
        self.tags@
    }

    /// A stage removing the tags named in `tags`.
    pub fn new(tags: Vec<String>) -> (r: RemoveTags)
        ensures
            r.spec_names() == tags@,
    {
        RemoveTags { tags }
    }

    /// Removes the configured tags from `metric`; tags left empty become no
    /// tags at all. Nothing else changes.
    pub fn remove_from(&self, metric: &mut Metric)
        ensures
            opt_tags(final(metric).series.tags) == tags_after_removing(
                opt_tags(old(metric).series.tags),
                self.spec_names(),
            ),
            final(metric).series.name == old(metric).series.name,
            final(metric).data == old(metric).data,
            final(metric).metadata == old(metric).metadata,
    {
        let mut map = match metric.series.tags.take() {
            Some(t) => t,
            None => return,
        };
        let ghost start = map@;
        let ghost names = self.tags@;
        let mut i: usize = 0;
        proof {
            assert(start.remove_keys(text_set(names.take(0))) =~= start);
        }
        while i < self.tags.len()
            invariant
                i <= names.len(),
                names == self.tags@,
                map@ == start.remove_keys(text_set(names.take(i as int))),
                i > 0 ==> map@.dom().len() > 0,
                opt_tags(old(metric).series.tags) == Some(start),
                metric.series.name == old(metric).series.name,
                metric.data == old(metric).data,
                metric.metadata == old(metric).metadata,
            decreases names.len() - i,
        {
            let ghost before = map@;
            map.remove(self.tags[i].as_str());
            proof {
                lemma_text_set_take_step(names, i as int);
                assert(map@ =~= start.remove_keys(text_set(names.take(i + 1))));
            }
            if map.is_empty() {
                proof {
                    let all = start.remove_keys(text_set(names));
                    assert(map@ == Map::<Seq<char>, Seq<char>>::empty());
                    assert(all.dom().len() == 0) by {
                        assert forall|k: Seq<char>| !all.contains_key(k) by {
                            if all.contains_key(k) {
                                assert(!text_set(names).contains(k));
                                assert(!text_set(names.take(i + 1)).contains(k)) by {
                                    if text_set(names.take(i + 1)).contains(k) {
                                        let j = choose|j: int| 0 <= j < names.take(i + 1).len() && #[trigger] names.take(i + 1)[j]@ == k;
                                        assert(names[j]@ == k);
                                    }
                                }
                                assert(map@.contains_key(k));
                            }
                        }
                        assert(all.dom() =~= Set::<Seq<char>>::empty());
                    }
                }
                metric.series.tags = None;
                return;
            }
            i = i + 1;
        }
        proof {
            assert(names.take(names.len() as int) =~= names);
        }
        metric.series.tags = Some(map);
    }

    /// Removes the configured tags from a metric event and appends it to
    /// `output`. Only metric events may be handed over.
    pub fn transform_event(&self, output: &mut Vec<Event>, event: Event)
        requires
            event is Metric,
        ensures
            removes_tags(self.spec_names(), old(output)@, event, final(output)@),
    {
        let ghost start = output@;
        match event {
            Event::Metric(mut m) => {
                self.remove_from(&mut m);
                output.push(Event::Metric(m));
                proof {
                    assert(output@.take(start.len() as int) =~= start);
                }
            },
            Event::Log(_) => vstd::pervasive::unreached(),
        }
    }
}

/// `after` is `before` with the metric event `event` appended, its tags
/// reduced as [`tags_after_removing`] says and all else kept.
pub open spec fn removes_tags(names: Seq<String>, before: Seq<Event>, event: Event, after: Seq<Event>) -> bool {
    &&& event is Metric
    &&& after.len() == before.len() + 1
    &&& after.take(before.len() as int) == before
    &&& after.last() is Metric
    &&& opt_tags(after.last()->Metric_0.series.tags) == tags_after_removing(
        opt_tags(event->Metric_0.series.tags),
        names,
    )
    &&& after.last()->Metric_0.series.name == event->Metric_0.series.name
    &&& after.last()->Metric_0.data == event->Metric_0.data
    &&& after.last()->Metric_0.metadata == event->Metric_0.metadata
}

impl FunctionTransform for RemoveTags {
    /// Only metric events.
    open spec fn accepts(&self, event: Event) -> bool {
        event is Metric
    }

    fn accepts_event(&self, event: &Event) -> (r: bool) {
        event.is_metric()
    }

    /// Appends the metric with the configured tags removed.
    fn transform(&mut self, output: &mut Vec<Event>, event: Event)
        ensures
            removes_tags(old(self).spec_names(), old(output)@, event, final(output)@),
            *final(self) == *old(self),
    {
        self.transform_event(output, event);
    }
}

impl RemoveTagsConfig {
    /// The name under which the stage is configured.
    pub fn transform_type(&self) -> (r: &'static str)
        ensures
            r@ == "remove_tags"@,
    {
        "remove_tags"
    }

    /// An example configuration, naming no tag.
    pub fn generate_config() -> (r: RemoveTagsConfig)
        ensures
            r.tags@.len() == 0,
    {
        RemoveTagsConfig { tags: Vec::new() }
    }

    /// The stage this configuration describes.
    pub fn build(&self) -> (r: RemoveTags)
        ensures
            r.spec_names().len() == self.tags@.len(),
            forall|i: int| 0 <= i < self.tags@.len() ==> #[trigger] r.spec_names()[i]@ == self.tags@[i]@,
    {
        RemoveTags::new(crate::tags::copy_strings(&self.tags))
    }

    /// The stage takes metrics.
    pub fn input_type(&self) -> (r: DataType)
        ensures
            r == DataType::Metric,
    {
        DataType::Metric
    }

    /// The stage hands on metrics.
    pub fn output_type(&self) -> (r: DataType)
        ensures
            r == DataType::Metric,
    {
        DataType::Metric
    }
}

} // verus!
