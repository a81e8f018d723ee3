use vstd::prelude::*;
use crate::sorted::{
    find_slot, lemma_insert_at_slot, lemma_remove_at, lemma_sorted_unique, strictly_sorted, text_set,
    texts,
};

verus! {

/// The tags of a metric series: a map from tag name to tag value.
///
/// Names are kept sorted and unique, so two maps with the same contents are
/// equal as values, and they are walked in name order.
///
/// The map is kept in two vectors rather than in std's `BTreeMap`: with
/// `String` keys the specifications of `BTreeMap` prove nothing about the
/// contents (`String`'s order is not known to obey the order laws), so the
/// tag operations could not be stated over a map of texts.
#[derive(Debug, PartialEq, Eq, Hash, PartialOrd)]
pub struct MetricTags {
    names: Vec<String>,
    values: Vec<String>,
}

/// A position at which `names` holds `k`.
pub open spec fn name_index(names: Seq<String>, k: Seq<char>) -> int {
    choose|i: int| 0 <= i < names.len() && #[trigger] names[i]@ == k
}

/// The map held by parallel name and value sequences.
pub open spec fn tag_map(names: Seq<String>, values: Seq<String>) -> Map<Seq<char>, Seq<char>> {
    text_set(names).mk_map(
        |k: Seq<char>| values[name_index(names, k)]@,
    )
}

/// In a sorted name sequence, the name at `i` maps to the value at `i`.
pub proof fn lemma_tag_map_at(names: Seq<String>, values: Seq<String>, i: int)
    requires
        strictly_sorted(texts(names)),
        names.len() == values.len(),
        0 <= i < names.len(),
    ensures
        tag_map(names, values).contains_key(names[i]@),
        tag_map(names, values)[names[i]@] == values[i]@,
{
    let k = names[i]@;
    assert(text_set(names).contains(k));
    assert(0 <= i < names.len() && names[i]@ == k);
    let j = name_index(names, k);
    lemma_sorted_unique(names, i, j);
    assert(tag_map(names, values)[k] == values[j]@);
}

/// Sets tag `name` to `value`, replacing a value it had.
fn insert_entry(names: &mut Vec<String>, values: &mut Vec<String>, name: String, value: String)
    requires
        strictly_sorted(texts(old(names)@)),
        old(names)@.len() == old(values)@.len(),
    ensures
        strictly_sorted(texts(final(names)@)),
        final(names)@.len() == final(values)@.len(),
        tag_map(final(names)@, final(values)@) == tag_map(old(names)@, old(values)@).insert(name@, value@),
{
    let (pos, found) = find_slot(names, name.as_str());
    let ghost before_names = names@;
    let ghost before_values = values@;
    let ghost nm = name;
    let ghost val = value;
    if found {
        values.set(pos, value);
        proof {
            let after = tag_map(names@, values@);
            let want = tag_map(before_names, before_values).insert(nm@, val@);
            assert forall|k: Seq<char>| after.contains_key(k) <==> want.contains_key(k) by {
                if k == nm@ {
                    lemma_tag_map_at(names@, values@, pos as int);
                }
            }
            assert forall|k: Seq<char>| after.contains_key(k) implies after[k] == want[k] by {
                let i = choose|i: int| 0 <= i < names@.len() && #[trigger] names@[i]@ == k;
                lemma_tag_map_at(names@, values@, i);
                if i != pos {
                    lemma_tag_map_at(before_names, before_values, i);
                    if k == nm@ {
                        lemma_sorted_unique(names@, i, pos as int);
                    }
                    assert(before_values[i] == values@[i]);
                } else {
                    assert(values@[i] == val);
                }
            }
            assert(after =~= want);
        }
    } else {
        names.insert(pos, name);
        values.insert(pos, value);
        proof {
            lemma_insert_at_slot(before_names, names@, pos as int, nm);
            let after = tag_map(names@, values@);
            let want = tag_map(before_names, before_values).insert(nm@, val@);
            assert(text_set(names@) =~= text_set(before_names).insert(nm@));
            assert forall|k: Seq<char>| after.contains_key(k) implies after[k] == want[k] by {
                let i = choose|i: int| 0 <= i < names@.len() && #[trigger] names@[i]@ == k;
                lemma_tag_map_at(names@, values@, i);
                if i < pos {
                    lemma_tag_map_at(before_names, before_values, i);
                    assert(before_names[i] == names@[i]);
                } else if i > pos {
                    lemma_tag_map_at(before_names, before_values, i - 1);
                    assert(before_names[i - 1] == names@[i]);
                } else {
                    assert(values@[i] == val);
                }
            }
            assert(after =~= want);
        }
    }
}


/// Removes tag `name`, handing back the value it had.
fn remove_entry(names: &mut Vec<String>, values: &mut Vec<String>, name: &str) -> (r: Option<String>)
    requires
        strictly_sorted(texts(old(names)@)),
        old(names)@.len() == old(values)@.len(),
    ensures
        strictly_sorted(texts(final(names)@)),
        final(names)@.len() == final(values)@.len(),
        tag_map(final(names)@, final(values)@) == tag_map(old(names)@, old(values)@).remove(name@),
        r.is_some() == tag_map(old(names)@, old(values)@).contains_key(name@),
        r.is_some() ==> r.unwrap()@ == tag_map(old(names)@, old(values)@)[name@],
{
    let (pos, found) = find_slot(names, name);
    if !found {
        proof {
            assert(tag_map(names@, values@) =~= tag_map(names@, values@).remove(name@));
        }
        return None;
    }
    let ghost before_names = names@;
    let ghost before_values = values@;
    proof {
        lemma_tag_map_at(before_names, before_values, pos as int);
    }
    names.remove(pos);
    let v = values.remove(pos);
    proof {
        lemma_remove_at(before_names, names@, pos as int);
        let after = tag_map(names@, values@);
        let want = tag_map(before_names, before_values).remove(name@);
        assert forall|k: Seq<char>| after.contains_key(k) implies after[k] == want[k] by {
            let i = choose|i: int| 0 <= i < names@.len() && #[trigger] names@[i]@ == k;
            lemma_tag_map_at(names@, values@, i);
            assert(text_set(names@).contains(k));
            if i < pos {
                lemma_tag_map_at(before_names, before_values, i);
                assert(before_names[i] == names@[i]);
                assert(before_values[i] == values@[i]);
            } else {
                lemma_tag_map_at(before_names, before_values, i + 1);
                assert(before_names[i + 1] == names@[i]);
                assert(before_values[i + 1] == values@[i]);
            }
        }
        assert(after =~= want);
    }
    Some(v)
}
impl View for MetricTags {
    type V = Map<Seq<char>, Seq<char>>;

    closed spec fn view(&self) -> Map<Seq<char>, Seq<char>> {
        tag_map(self.names@, self.values@)
    }
}

impl MetricTags {
    /// Names sorted and unique, one value for each.
    #[verifier::type_invariant]
    spec fn wf(&self) -> bool {
        &&& strictly_sorted(texts(self.names@))
        &&& self.names@.len() == self.values@.len()
    }

    /// The names, in sorted order.
    pub closed spec fn spec_names(&self) -> Seq<String> {
        self.names@
    }

    /// The values, in the order of their names.
    pub closed spec fn spec_values(&self) -> Seq<String> {
        self.values@
    }

    /// An empty map.
    pub fn new() -> (r: MetricTags)
        ensures
            r@ == Map::<Seq<char>, Seq<char>>::empty(),
    {
        let r = MetricTags { names: Vec::new(), values: Vec::new() };
        proof {
            assert(r@ =~= Map::<Seq<char>, Seq<char>>::empty());
        }
        r
    }

    /// The number of tags. The names, in sorted order, and the values, in
    /// the order of their names, make up the map.
    pub fn len(&self) -> (r: usize)
        ensures
            r == self@.dom().len(),
            r == self.spec_names().len(),
            r == self.spec_values().len(),
            strictly_sorted(texts(self.spec_names())),
            self@ == tag_map(self.spec_names(), self.spec_values()),
    {
        proof {
            use_type_invariant(self);
        }
        proof {
            self.lemma_dom_len();
        }
        self.names.len()
    }

    proof fn lemma_dom_len(&self)
        requires
            self.wf(),
        ensures
            self@.dom().finite(),
            self@.dom().len() == self.names@.len(),
    {
        let f = |s: String| s@;
        let ks = texts(self.names@);
        assert(ks.no_duplicates()) by {
            assert forall|i: int, j: int| 0 <= i < ks.len() && 0 <= j < ks.len() && i != j implies ks[i] != ks[j] by {
                if ks[i] == ks[j] {
                    lemma_sorted_unique(self.names@, i, j);
                }
            }
        }
        assert(self@.dom() =~= ks.to_set()) by {
            assert forall|k: Seq<char>| self@.dom().contains(k) <==> ks.to_set().contains(k) by {
                if self@.dom().contains(k) {
                    let i = choose|i: int| 0 <= i < self.names@.len() && #[trigger] self.names@[i]@ == k;
                    assert(ks[i] == k);
                }
                if ks.to_set().contains(k) {
                    let i = choose|i: int| 0 <= i < ks.len() && ks[i] == k;
                    assert(self.names@[i]@ == k);
                }
            }
        }
        ks.unique_seq_to_set();
    }

    /// Whether the map is empty.
    pub fn is_empty(&self) -> (r: bool)
        ensures
            r == (self@.dom().len() == 0),
            r == (self@ == Map::<Seq<char>, Seq<char>>::empty()),
    {
        proof {
            use_type_invariant(self);
        }
        proof {
            self.lemma_dom_len();
            if self.names@.len() == 0 {
                assert(self@ =~= Map::<Seq<char>, Seq<char>>::empty());
            } else {
                lemma_tag_map_at(self.names@, self.values@, 0);
                assert(!Map::<Seq<char>, Seq<char>>::empty().contains_key(self.names@[0]@));
            }
        }
        self.names.len() == 0
    }

    /// The name at position `i`, in sorted order.
    pub fn name_at(&self, i: usize) -> (r: &String)
        requires
            i < self.spec_names().len(),
        ensures
            *r == self.spec_names()[i as int],
    {
        proof {
            use_type_invariant(self);
        }
        &self.names[i]
    }

    /// The value at position `i`, in the order of the names.
    pub fn value_at(&self, i: usize) -> (r: &String)
        requires
            i < self.spec_names().len(),
        ensures
            *r == self.spec_values()[i as int],
    {
        proof {
            use_type_invariant(self);
        }
        &self.values[i]
    }

    /// The value of tag `name`, if the map has it.
    pub fn get(&self, name: &str) -> (r: Option<&String>)
        ensures
            r.is_some() == self@.contains_key(name@),
            r.is_some() ==> r.unwrap()@ == self@[name@],
    {
        proof {
            use_type_invariant(self);
        }
        let (pos, found) = find_slot(&self.names, name);
        if found {
            proof {
                lemma_tag_map_at(self.names@, self.values@, pos as int);
            }
            Some(&self.values[pos])
        } else {
            None
        }
    }

    /// Sets tag `name` to `value`, replacing a value it had.
    pub fn insert(&mut self, name: String, value: String)
        ensures
            final(self)@ == old(self)@.insert(name@, value@),
    {
        proof {
            use_type_invariant(&*self);
        }
        let mut taken = MetricTags { names: Vec::new(), values: Vec::new() };
        proof {
            assert(strictly_sorted(texts(taken.names@)));
        }
        core::mem::swap(self, &mut taken);
        let MetricTags { mut names, mut values } = taken;
        insert_entry(&mut names, &mut values, name, value);
        *self = MetricTags { names, values };
    }

    /// Removes tag `name`, handing back the value it had.
    pub fn remove(&mut self, name: &str) -> (r: Option<String>)
        ensures
            final(self)@ == old(self)@.remove(name@),
            r.is_some() == old(self)@.contains_key(name@),
            r.is_some() ==> r.unwrap()@ == old(self)@[name@],
    {
        proof {
            use_type_invariant(&*self);
        }
        let mut taken = MetricTags { names: Vec::new(), values: Vec::new() };
        proof {
            assert(strictly_sorted(texts(taken.names@)));
        }
        core::mem::swap(self, &mut taken);
        let MetricTags { mut names, mut values } = taken;
        let r = remove_entry(&mut names, &mut values, name);
        *self = MetricTags { names, values };
        r
    }
}

/// A copy of a sequence of strings, text for text.
pub fn copy_strings(v: &Vec<String>) -> (r: Vec<String>)
    ensures
        texts(r@) == texts(v@),
        text_set(r@) == text_set(v@),
        r@.len() == v@.len(),
        forall|i: int| 0 <= i < v@.len() ==> #[trigger] r@[i]@ == v@[i]@,
{
    let mut out: Vec<String> = Vec::new();
    let mut i: usize = 0;
    while i < v.len()
        invariant
            i <= v@.len(),
            out@.len() == i,
            forall|k: int| 0 <= k < i ==> #[trigger] out@[k]@ == v@[k]@,
        decreases v@.len() - i,
    {
        out.push(v[i].clone());
        i = i + 1;
    }
    proof {
        assert(texts(out@) =~= texts(v@));
        assert forall|t: Seq<char>| text_set(out@).contains(t) <==> text_set(v@).contains(t) by {
            if text_set(out@).contains(t) {
                let k = choose|k: int| 0 <= k < out@.len() && #[trigger] out@[k]@ == t;
                assert(v@[k]@ == t);
            }
            if text_set(v@).contains(t) {
                let k = choose|k: int| 0 <= k < v@.len() && #[trigger] v@[k]@ == t;
                assert(out@[k]@ == t);
            }
        }
        assert(text_set(out@) =~= text_set(v@));
    }
    out
}

impl MetricTags {
    /// A copy with the same contents.
    pub fn copy(&self) -> (r: MetricTags)
        ensures
            r@ == self@,
    {
        proof {
            use_type_invariant(self);
        }
        let names = copy_strings(&self.names);
        let values = copy_strings(&self.values);
        let r = MetricTags { names, values };
        proof {
            assert forall|k: Seq<char>| r@.contains_key(k) implies r@[k] == self@[k] by {
                let i = name_index(r.names@, k);
                assert(text_set(r.names@).contains(k));
                lemma_tag_map_at(r.names@, r.values@, i);
                lemma_tag_map_at(self.names@, self.values@, i);
            }
            assert(r@ =~= self@);
        }
        r
    }
}

impl Clone for MetricTags {
    fn clone(&self) -> (r: MetricTags)
        ensures
            r@ == self@,
    {
        self.copy()
    }
}

} // verus!
