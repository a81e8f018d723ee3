use vstd::prelude::*;
use crate::text::{text_equal, text_less, text_lt, lemma_text_lt_irreflexive, lemma_text_lt_total, lemma_text_lt_transitive};

verus! {

/// The texts held by a sequence of strings.
pub open spec fn texts(v: Seq<String>) -> Seq<Seq<char>> {
    v.map_values(|s: String| s@)
}

/// Each text sorts strictly before the next: sorted, with no repeats.
pub open spec fn strictly_sorted(s: Seq<Seq<char>>) -> bool {
    forall|i: int, j: int| 0 <= i < j < s.len() ==> text_lt(#[trigger] s[i], #[trigger] s[j])
}

/// The set of texts that a sequence of strings holds.
pub open spec fn text_set(v: Seq<String>) -> Set<Seq<char>> {
    Set::new(|t: Seq<char>| exists|i: int| 0 <= i < v.len() && #[trigger] v[i]@ == t)
}

/// Sortedness of neighbours extends to every pair.
proof fn lemma_sorted_pairs(s: Seq<Seq<char>>)
    requires
        forall|i: int| 0 <= i < s.len() - 1 ==> text_lt(#[trigger] s[i], s[i + 1]),
    ensures
        strictly_sorted(s),
    decreases s.len(),
{
    if s.len() > 1 {
        let t = s.drop_last();
        assert forall|i: int| 0 <= i < t.len() - 1 implies text_lt(#[trigger] t[i], t[i + 1]) by {
            assert(t[i] == s[i] && t[i + 1] == s[i + 1]);
        }
        lemma_sorted_pairs(t);
        assert forall|i: int, j: int| 0 <= i < j < s.len() implies text_lt(#[trigger] s[i], #[trigger] s[j]) by {
            if j < s.len() - 1 {
                assert(t[i] == s[i] && t[j] == s[j]);
            } else if i < j - 1 {
                assert(t[i] == s[i] && t[j - 1] == s[j - 1]);
                lemma_text_lt_transitive(s[i], s[j - 1], s[j]);
            }
        }
    }
}

/// Position of the first element of a sorted set that is not below `item`,
/// and whether it equals `item`.
pub fn find_slot(values: &Vec<String>, item: &str) -> (r: (usize, bool))
    requires
        strictly_sorted(texts(values@)),
    ensures
        r.0 <= values@.len(),
        forall|i: int| 0 <= i < r.0 ==> text_lt(#[trigger] values@[i]@, item@),
        r.0 < values@.len() ==> !text_lt(values@[r.0 as int]@, item@),
        r.1 <==> (r.0 < values@.len() && values@[r.0 as int]@ == item@),
        r.1 <==> text_set(values@).contains(item@),
{
    let mut i: usize = 0;
    while i < values.len()
        invariant
            i <= values@.len(),
            strictly_sorted(texts(values@)),
            forall|k: int| 0 <= k < i ==> text_lt(#[trigger] values@[k]@, item@),
        decreases values@.len() - i,
    {
        if !text_less(values[i].as_str(), item) {
            let found = text_equal(values[i].as_str(), item);
            proof {
                assert(found == (values@[i as int]@ == item@));
                if !found {
                    assert forall|k: int| 0 <= k < values@.len() implies values@[k]@ != item@ by {
                        if k < i {
                            lemma_text_lt_irreflexive(item@);
                        } else if k > i {
                            assert(texts(values@)[i as int] == values@[i as int]@);
                            assert(texts(values@)[k] == values@[k]@);
                            assert(text_lt(texts(values@)[i as int], texts(values@)[k]));
                            lemma_text_lt_total(values@[i as int]@, item@);
                            if values@[k]@ == item@ {
                                lemma_text_lt_total(values@[i as int]@, item@);
                            }
                        }
                    }
                    assert(!text_set(values@).contains(item@));
                } else {
                    assert(text_set(values@).contains(item@));
                }
            }
            return (i, found);
        }
        i = i + 1;
    }
    proof {
        assert forall|k: int| 0 <= k < values@.len() implies values@[k]@ != item@ by {
            lemma_text_lt_irreflexive(item@);
        }
    }
    (i, false)
}

/// Inserting `item` at the slot that `find_slot` gave keeps the order.
pub proof fn lemma_insert_at_slot(before: Seq<String>, after: Seq<String>, pos: int, item: String)
    requires
        strictly_sorted(texts(before)),
        0 <= pos <= before.len(),
        forall|i: int| 0 <= i < pos ==> text_lt(#[trigger] before[i]@, item@),
        pos < before.len() ==> !text_lt(before[pos]@, item@),
        pos < before.len() ==> before[pos]@ != item@,
        after == before.insert(pos, item),
    ensures
        strictly_sorted(texts(after)),
        text_set(after) == text_set(before).insert(item@),
{
    assert forall|k: int| 0 <= k < after.len() - 1 implies text_lt(#[trigger] texts(after)[k], texts(after)[k + 1]) by {
        if k + 1 < pos {
            assert(text_lt(texts(before)[k], texts(before)[k + 1]));
        } else if k + 1 == pos {
        } else if k == pos {
            lemma_text_lt_total(before[pos]@, item@);
        } else {
            assert(text_lt(texts(before)[k - 1], texts(before)[k]));
        }
    }
    lemma_sorted_pairs(texts(after));
    assert forall|t: Seq<char>| text_set(after).contains(t) <==> text_set(before).insert(item@).contains(t) by {
        if text_set(before).contains(t) {
            let i = choose|i: int| 0 <= i < before.len() && #[trigger] before[i]@ == t;
            if i < pos {
                assert(after[i]@ == t);
            } else {
                assert(after[i + 1]@ == t);
            }
        }
        if t == item@ {
            assert(after[pos]@ == t);
        }
        if text_set(after).contains(t) {
            let i = choose|i: int| 0 <= i < after.len() && #[trigger] after[i]@ == t;
            if i < pos {
                assert(before[i]@ == t);
            } else if i > pos {
                assert(before[i - 1]@ == t);
            }
        }
    }
    assert(text_set(after) =~= text_set(before).insert(item@));
}

/// Removing the element at `pos` keeps the order and drops just its text.
pub proof fn lemma_remove_at(before: Seq<String>, after: Seq<String>, pos: int)
    requires
        strictly_sorted(texts(before)),
        0 <= pos < before.len(),
        after == before.remove(pos),
    ensures
        strictly_sorted(texts(after)),
        text_set(after) == text_set(before).remove(before[pos]@),
{
    let item = before[pos];
    assert forall|i: int, j: int| 0 <= i < j < after.len() implies text_lt(#[trigger] texts(after)[i], #[trigger] texts(after)[j]) by {
        let bi = if i < pos { i } else { i + 1 };
        let bj = if j < pos { j } else { j + 1 };
        assert(text_lt(texts(before)[bi], texts(before)[bj]));
    }
    assert forall|t: Seq<char>| text_set(after).contains(t) <==> text_set(before).remove(item@).contains(t) by {
        if text_set(after).contains(t) {
            let i = choose|i: int| 0 <= i < after.len() && #[trigger] after[i]@ == t;
            let bi = if i < pos { i } else { i + 1 };
            assert(before[bi]@ == t);
            assert(text_lt(texts(before)[if bi < pos { bi } else { pos }], texts(before)[if bi < pos { pos } else { bi }]));
            lemma_text_lt_irreflexive(t);
        }
        if text_set(before).remove(item@).contains(t) {
            let i = choose|i: int| 0 <= i < before.len() && #[trigger] before[i]@ == t;
            if i < pos {
                assert(after[i]@ == t);
            } else {
                assert(i != pos);
                assert(after[i - 1]@ == t);
            }
        }
    }
    assert(text_set(after) =~= text_set(before).remove(item@));
}

/// In a sorted sequence, equal texts sit at equal positions.
pub proof fn lemma_sorted_unique(s: Seq<String>, i: int, j: int)
    requires
        strictly_sorted(texts(s)),
        0 <= i < s.len(),
        0 <= j < s.len(),
        s[i]@ == s[j]@,
    ensures
        i == j,
{
    if i != j {
        let (a, b) = if i < j { (i, j) } else { (j, i) };
        assert(text_lt(texts(s)[a], texts(s)[b]));
        lemma_text_lt_irreflexive(s[i]@);
    }
}

/// Adds `item` to a sorted set of strings; the set keeps its order.
pub fn set_insert(values: &mut Vec<String>, item: String)
    requires
        strictly_sorted(texts(old(values)@)),
    ensures
        strictly_sorted(texts(final(values)@)),
        text_set(final(values)@) == text_set(old(values)@).insert(item@),
{
    let (pos, found) = find_slot(values, item.as_str());
    if found {
        proof {
            assert(text_set(values@) =~= text_set(values@).insert(item@));
        }
        return;
    }
    let ghost before = values@;
    let ghost it = item;
    values.insert(pos, item);
    proof {
        lemma_insert_at_slot(before, values@, pos as int, it);
    }
}

/// Removes `item` from a sorted set of strings; the set keeps its order.
pub fn set_remove(values: &mut Vec<String>, item: &String)
    requires
        strictly_sorted(texts(old(values)@)),
    ensures
        strictly_sorted(texts(final(values)@)),
        text_set(final(values)@) == text_set(old(values)@).remove(item@),
{
    let (pos, found) = find_slot(values, item.as_str());
    if !found {
        proof {
            assert(text_set(values@) =~= text_set(values@).remove(item@));
        }
        return;
    }
    let ghost before = values@;
    values.remove(pos);
    proof {
        lemma_remove_at(before, values@, pos as int);
    }
}

/// The texts of the first `i + 1` strings are those of the first `i` and
/// the text of string `i`.
pub proof fn lemma_text_set_take_step(s: Seq<String>, i: int)
    requires
        0 <= i < s.len(),
    ensures
        text_set(s.take(i + 1)) == text_set(s.take(i)).insert(s[i]@),
{
    let pre = s.take(i);
    let post = s.take(i + 1);
    assert forall|t: Seq<char>| text_set(post).contains(t) <==> text_set(pre).insert(s[i]@).contains(t) by {
        if text_set(post).contains(t) {
            let k = choose|k: int| 0 <= k < post.len() && #[trigger] post[k]@ == t;
            if k < i {
                assert(pre[k]@ == t);
            }
        }
        if text_set(pre).contains(t) {
            let k = choose|k: int| 0 <= k < pre.len() && #[trigger] pre[k]@ == t;
            assert(post[k]@ == t);
        }
        if t == s[i]@ {
            assert(post[i]@ == t);
        }
    }
    assert(text_set(post) =~= text_set(pre).insert(s[i]@));
}

} // verus!
