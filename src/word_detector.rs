//! Keyword index: turns the word ids that a scan reported into the
//! candidate keyword set, rarest words first.
use std::collections::HashMap;
use vstd::prelude::*;

verus! {

broadcast use vstd::std_specs::hash::group_hash_axioms;

/// The reported ids that the count table knows, each with its count, in the
/// order the scan reported them. Unknown ids are dropped.
pub open spec fn known_words(counts: Map<u16, u16>, reported: Seq<u16>) -> Seq<(u16, u16)> {
    reported.filter_map(
        |id: u16|
            if counts.contains_key(id) {
                Some((id, counts[id]))
            } else {
                None
            },
    )
}

/// Entry `a` of `words` comes before entry `b`: a higher count first, and
/// among equal counts the one reported earlier.
pub open spec fn ranks_before(words: Seq<(u16, u16)>, a: int, b: int) -> bool {
    words[a].1 > words[b].1 || (words[a].1 == words[b].1 && a < b)
}

/// The ids of `known_words`, in report order: the keyword set of a subject
/// before ranking.
pub open spec fn keyword_seq(counts: Map<u16, u16>, reported: Seq<u16>) -> Seq<u16> {
    known_words(counts, reported).map_values(|w: (u16, u16)| w.0)
}

/// `order` lists every position of `words` once, highest count first, ties
/// in report order.
pub open spec fn is_rank_order(words: Seq<(u16, u16)>, order: Seq<int>) -> bool {
    &&& order.len() == words.len()
    &&& forall|k: int| 0 <= k < order.len() ==> 0 <= #[trigger] order[k] < words.len()
    &&& forall|p: int| 0 <= p < words.len() ==> #[trigger] order.contains(p)
    &&& forall|x: int, y: int|
        0 <= x < y < order.len() ==> ranks_before(words, #[trigger] order[x], #[trigger] order[y])
}

/// The table built by inserting the first `n` (id, count) pairs into `m`;
/// a later pair for the same id wins.
pub open spec fn count_table(m: Map<u16, u16>, ids: Seq<u16>, counts: Seq<u16>, n: nat) -> Map<
    u16,
    u16,
>
    decreases n,
{
    if n == 0 {
        m
    } else {
        count_table(m, ids, counts, (n - 1) as nat).insert(ids[n - 1], counts[n - 1])
    }
}

/// A keyword index: word id to catalogue-wide word count.
pub struct WordDetector {
    pub name: String,
    id_count_map: HashMap<u16, u16>,
}

impl WordDetector {
    /// The word-count table.
    pub closed spec fn counts(&self) -> Map<u16, u16> {
        self.id_count_map@
    }

    /// An index with no words.
    pub fn new() -> (r: WordDetector)
        ensures
            r.counts() == Map::<u16, u16>::empty(),
    {
        WordDetector { name: String::new(), id_count_map: HashMap::new() }
    }

    /// Renames the index.
    pub fn set_name(&mut self, name: &str)
        ensures
            final(self).counts() == old(self).counts(),
    {
        self.name = name.to_owned();
    }

    /// Adds the words `ids[i]` with counts `counts[i]`, pairing the two lists
    /// up to the shorter one.
    pub fn init(&mut self, ids: &Vec<u16>, counts: &Vec<u16>)
        ensures
            final(self).counts() == count_table(
                old(self).counts(),
                ids@,
                counts@,
                if ids.len() < counts.len() {
                    ids.len() as nat
                } else {
                    counts.len() as nat
                },
            ),
    {
        let n: usize = if ids.len() < counts.len() {
            ids.len()
        } else {
            counts.len()
        };
        let mut i: usize = 0;
        while i < n
            invariant
                i <= n,
                n <= ids.len(),
                n <= counts.len(),
                self.counts() == count_table(old(self).counts(), ids@, counts@, i as nat),
            decreases n - i,
        {
            self.id_count_map.insert(ids[i], counts[i]);
            i = i + 1;
        }
    }

    /// The candidate keyword set for one subject, given the word ids that a
    /// scan of the subject reported, in report order.
    ///
    /// Ids without a count are dropped; the rest are ordered by descending
    /// count, and ids with equal counts keep their report order.
    pub fn get_word_ids(&self, reported: &Vec<u16>) -> (r: Vec<u16>)
        ensures
            r@.len() == known_words(self.counts(), reported@).len(),
            forall|i: int| 0 <= i < r@.len() ==> self.counts().contains_key(#[trigger] r@[i]),
            forall|id: u16| !self.counts().contains_key(id) ==> !r@.contains(id),
            forall|id: u16|
                #[trigger] r@.contains(id) <==> (self.counts().contains_key(id)
                    && reported@.contains(id)),
            forall|id: u16|
                #[trigger] r@.contains(id) <==> keyword_seq(self.counts(), reported@).contains(id),
            exists|order: Seq<int>|
                {
                    &&& is_rank_order(known_words(self.counts(), reported@), order)
                    &&& forall|k: int|
                        0 <= k < r@.len() ==> #[trigger] r@[k] == known_words(
                            self.counts(),
                            reported@,
                        )[order[k]].0
                },
    {
        let ghost counts = self.counts();
        let ghost known = known_words(counts, reported@);
        let mut words: Vec<(u16, u16)> = Vec::new();
        let mut i: usize = 0;
        while i < reported.len()
            invariant
                i <= reported.len(),
                counts == self.counts(),
                words@ == known_words(counts, reported@.take(i as int)),
            decreases reported.len() - i,
        {
            let id = reported[i];
            proof {
                assert(reported@.take(i + 1).drop_last() == reported@.take(i as int));
            }
            match self.id_count_map.get(&id) {
                Some(c) => {
                    words.push((id, *c));
                },
                None => {},
            }
            i = i + 1;
        }
        proof {
            assert(reported@.take(reported.len() as int) == reported@);
        }
        let order = rank_order(&words);
        let mut r: Vec<u16> = Vec::new();
        let mut k: usize = 0;
        while k < order.len()
            invariant
                k <= order.len(),
                words@ == known,
                is_rank_order(known, order@.map_values(|p: usize| p as int)),
                r@.len() == k,
                forall|j: int| 0 <= j < k ==> #[trigger] r@[j] == known[order@[j] as int].0,
            decreases order.len() - k,
        {
            let p = order[k];
            proof {
                assert(order@.map_values(|p: usize| p as int)[k as int] == p as int);
            }
            r.push(words[p].0);
            k = k + 1;
        }
        proof {
            let ord = order@.map_values(|p: usize| p as int);
            assert forall|j: int| 0 <= j < r@.len() implies counts.contains_key(#[trigger] r@[j]) by {
                assert(ord[j] == order@[j] as int);
                lemma_known_words_are_known(counts, reported@, ord[j]);
            }
            assert forall|id: u16| !counts.contains_key(id) implies !r@.contains(id) by {
                if r@.contains(id) {
                    let j = choose|j: int| 0 <= j < r@.len() && r@[j] == id;
                    assert(counts.contains_key(r@[j]));
                }
            }
            assert forall|j: int| 0 <= j < r@.len() implies #[trigger] r@[j] == known[ord[j]].0 by {
                assert(ord[j] == order@[j] as int);
            }
            assert forall|id: u16| #[trigger] r@.contains(id) <==> (counts.contains_key(id)
                && reported@.contains(id)) by {
                lemma_known_words_member(counts, reported@, id);
                if r@.contains(id) {
                    let j = choose|j: int| 0 <= j < r@.len() && r@[j] == id;
                    assert(r@[j] == known[ord[j]].0);
                }
                if counts.contains_key(id) && reported@.contains(id) {
                    let p = choose|p: int| 0 <= p < known.len() && known[p].0 == id;
                    assert(ord.contains(p));
                    let j = choose|j: int| 0 <= j < ord.len() && ord[j] == p;
                    assert(r@[j] == known[ord[j]].0);
                }
            }
            assert forall|id: u16| #[trigger] r@.contains(id) <==> keyword_seq(
                counts,
                reported@,
            ).contains(id) by {
                lemma_known_words_member(counts, reported@, id);
                let ks = keyword_seq(counts, reported@);
                if ks.contains(id) {
                    let p = choose|p: int| 0 <= p < ks.len() && ks[p] == id;
                    assert(known[p].0 == id);
                }
                if counts.contains_key(id) && reported@.contains(id) {
                    let p = choose|p: int| 0 <= p < known.len() && known[p].0 == id;
                    assert(ks[p] == id);
                }
            }
        }
        r
    }
}

/// Every entry of `known_words` carries an id that the table knows, with
/// its count.
proof fn lemma_known_words_are_known(counts: Map<u16, u16>, reported: Seq<u16>, k: int)
    requires
        0 <= k < known_words(counts, reported).len(),
    ensures
        counts.contains_key(known_words(counts, reported)[k].0),
        known_words(counts, reported)[k].1 == counts[known_words(counts, reported)[k].0],
    decreases reported.len(),
{
    if reported.len() > 0 {
        let rest = reported.drop_last();
        if k < known_words(counts, rest).len() {
            lemma_known_words_are_known(counts, rest, k);
        }
    }
}

/// An id has an entry in `known_words` exactly when it was reported and
/// the table knows it.
proof fn lemma_known_words_member(counts: Map<u16, u16>, reported: Seq<u16>, id: u16)
    ensures
        (exists|k: int|
            0 <= k < known_words(counts, reported).len() && #[trigger] known_words(
                counts,
                reported,
            )[k].0 == id) <==> (counts.contains_key(id) && reported.contains(id)),
    decreases reported.len(),
{
    let known = known_words(counts, reported);
    if reported.len() > 0 {
        let rest = reported.drop_last();
        let last = reported.last();
        lemma_known_words_member(counts, rest, id);
        let prev = known_words(counts, rest);
        if counts.contains_key(last) {
            assert(known == prev + seq![(last, counts[last])]);
        } else {
            assert(known == prev);
        }
        if counts.contains_key(id) && reported.contains(id) {
            let t = choose|t: int| 0 <= t < reported.len() && reported[t] == id;
            if t < reported.len() - 1 {
                assert(rest[t] == id);
                let k = choose|k: int| 0 <= k < prev.len() && prev[k].0 == id;
                assert(known[k] == prev[k]);
            } else {
                assert(known[known.len() - 1].0 == id);
            }
        }
        if exists|k: int| 0 <= k < known.len() && #[trigger] known[k].0 == id {
            let k = choose|k: int| 0 <= k < known.len() && #[trigger] known[k].0 == id;
            if k < prev.len() {
                assert(known[k] == prev[k]);
                let t = choose|t: int| 0 <= t < rest.len() && rest[t] == id;
                assert(reported[t] == id);
            } else {
                assert(reported[reported.len() - 1] == id);
            }
        }
    }
}

/// Positions of `words` ordered by descending count, ties in position
/// order (a stable insertion sort).
fn rank_order(words: &Vec<(u16, u16)>) -> (order: Vec<usize>)
    ensures
        is_rank_order(words@, order@.map_values(|p: usize| p as int)),
{
    let mut order: Vec<usize> = Vec::new();
    let mut i: usize = 0;
    while i < words.len()
        invariant
            i <= words.len(),
            order@.len() == i,
            forall|k: int| 0 <= k < order@.len() ==> #[trigger] order@[k] < i,
            forall|p: usize| p < i ==> #[trigger] order@.contains(p),
            forall|x: int, y: int|
                0 <= x < y < order@.len() ==> ranks_before(
                    words@,
                    #[trigger] order@[x] as int,
                    #[trigger] order@[y] as int,
                ),
        decreases words.len() - i,
    {
        let c = words[i].1;
        let mut q: usize = order.len();
        while q > 0 && words[order[q - 1]].1 < c
            invariant
                q <= order@.len(),
                order@.len() == i,
                i < words.len(),
                c == words@[i as int].1,
                forall|k: int| 0 <= k < order@.len() ==> #[trigger] order@[k] < i,
                forall|k: int| q <= k < order@.len() ==> words@[#[trigger] order@[k] as int].1 < c,
            decreases q,
        {
            q = q - 1;
        }
        let ghost old_order = order@;
        proof {
            if q > 0 {
                assert(words@[old_order[q - 1] as int].1 >= c);
                assert forall|k: int| 0 <= k < q implies words@[#[trigger] old_order[k] as int].1
                    >= c by {
                    if k < q - 1 {
                        assert(ranks_before(words@, old_order[k] as int, old_order[q - 1] as int));
                    }
                }
            }
        }
        order.insert(q, i);
        proof {
            assert(order@ == old_order.insert(q as int, i));
            assert forall|x: int, y: int| 0 <= x < y < order@.len() implies ranks_before(
                words@,
                #[trigger] order@[x] as int,
                #[trigger] order@[y] as int,
            ) by {
                if x < q && y < q {
                    assert(order@[x] == old_order[x] && order@[y] == old_order[y]);
                } else if x < q && y == q {
                    assert(order@[x] == old_order[x]);
                } else if x < q {
                    assert(order@[x] == old_order[x] && order@[y] == old_order[y - 1]);
                } else if x == q {
                    assert(order@[y] == old_order[y - 1]);
                } else {
                    assert(order@[x] == old_order[x - 1] && order@[y] == old_order[y - 1]);
                }
            }
            assert forall|p: usize| p < i + 1 implies #[trigger] order@.contains(p) by {
                if p < i {
                    assert(old_order.contains(p));
                    let k = choose|k: int| 0 <= k < old_order.len() && old_order[k] == p;
                    if k < q {
                        assert(order@[k] == p);
                    } else {
                        assert(order@[k + 1] == p);
                    }
                } else {
                    assert(order@[q as int] == p);
                }
            }
            assert forall|k: int| 0 <= k < order@.len() implies #[trigger] order@[k] < i + 1 by {
                if k < q {
                    assert(order@[k] == old_order[k]);
                } else if k > q {
                    assert(order@[k] == old_order[k - 1]);
                }
            }
        }
        i = i + 1;
    }
    proof {
        let ord = order@.map_values(|p: usize| p as int);
        assert forall|p: int| 0 <= p < words@.len() implies #[trigger] ord.contains(p) by {
            assert(order@.contains(p as usize));
            let k = choose|k: int| 0 <= k < order@.len() && order@[k] == p as usize;
            assert(ord[k] == p);
        }
    }
    order
}

} // verus!
