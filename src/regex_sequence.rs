//! Ordered rule list: per-rule priority and required words over the rules
//! of one category, and the choice of the winning rule for a subject.
use std::collections::HashMap;
use vstd::prelude::*;

verus! {

broadcast use vstd::std_specs::hash::group_hash_axioms;

/// One rule of a category as the catalogue lists it.
#[derive(Clone, Copy, Debug)]
pub struct RuleRow {
    /// Dense key that the compiled scanner reports for this rule.
    pub rowid: u16,
    /// Catalogue-wide key of the rule.
    pub id: u16,
    /// Priority: the lower value wins.
    pub sequence: u16,
    /// First required word id, 0 for none.
    pub word1: u16,
    /// Second required word id, 0 for none.
    pub word2: u16,
}

/// One rule that a scan of the subject reported, with the text of its first
/// capture group when the scanner captured one.
#[derive(Debug)]
pub struct RuleMatch {
    pub rowid: u16,
    pub capture: Option<String>,
}

/// The required words of a rule: its two word slots with zeros left out.
pub open spec fn required_words(word1: u16, word2: u16) -> Seq<u16> {
    (if word1 != 0 {
        seq![word1]
    } else {
        Seq::<u16>::empty()
    }) + (if word2 != 0 {
        seq![word2]
    } else {
        Seq::<u16>::empty()
    })
}

/// Every required word occurs among the candidate keywords.
pub open spec fn qualifies(required: Seq<u16>, keywords: Seq<u16>) -> bool {
    forall|i: int| 0 <= i < required.len() ==> keywords.contains(#[trigger] required[i])
}

/// `m` with each of `rows` inserted under its rowid, mapped through `f`; a
/// later row for the same rowid wins.
pub open spec fn keyed_by_rowid<V>(m: Map<u16, V>, rows: Seq<RuleRow>, f: spec_fn(RuleRow) -> V) -> Map<
    u16,
    V,
>
    decreases rows.len(),
{
    if rows.len() == 0 {
        m
    } else {
        keyed_by_rowid(m, rows.drop_last(), f).insert(rows.last().rowid, f(rows.last()))
    }
}

/// An ordered rule list.
pub struct RegexSequence {
    pub name: String,
    /// Whether the scanner for this list is built to report capture groups.
    pub need_capture: bool,
    id_word_map: HashMap<u16, Vec<u16>>,
    rowid_sequence_map: HashMap<u16, u16>,
    rowid_id_map: HashMap<u16, u16>,
}

impl RegexSequence {
    /// Whether the scanner of this list must report capture groups.
    pub closed spec fn captures(&self) -> bool {
        self.need_capture
    }

    /// rowid to sequence.
    pub closed spec fn sequences(&self) -> Map<u16, u16> {
        self.rowid_sequence_map@
    }

    /// rowid to catalogue-wide rule id.
    pub closed spec fn ids(&self) -> Map<u16, u16> {
        self.rowid_id_map@
    }

    /// rowid to required words.
    pub closed spec fn words(&self) -> Map<u16, Seq<u16>> {
        Map::new(|k: u16| self.id_word_map@.contains_key(k), |k: u16| self.id_word_map@[k]@)
    }

    /// Every known rowid has a sequence, an id and its required words, and
    /// no required word is the sentinel 0.
    pub open spec fn wf(&self) -> bool {
        &&& self.sequences().dom() == self.ids().dom()
        &&& self.ids().dom() == self.words().dom()
        &&& forall|k: u16|
            #[trigger] self.words().contains_key(k) ==> !self.words()[k].contains(0u16)
    }

    /// Position `i` of `found` is a rule that qualifies for `keywords`.
    pub open spec fn is_candidate(&self, found: Seq<RuleMatch>, keywords: Seq<u16>, i: int) -> bool {
        &&& 0 <= i < found.len()
        &&& self.sequences().contains_key(found[i].rowid)
        &&& qualifies(self.words()[found[i].rowid], keywords)
    }

    /// Position `i` of `found` wins: it qualifies, no qualifying rule has a
    /// lower sequence, and every qualifying rule of equal sequence was
    /// reported later.
    pub open spec fn is_winner(&self, found: Seq<RuleMatch>, keywords: Seq<u16>, i: int) -> bool {
        &&& self.is_candidate(found, keywords, i)
        &&& forall|j: int|
            #[trigger] self.is_candidate(found, keywords, j) ==> {
                ||| self.sequences()[found[i].rowid] < self.sequences()[found[j].rowid]
                ||| (self.sequences()[found[i].rowid] == self.sequences()[found[j].rowid] && i
                    <= j)
            }
    }

    /// The winning rule's rowid and capture, or `None` when the keyword set
    /// is empty or no reported rule qualifies.
    pub open spec fn best(&self, found: Seq<RuleMatch>, keywords: Seq<u16>) -> Option<
        (u16, Option<String>),
    > {
        if keywords.len() > 0 && exists|i: int| self.is_winner(found, keywords, i) {
            let i = choose|i: int| self.is_winner(found, keywords, i);
            Some((found[i].rowid, found[i].capture))
        } else {
            None
        }
    }

    /// A list with no rules.
    pub fn new(need_capture: bool) -> (r: RegexSequence)
        ensures
            r.wf(),
            r.sequences() == Map::<u16, u16>::empty(),
            r.ids() == Map::<u16, u16>::empty(),
            r.words() == Map::<u16, Seq<u16>>::empty(),
            r.captures() == need_capture,
    {
        let r = RegexSequence {
            name: String::new(),
            need_capture,
            id_word_map: HashMap::new(),
            rowid_sequence_map: HashMap::new(),
            rowid_id_map: HashMap::new(),
        };
        proof {
            assert(r.words() =~= Map::<u16, Seq<u16>>::empty());
        }
        r
    }

    /// Renames the list.
    pub fn set_name(&mut self, name: &str)
        ensures
            final(self).sequences() == old(self).sequences(),
            final(self).ids() == old(self).ids(),
            final(self).words() == old(self).words(),
            final(self).captures() == old(self).captures(),
    {
        self.name = name.to_owned();
    }

    /// Adds `rows` to the list; a later row for an existing rowid replaces it.
    pub fn init(&mut self, rows: &Vec<RuleRow>)
        requires
            old(self).wf(),
        ensures
            final(self).wf(),
            final(self).sequences() == keyed_by_rowid(
                old(self).sequences(),
                rows@,
                |r: RuleRow| r.sequence,
            ),
            final(self).ids() == keyed_by_rowid(old(self).ids(), rows@, |r: RuleRow| r.id),
            final(self).words() == keyed_by_rowid(
                old(self).words(),
                rows@,
                |r: RuleRow| required_words(r.word1, r.word2),
            ),
            final(self).captures() == old(self).captures(),
    {
        let mut i: usize = 0;
        while i < rows.len()
            invariant
                i <= rows.len(),
                self.wf(),
                self.captures() == old(self).captures(),
                self.sequences() == keyed_by_rowid(
                    old(self).sequences(),
                    rows@.take(i as int),
                    |r: RuleRow| r.sequence,
                ),
                self.ids() == keyed_by_rowid(
                    old(self).ids(),
                    rows@.take(i as int),
                    |r: RuleRow| r.id,
                ),
                self.words() == keyed_by_rowid(
                    old(self).words(),
                    rows@.take(i as int),
                    |r: RuleRow| required_words(r.word1, r.word2),
                ),
            decreases rows.len() - i,
        {
            let row = rows[i];
            let mut word_vec: Vec<u16> = Vec::new();
            if row.word1 != 0 {
                word_vec.push(row.word1);
            }
            if row.word2 != 0 {
                word_vec.push(row.word2);
            }
            proof {
                assert(word_vec@ =~= required_words(row.word1, row.word2));
                assert(rows@.take(i + 1).drop_last() == rows@.take(i as int));
            }
            let ghost old_words = self.words();
            self.rowid_sequence_map.insert(row.rowid, row.sequence);
            self.id_word_map.insert(row.rowid, word_vec);
            self.rowid_id_map.insert(row.rowid, row.id);
            proof {
                assert(self.words() =~= old_words.insert(
                    row.rowid,
                    required_words(row.word1, row.word2),
                ));
            }
            i = i + 1;
        }
        proof {
            assert(rows@.take(rows.len() as int) == rows@);
        }
    }

    /// The catalogue-wide id of the rule at `rowid`.
    pub fn get_id(&self, rowid: u16) -> (r: Option<u16>)
        ensures
            r == (if self.ids().contains_key(rowid) {
                Some(self.ids()[rowid])
            } else {
                None
            }),
    {
        match self.rowid_id_map.get(&rowid) {
            Some(id) => Some(*id),
            None => None,
        }
    }

    /// The rule that wins for a subject, given the rules that a scan of the
    /// subject reported (in report order) and the candidate keyword set.
    ///
    /// Returns `None` at once when `word_ids` is empty. Otherwise, among the
    /// reported rules with a known rowid whose required words all occur in
    /// `word_ids`, the one with the lowest sequence wins; between equal
    /// sequences the earlier report wins.
    pub fn get_row_id_and_capture(&self, found: &Vec<RuleMatch>, word_ids: &Vec<u16>) -> (r:
        Option<(u16, Option<String>)>)
        requires
            self.wf(),
        ensures
            r == self.best(found@, word_ids@),
    {
        if word_ids.len() == 0 {
            return None;
        }
        let mut winner: Option<usize> = None;
        let mut winner_seq: u16 = 0;
        let mut i: usize = 0;
        while i < found.len()
            invariant
                i <= found.len(),
                self.wf(),
                match winner {
                    None => forall|j: int|
                        0 <= j < i ==> !#[trigger] self.is_candidate(found@, word_ids@, j),
                    Some(w) => {
                        &&& w < i
                        &&& self.is_candidate(found@, word_ids@, w as int)
                        &&& winner_seq == self.sequences()[found@[w as int].rowid]
                        &&& forall|j: int|
                            0 <= j < i && #[trigger] self.is_candidate(found@, word_ids@, j) ==> {
                                ||| winner_seq < self.sequences()[found@[j].rowid]
                                ||| (winner_seq == self.sequences()[found@[j].rowid] && w <= j)
                            }
                    },
                },
            decreases found.len() - i,
        {
            let rowid = found[i].rowid;
            match self.rowid_sequence_map.get(&rowid) {
                None => {},
                Some(seq) => {
                    let seq = *seq;
                    proof {
                        assert(self.words().contains_key(rowid));
                    }
                    let required = self.id_word_map.get(&rowid).unwrap();
                    let ok = contains_all(required, word_ids);
                    if ok {
                        let better = match winner {
                            None => true,
                            Some(_) => seq < winner_seq,
                        };
                        if better {
                            winner = Some(i);
                            winner_seq = seq;
                        }
                    }
                },
            }
            i = i + 1;
        }
        match winner {
            None => {
                proof {
                    assert forall|w: int| !self.is_winner(found@, word_ids@, w) by {
                        if self.is_winner(found@, word_ids@, w) {
                            assert(self.is_candidate(found@, word_ids@, w));
                        }
                    }
                }
                None
            },
            Some(w) => {
                proof {
                    assert(self.is_winner(found@, word_ids@, w as int));
                    let c = choose|c: int| self.is_winner(found@, word_ids@, c);
                    assert(self.is_candidate(found@, word_ids@, c));
                    assert(self.is_candidate(found@, word_ids@, w as int));
                    assert(c == w);
                }
                let m = &found[w];
                Some((m.rowid, m.capture.clone()))
            },
        }
    }
}

/// At most one position wins.
pub proof fn lemma_winner_unique(
    rs: &RegexSequence,
    found: Seq<RuleMatch>,
    keywords: Seq<u16>,
    i: int,
    j: int,
)
    requires
        rs.is_winner(found, keywords, i),
        rs.is_winner(found, keywords, j),
    ensures
        i == j,
{
    assert(rs.is_candidate(found, keywords, i));
    assert(rs.is_candidate(found, keywords, j));
}

/// The winner depends on the candidate keywords only through which ids
/// they hold.
pub proof fn lemma_best_same_keywords(
    rs: &RegexSequence,
    found: Seq<RuleMatch>,
    k1: Seq<u16>,
    k2: Seq<u16>,
)
    requires
        rs.wf(),
        forall|id: u16| #[trigger] k1.contains(id) <==> k2.contains(id),
    ensures
        rs.best(found, k1) == rs.best(found, k2),
{
    if k1.len() > 0 {
        assert(k1.contains(k1[0]));
        assert(k2.contains(k1[0]));
    }
    if k2.len() > 0 {
        assert(k2.contains(k2[0]));
        assert(k1.contains(k2[0]));
    }
    assert(k1.len() > 0 <==> k2.len() > 0);
    assert forall|i: int| #[trigger] rs.is_candidate(found, k1, i) == rs.is_candidate(found, k2, i) by {
        if 0 <= i < found.len() && rs.sequences().contains_key(found[i].rowid) {
            let w = rs.words()[found[i].rowid];
            if qualifies(w, k1) {
                assert forall|t: int| 0 <= t < w.len() implies k2.contains(#[trigger] w[t]) by {
                    assert(k1.contains(w[t]));
                }
            }
            if qualifies(w, k2) {
                assert forall|t: int| 0 <= t < w.len() implies k1.contains(#[trigger] w[t]) by {
                    assert(k2.contains(w[t]));
                }
            }
        }
    }
    assert forall|i: int| #[trigger] rs.is_winner(found, k1, i) == rs.is_winner(found, k2, i) by {
        if rs.is_winner(found, k1, i) {
            assert forall|j: int| #[trigger] rs.is_candidate(found, k2, j) implies {
                ||| rs.sequences()[found[i].rowid] < rs.sequences()[found[j].rowid]
                ||| (rs.sequences()[found[i].rowid] == rs.sequences()[found[j].rowid] && i <= j)
            } by {
                assert(rs.is_candidate(found, k1, j));
            }
        }
        if rs.is_winner(found, k2, i) {
            assert forall|j: int| #[trigger] rs.is_candidate(found, k1, j) implies {
                ||| rs.sequences()[found[i].rowid] < rs.sequences()[found[j].rowid]
                ||| (rs.sequences()[found[i].rowid] == rs.sequences()[found[j].rowid] && i <= j)
            } by {
                assert(rs.is_candidate(found, k2, j));
            }
        }
    }
    if exists|i: int| rs.is_winner(found, k1, i) {
        let a = choose|i: int| rs.is_winner(found, k1, i);
        let b = choose|i: int| rs.is_winner(found, k2, i);
        assert(rs.is_winner(found, k2, a));
        lemma_winner_unique(rs, found, k2, a, b);
    } else {
        assert forall|i: int| !rs.is_winner(found, k2, i) by {
            assert(!rs.is_winner(found, k1, i));
        }
    }
}

/// Every reported rule that takes part in the choice has a sequence and a
/// catalogue-wide id, and so has the winner.
pub proof fn lemma_candidates_known(rs: &RegexSequence, found: Seq<RuleMatch>, keywords: Seq<u16>)
    requires
        rs.wf(),
    ensures
        forall|i: int|
            #[trigger] rs.is_candidate(found, keywords, i) ==> rs.sequences().contains_key(
                found[i].rowid,
            ) && rs.ids().contains_key(found[i].rowid),
        rs.best(found, keywords) matches Some((rowid, _)) ==> rs.sequences().contains_key(rowid)
            && rs.ids().contains_key(rowid),
{
    assert forall|i: int| #[trigger] rs.is_candidate(found, keywords, i) implies rs.ids().contains_key(
        found[i].rowid,
    ) by {
        assert(rs.sequences().dom().contains(found[i].rowid));
    }
    if rs.best(found, keywords) is Some {
        let w = choose|i: int| rs.is_winner(found, keywords, i);
        assert(rs.is_candidate(found, keywords, w));
    }
}

/// Among the candidates below `n`, one comes first by (sequence, position).
proof fn lemma_first_candidate_below(
    rs: &RegexSequence,
    found: Seq<RuleMatch>,
    keywords: Seq<u16>,
    n: int,
    c: int,
) -> (w: int)
    requires
        0 <= c < n <= found.len(),
        rs.is_candidate(found, keywords, c),
    ensures
        0 <= w < n,
        rs.is_candidate(found, keywords, w),
        forall|j: int|
            0 <= j < n && #[trigger] rs.is_candidate(found, keywords, j) ==> {
                ||| rs.sequences()[found[w].rowid] < rs.sequences()[found[j].rowid]
                ||| (rs.sequences()[found[w].rowid] == rs.sequences()[found[j].rowid] && w <= j)
            },
    decreases n,
{
    if c == n - 1 {
        if exists|d: int| 0 <= d < n - 1 && rs.is_candidate(found, keywords, d) {
            let d = choose|d: int| 0 <= d < n - 1 && rs.is_candidate(found, keywords, d);
            let w0 = lemma_first_candidate_below(rs, found, keywords, n - 1, d);
            if rs.sequences()[found[c].rowid] < rs.sequences()[found[w0].rowid] {
                c
            } else {
                w0
            }
        } else {
            c
        }
    } else {
        let w0 = lemma_first_candidate_below(rs, found, keywords, n - 1, c);
        if rs.is_candidate(found, keywords, n - 1) && rs.sequences()[found[n - 1].rowid]
            < rs.sequences()[found[w0].rowid] {
            n - 1
        } else {
            w0
        }
    }
}

/// When some reported rule qualifies and the keyword set is not empty, a
/// winner exists and is what `best` returns.
pub proof fn lemma_winner_exists(
    rs: &RegexSequence,
    found: Seq<RuleMatch>,
    keywords: Seq<u16>,
    c: int,
) -> (w: int)
    requires
        keywords.len() > 0,
        rs.is_candidate(found, keywords, c),
    ensures
        rs.is_winner(found, keywords, w),
        rs.best(found, keywords) == Some((found[w].rowid, found[w].capture)),
{
    let w = lemma_first_candidate_below(rs, found, keywords, found.len() as int, c);
    assert(rs.is_winner(found, keywords, w));
    let b = choose|i: int| rs.is_winner(found, keywords, i);
    lemma_winner_unique(rs, found, keywords, w, b);
    w
}

/// Ordering: of two qualifying rules, the one with the lower sequence, or
/// with an equal sequence and reported first, beats the other; the other
/// never wins, and the winner's sequence is no higher than the better one's.
pub proof fn lemma_lower_sequence_wins(
    rs: &RegexSequence,
    found: Seq<RuleMatch>,
    keywords: Seq<u16>,
    i: int,
    j: int,
)
    requires
        keywords.len() > 0,
        rs.is_candidate(found, keywords, i),
        rs.is_candidate(found, keywords, j),
        rs.sequences()[found[i].rowid] < rs.sequences()[found[j].rowid] || (
        rs.sequences()[found[i].rowid] == rs.sequences()[found[j].rowid] && i < j),
    ensures
        exists|w: int|
            {
                &&& #[trigger] rs.is_winner(found, keywords, w)
                &&& w != j
                &&& rs.sequences()[found[w].rowid] <= rs.sequences()[found[i].rowid]
                &&& rs.best(found, keywords) == Some((found[w].rowid, found[w].capture))
            },
{
    let w = lemma_winner_exists(rs, found, keywords, i);
    assert(rs.is_candidate(found, keywords, i));
    if w == j {
        assert(rs.is_candidate(found, keywords, i));
    }
}

/// `id` occurs in `ids`.
pub(crate) fn contains_id(ids: &Vec<u16>, id: u16) -> (r: bool)
    ensures
        r == ids@.contains(id),
{
    let mut k: usize = 0;
    while k < ids.len()
        invariant
            k <= ids.len(),
            forall|t: int| 0 <= t < k ==> ids@[t] != id,
        decreases ids.len() - k,
    {
        if ids[k] == id {
            proof {
                assert(ids@[k as int] == id);
            }
            return true;
        }
        k = k + 1;
    }
    false
}

/// The rows whose rowid is among `kept` (the rules whose pattern the
/// scanner accepted), in their order.
pub fn keep_rules(rows: &Vec<RuleRow>, kept: &Vec<u16>) -> (r: Vec<RuleRow>)
    ensures
        r@ == rows@.filter(|row: RuleRow| kept@.contains(row.rowid)),
{
    let mut r: Vec<RuleRow> = Vec::new();
    let mut i: usize = 0;
    while i < rows.len()
        invariant
            i <= rows.len(),
            r@ == rows@.take(i as int).filter(|row: RuleRow| kept@.contains(row.rowid)),
        decreases rows.len() - i,
    {
        proof {
            reveal(Seq::filter);
            assert(rows@.take(i + 1).drop_last() == rows@.take(i as int));
            assert(rows@.take(i + 1).last() == rows@[i as int]);
        }
        let row = rows[i];
        if contains_id(kept, row.rowid) {
            r.push(row);
        }
        i = i + 1;
    }
    proof {
        assert(rows@.take(rows.len() as int) == rows@);
    }
    r
}

/// Every element of `required` occurs in `keywords`.
fn contains_all(required: &Vec<u16>, keywords: &Vec<u16>) -> (r: bool)
    ensures
        r == qualifies(required@, keywords@),
{
    let mut i: usize = 0;
    while i < required.len()
        invariant
            i <= required.len(),
            forall|j: int| 0 <= j < i ==> keywords@.contains(#[trigger] required@[j]),
        decreases required.len() - i,
    {
        let want = required[i];
        let mut k: usize = 0;
        let mut seen = false;
        while k < keywords.len()
            invariant
                k <= keywords.len(),
                seen == (exists|t: int| 0 <= t < k && keywords@[t] == want),
            decreases keywords.len() - k,
        {
            if keywords[k] == want {
                seen = true;
            }
            k = k + 1;
        }
        if !seen {
            proof {
                assert(!keywords@.contains(required@[i as int]));
            }
            return false;
        }
        i = i + 1;
    }
    true
}

} // verus!
