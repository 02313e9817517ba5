//! The values a key can hold, and their mathematical views.

use crate::text::{
    comes_before, lemma_text_before_total, lemma_text_before_transitive, text_before, text_eq,
    texts,
};
use vstd::prelude::*;
use vstd::string::*;

verus! {

/// One member of a sorted set, with its score.
pub struct ScoredMember {
    pub member: String,
    pub score: usize,
}

/// The score that `items` records for member `m`, if any. Where a member
/// stands more than once, the last record counts.
pub open spec fn lookup(items: Seq<ScoredMember>, m: Seq<char>) -> Option<usize>
    decreases items.len(),
{
    if items.len() == 0 {
        None
    } else if items.last().member@ == m {
        Some(items.last().score)
    } else {
        lookup(items.drop_last(), m)
    }
}

/// No two records of `items` name the same member.
pub open spec fn distinct_members(items: Seq<ScoredMember>) -> bool {
    forall|i: int, j: int|
        0 <= i < j < items.len() ==> (#[trigger] items[i]).member@ != (#[trigger] items[j]).member@
}

/// The mapping from member to score that `items` records.
pub open spec fn scores_of(items: Seq<ScoredMember>) -> Map<Seq<char>, usize> {
    Map::new(|m: Seq<char>| lookup(items, m) is Some, |m: Seq<char>| lookup(items, m)->0)
}

/// A member has a score exactly if some record names it.
proof fn lemma_lookup_some(items: Seq<ScoredMember>, m: Seq<char>)
    ensures
        lookup(items, m) is Some <==> exists|j: int|
            0 <= j < items.len() && (#[trigger] items[j]).member@ == m,
    decreases items.len(),
{
    if items.len() > 0 {
        let init = items.drop_last();
        lemma_lookup_some(init, m);
        if items.last().member@ == m {
            assert(items[items.len() - 1].member@ == m);
        } else if lookup(init, m) is Some {
            let j = choose|j: int| 0 <= j < init.len() && (#[trigger] init[j]).member@ == m;
            assert(items[j].member@ == m);
        } else {
            assert forall|j: int| 0 <= j < items.len() implies (#[trigger] items[j]).member@
                != m by {
                if j < init.len() {
                    assert(init[j].member@ != m);
                }
            }
        }
    }
}

/// Among distinct members, the record at index `j` gives its member's score.
proof fn lemma_lookup_at(items: Seq<ScoredMember>, j: int)
    requires
        distinct_members(items),
        0 <= j < items.len(),
    ensures
        lookup(items, items[j].member@) == Some(items[j].score),
    decreases items.len(),
{
    if j < items.len() - 1 {
        let init = items.drop_last();
        assert(items[j].member@ != items[items.len() - 1].member@);
        assert(distinct_members(init)) by {
            assert forall|a: int, b: int| 0 <= a < b < init.len() implies (#[trigger] init[a]).member@
                != (#[trigger] init[b]).member@ by {
                assert(items[a].member@ != items[b].member@);
            }
        }
        assert(init[j] == items[j]);
        lemma_lookup_at(init, j);
    }
}

/// Rewriting the score of every record that names `member`, and nothing
/// else, rewrites the score that is looked up for `member`, and nothing else.
proof fn lemma_lookup_rescored(
    old_items: Seq<ScoredMember>,
    new_items: Seq<ScoredMember>,
    member: Seq<char>,
    score: usize,
    m: Seq<char>,
)
    requires
        new_items.len() == old_items.len(),
        forall|j: int|
            0 <= j < old_items.len() ==> (#[trigger] new_items[j]).member@ == old_items[j].member@,
        forall|j: int|
            0 <= j < old_items.len() ==> (#[trigger] new_items[j]).score == if old_items[j].member@
                == member {
                score
            } else {
                old_items[j].score
            },
    ensures
        lookup(new_items, m) == if m == member && lookup(old_items, m) is Some {
            Some(score)
        } else {
            lookup(old_items, m)
        },
    decreases old_items.len(),
{
    if old_items.len() > 0 {
        let last = old_items.len() - 1;
        assert(new_items[last].member@ == old_items[last].member@);
        assert(new_items.last() == new_items[last]);
        assert(old_items.last() == old_items[last]);
        if old_items.last().member@ != m {
            let a = old_items.drop_last();
            let b = new_items.drop_last();
            assert forall|j: int| 0 <= j < a.len() implies (#[trigger] b[j]).member@
                == a[j].member@ by {
                assert(new_items[j].member@ == old_items[j].member@);
            }
            assert forall|j: int| 0 <= j < a.len() implies (#[trigger] b[j]).score == if a[j].member@
                == member {
                score
            } else {
                a[j].score
            } by {
                assert(new_items[j].score == if old_items[j].member@ == member {
                    score
                } else {
                    old_items[j].score
                });
            }
            lemma_lookup_rescored(a, b, member, score, m);
        }
    }
}

/// `x` ranks before `y`: by the lesser score, and among equal scores by the
/// member that comes first in the order of texts.
pub open spec fn ranks_before(x: ScoredMember, y: ScoredMember) -> bool {
    x.score < y.score || (x.score == y.score && text_before(x.member@, y.member@))
}

/// Every record of `items` ranks before the ones after it.
pub open spec fn in_rank_order(items: Seq<ScoredMember>) -> bool {
    forall|i: int, j: int|
        0 <= i < j < items.len() ==> ranks_before(#[trigger] items[i], #[trigger] items[j])
}

/// Putting a record for a new member anywhere among `items` gives that
/// member its score and leaves the score of every other member.
proof fn lemma_lookup_insert(items: Seq<ScoredMember>, k: int, x: ScoredMember, m: Seq<char>)
    requires
        0 <= k <= items.len(),
        forall|j: int| 0 <= j < items.len() ==> (#[trigger] items[j]).member@ != x.member@,
    ensures
        lookup(items.insert(k, x), m) == if m == x.member@ {
            Some(x.score)
        } else {
            lookup(items, m)
        },
    decreases items.len() - k,
{
    let grown = items.insert(k, x);
    if k == items.len() {
        assert(grown.drop_last() =~= items);
        assert(grown.last() == x);
    } else {
        assert(grown.last() == items.last());
        assert(grown.drop_last() =~= items.drop_last().insert(k, x));
        assert(items[items.len() - 1].member@ != x.member@);
        if items.last().member@ != m {
            assert forall|j: int| 0 <= j < items.drop_last().len() implies (
            #[trigger] items.drop_last()[j]).member@ != x.member@ by {
                assert(items[j].member@ != x.member@);
            }
            lemma_lookup_insert(items.drop_last(), k, x, m);
        }
    }
}

/// Whether `x` ranks before `y`.
fn is_ranked_before(x: &ScoredMember, y: &ScoredMember) -> (b: bool)
    ensures
        b == ranks_before(*x, *y),
{
    x.score < y.score || (x.score == y.score && comes_before(
        x.member.as_str(),
        y.member.as_str(),
    ))
}

/// A set of members, each with a score. No member stands twice.
pub struct SortedSet {
    items: Vec<ScoredMember>,
}

impl View for SortedSet {
    type V = Map<Seq<char>, usize>;

    closed spec fn view(&self) -> Map<Seq<char>, usize> {
        scores_of(self.items@)
    }
}

impl SortedSet {
    #[verifier::type_invariant]
    spec fn members_are_distinct(self) -> bool {
        distinct_members(self.items@)
    }

    /// The empty set.
    pub fn new() -> (s: SortedSet)
        ensures
            s@ == Map::<Seq<char>, usize>::empty(),
    {
        let s = SortedSet { items: Vec::new() };
        assert(s@ =~= Map::<Seq<char>, usize>::empty());
        s
    }

    /// The score of `member`, if it is in the set.
    pub fn score(&self, member: &str) -> (r: Option<usize>)
        ensures
            r == if self@.contains_key(member@) {
                Some(self@[member@])
            } else {
                None::<usize>
            },
    {
        proof {
            use_type_invariant(self);
        }
        let mut i: usize = 0;
        while i < self.items.len()
            invariant
                i <= self.items.len(),
                distinct_members(self.items@),
                forall|j: int| 0 <= j < i ==> (#[trigger] self.items@[j]).member@ != member@,
            decreases self.items.len() - i,
        {
            if text_eq(self.items[i].member.as_str(), member) {
                proof {
                    lemma_lookup_at(self.items@, i as int);
                }
                return Some(self.items[i].score);
            }
            i += 1;
        }
        proof {
            lemma_lookup_some(self.items@, member@);
        }
        None
    }

    /// This set with `member` at `score`: added if it was not in the set,
    /// rescored if it was. The flag says whether the member is new.
    pub fn with_member(&self, member: &str, score: usize) -> (r: (SortedSet, bool))
        ensures
            r.0@ == self@.insert(member@, score),
            r.1 == !self@.contains_key(member@),
    {
        proof {
            use_type_invariant(self);
        }
        let mut items: Vec<ScoredMember> = Vec::new();
        let mut found = false;
        let mut i: usize = 0;
        while i < self.items.len()
            invariant
                i <= self.items.len(),
                items@.len() == i,
                forall|j: int|
                    0 <= j < i ==> (#[trigger] items@[j]).member@ == self.items@[j].member@,
                forall|j: int|
                    0 <= j < i ==> (#[trigger] items@[j]).score == if self.items@[j].member@
                        == member@ {
                        score
                    } else {
                        self.items@[j].score
                    },
                found <==> exists|j: int|
                    0 <= j < i && (#[trigger] self.items@[j]).member@ == member@,
            decreases self.items.len() - i,
        {
            let same = text_eq(self.items[i].member.as_str(), member);
            let kept: usize = if same {
                score
            } else {
                self.items[i].score
            };
            items.push(ScoredMember { member: self.items[i].member.clone(), score: kept });
            if same {
                found = true;
                assert(self.items@[i as int].member@ == member@);
            }
            i += 1;
        }
        let ghost rescored = items@;
        proof {
            lemma_lookup_some(self.items@, member@);
            assert forall|a: int, b: int| 0 <= a < b < rescored.len() implies (
            #[trigger] rescored[a]).member@ != (#[trigger] rescored[b]).member@ by {
                assert(self.items@[a].member@ != self.items@[b].member@);
            }
            assert forall|m: Seq<char>|
                lookup(rescored, m) == if m == member@ && lookup(self.items@, m) is Some {
                    Some(score)
                } else {
                    lookup(self.items@, m)
                } by {
                lemma_lookup_rescored(self.items@, rescored, member@, score, m);
            }
        }
        if !found {
            items.push(ScoredMember { member: member.to_owned(), score });
            proof {
                assert(items@.drop_last() =~= rescored);
                assert forall|a: int, b: int| 0 <= a < b < items@.len() implies (
                #[trigger] items@[a]).member@ != (#[trigger] items@[b]).member@ by {
                    if b == items@.len() - 1 {
                        assert(self.items@[a].member@ != member@);
                        assert(rescored[a].member@ == self.items@[a].member@);
                    } else {
                        assert(rescored[a].member@ != rescored[b].member@);
                    }
                }
            }
        }
        let s = SortedSet { items };
        assert(s@ =~= self@.insert(member@, score));
        (s, !found)
    }

    /// The members with their scores, in rank order: by score, and among
    /// equal scores by member.
    pub fn ordered(&self) -> (r: Vec<ScoredMember>)
        ensures
            in_rank_order(r@),
            distinct_members(r@),
            scores_of(r@) == self@,
    {
        proof {
            use_type_invariant(self);
        }
        let mut out: Vec<ScoredMember> = Vec::new();
        let mut i: usize = 0;
        assert(scores_of(out@) =~= scores_of(self.items@.subrange(0, 0)));
        while i < self.items.len()
            invariant
                i <= self.items.len(),
                distinct_members(self.items@),
                in_rank_order(out@),
                distinct_members(out@),
                scores_of(out@) == scores_of(self.items@.subrange(0, i as int)),
            decreases self.items.len() - i,
        {
            let x = ScoredMember {
                member: self.items[i].member.clone(),
                score: self.items[i].score,
            };
            let ghost done = self.items@.subrange(0, i as int);
            let ghost next = self.items@.subrange(0, i + 1);
            proof {
                lemma_lookup_some(done, x.member@);
                assert(lookup(done, x.member@) is None) by {
                    assert forall|j: int| 0 <= j < done.len() implies (#[trigger] done[j]).member@
                        != x.member@ by {
                        assert(self.items@[j].member@ != self.items@[i as int].member@);
                    }
                }
                assert(scores_of(out@).contains_key(x.member@) == scores_of(done).contains_key(
                    x.member@,
                ));
                lemma_lookup_some(out@, x.member@);
            }
            let mut k: usize = 0;
            while k < out.len() && is_ranked_before(&out[k], &x)
                invariant
                    k <= out.len(),
                    forall|j: int| 0 <= j < k ==> ranks_before(#[trigger] out@[j], x),
                decreases out.len() - k,
            {
                k += 1;
            }
            let ghost before = out@;
            out.insert(k, x);
            proof {
                assert forall|a: int, b: int| 0 <= a < b < out@.len() implies ranks_before(
                    #[trigger] out@[a],
                    #[trigger] out@[b],
                ) by {
                    if b == k {
                        assert(out@[a] == before[a]);
                    } else if a == k {
                        let y = before[k as int];
                        assert(!ranks_before(y, x));
                        assert(y.member@ != x.member@);
                        lemma_text_before_total(x.member@, y.member@);
                        assert(ranks_before(x, y));
                        if b - 1 > k {
                            let z = before[b - 1];
                            assert(ranks_before(y, z));
                            if y.score == z.score && x.score == y.score {
                                lemma_text_before_transitive(x.member@, y.member@, z.member@);
                            }
                        }
                    } else {
                        let a0 = if a < k {
                            a
                        } else {
                            a - 1
                        };
                        let b0 = if b < k {
                            b
                        } else {
                            b - 1
                        };
                        assert(out@[a] == before[a0]);
                        assert(out@[b] == before[b0]);
                    }
                }
                assert forall|a: int, b: int| 0 <= a < b < out@.len() implies (
                #[trigger] out@[a]).member@ != (#[trigger] out@[b]).member@ by {
                    let a0 = if a < k {
                        a
                    } else {
                        a - 1
                    };
                    let b0 = if b < k {
                        b
                    } else {
                        b - 1
                    };
                    if a != k && b != k {
                        assert(out@[a] == before[a0]);
                        assert(out@[b] == before[b0]);
                    } else if a == k {
                        assert(out@[b] == before[b0]);
                    } else {
                        assert(out@[a] == before[a0]);
                    }
                }
                assert(next.drop_last() =~= done);
                assert(next.last() == self.items@[i as int]);
                assert forall|m: Seq<char>| lookup(out@, m) == lookup(next, m) by {
                    lemma_lookup_insert(before, k as int, x, m);
                    assert(scores_of(before).contains_key(m) == scores_of(done).contains_key(m));
                    if scores_of(before).contains_key(m) {
                        assert(scores_of(before)[m] == scores_of(done)[m]);
                    }
                }
                assert(scores_of(out@) =~= scores_of(next));
            }
            i += 1;
        }
        assert(self.items@.subrange(0, i as int) =~= self.items@);
        out
    }

    /// A copy of this set.
    pub fn duplicate(&self) -> (s: SortedSet)
        ensures
            s@ == self@,
    {
        proof {
            use_type_invariant(self);
        }
        let mut items: Vec<ScoredMember> = Vec::new();
        let mut i: usize = 0;
        while i < self.items.len()
            invariant
                i <= self.items.len(),
                items@ == self.items@.subrange(0, i as int),
            decreases self.items.len() - i,
        {
            items.push(
                ScoredMember { member: self.items[i].member.clone(), score: self.items[i].score },
            );
            assert(items@ =~= self.items@.subrange(0, i + 1));
            i += 1;
        }
        assert(items@ =~= self.items@);
        SortedSet { items }
    }
}

/// What a key holds: exactly one of a text, a list of texts, or a sorted set.
pub enum Value {
    Scalar(String),
    List(Vec<String>),
    SortedSet(SortedSet),
}

/// The mathematical content of a value.
pub enum ValueView {
    Scalar(Seq<char>),
    List(Seq<Seq<char>>),
    SortedSet(Map<Seq<char>, usize>),
}

impl View for Value {
    type V = ValueView;

    open spec fn view(&self) -> ValueView {
        match self {
            Value::Scalar(s) => ValueView::Scalar(s@),
            Value::List(items) => ValueView::List(texts(items@)),
            Value::SortedSet(set) => ValueView::SortedSet(set@),
        }
    }
}

/// A key's stored state: its value, and the moment it expires, in
/// milliseconds, if it ever does.
pub struct Entry {
    pub value: Value,
    pub expires_at: Option<i64>,
}

/// The mathematical content of an entry.
pub struct EntryView {
    pub value: ValueView,
    pub expires_at: Option<i64>,
}

impl View for Entry {
    type V = EntryView;

    open spec fn view(&self) -> EntryView {
        EntryView { value: self.value@, expires_at: self.expires_at }
    }
}

/// A copy of a list of texts.
pub fn duplicate_texts(items: &Vec<String>) -> (copy: Vec<String>)
    ensures
        copy@ == items@,
{
    let mut copy: Vec<String> = Vec::new();
    let mut i: usize = 0;
    while i < items.len()
        invariant
            i <= items.len(),
            copy@ == items@.subrange(0, i as int),
        decreases items.len() - i,
    {
        copy.push(items[i].clone());
        assert(copy@ =~= items@.subrange(0, i + 1));
        i += 1;
    }
    assert(copy@ =~= items@);
    copy
}

} // verus!
