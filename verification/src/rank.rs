//! Ranking of scored candidates.
//!
//! The reranker scores every candidate against a query and keeps the best
//! ones. Scores arrive here as fixed-point integers (the embedding and its
//! cosine scoring live outside the library); this module owns the ordering
//! rules: keep scores strictly above the threshold, sort by descending
//! score with ties broken by ascending original index, and cut to `limit`
//! unless `limit` is zero.

use vstd::prelude::*;

verus! {

/// One ranked candidate: its position in the input and its score.
#[derive(Debug, Clone, Copy, PartialEq, Eq, Structural)]
pub struct RankedCandidate {
    pub index: usize,
    pub score: i64,
}

/// The pair a candidate is ranked by.
pub open spec fn rc_view(p: RankedCandidate) -> (int, i64) {
    (p.index as int, p.score)
}

/// The ranked pairs of an executable candidate list.
pub open spec fn rcs_view(s: Seq<RankedCandidate>) -> Seq<(int, i64)> {
    Seq::new(
        s.len(),
        |i: int|
            if 0 <= i < s.len() {
                rc_view(s[i])
            } else {
                (0int, 0i64)
            },
    )
}

/// Whether `a` must stand before `b`: higher score first, and among equal
/// scores the earlier input index first.
pub open spec fn ranks_before(a: (int, i64), b: (int, i64)) -> bool {
    a.1 > b.1 || (a.1 == b.1 && a.0 < b.0)
}

/// A list in ranking order.
pub open spec fn ranked_sorted(l: Seq<(int, i64)>) -> bool {
    forall|a: int, b: int| 0 <= a < b < l.len() ==> !ranks_before(#[trigger] l[b], #[trigger] l[a])
}

/// Insertion of one pair into a list, before the first pair it outranks.
pub open spec fn spec_insert_ranked(l: Seq<(int, i64)>, p: (int, i64)) -> Seq<(int, i64)>
    decreases l.len(),
{
    if l.len() == 0 {
        seq![p]
    } else if ranks_before(p, l[0]) {
        seq![p] + l
    } else {
        seq![l[0]] + spec_insert_ranked(l.drop_first(), p)
    }
}

/// The pairs `(index, score)` with score strictly above `threshold`, taken
/// from position `i` on and sorted in ranking order.
pub open spec fn spec_sort_kept(scores: Seq<i64>, threshold: i64, i: int) -> Seq<(int, i64)>
    decreases scores.len() - i,
{
    if i < 0 || i >= scores.len() {
        Seq::empty()
    } else {
        let rest = spec_sort_kept(scores, threshold, i + 1);
        if scores[i] > threshold {
            spec_insert_ranked(rest, (i, scores[i]))
        } else {
            rest
        }
    }
}

/// The full ranking rule: filter, sort, and cut to `limit` (zero keeps all).
pub open spec fn spec_rank(scores: Seq<i64>, limit: int, threshold: i64) -> Seq<(int, i64)> {
    let sorted = spec_sort_kept(scores, threshold, 0);
    if limit == 0 || limit >= sorted.len() {
        sorted
    } else {
        sorted.take(limit)
    }
}

proof fn lemma_insert_ranked_len(l: Seq<(int, i64)>, p: (int, i64))
    ensures
        spec_insert_ranked(l, p).len() == l.len() + 1,
    decreases l.len(),
{
    if l.len() == 0 {
    } else if ranks_before(p, l[0]) {
    } else {
        lemma_insert_ranked_len(l.drop_first(), p);
    }
}

proof fn lemma_insert_ranked_contains(l: Seq<(int, i64)>, p: (int, i64), x: (int, i64))
    ensures
        spec_insert_ranked(l, p).contains(x) <==> (l.contains(x) || x == p),
    decreases l.len(),
{
    if l.len() == 0 {
        assert(spec_insert_ranked(l, p) == seq![p]);
        assert(seq![p].contains(x) <==> x == p) by {
            if seq![p].contains(x) {
                let k = choose|k: int| 0 <= k < seq![p].len() && seq![p][k] == x;
                assert(k == 0);
            }
            if x == p {
                assert(seq![p][0] == x);
            }
        }
        assert(!l.contains(x));
    } else if ranks_before(p, l[0]) {
        assert(spec_insert_ranked(l, p) == seq![p] + l);
        assert forall|y: (int, i64)| #[trigger] (seq![p] + l).contains(y) implies y == p
            || l.contains(y) by {
            let k = choose|k: int| 0 <= k < (seq![p] + l).len() && (seq![p] + l)[k] == y;
            if k > 0 {
                assert(l[k - 1] == y);
            }
        }
        if x == p {
            assert((seq![p] + l)[0] == p);
        }
        if l.contains(x) {
            let k = choose|k: int| 0 <= k < l.len() && l[k] == x;
            assert((seq![p] + l)[k + 1] == x);
        }
    } else {
        lemma_insert_ranked_contains(l.drop_first(), p, x);
        let rest = spec_insert_ranked(l.drop_first(), p);
        assert(spec_insert_ranked(l, p) == seq![l[0]] + rest);
        assert forall|y: (int, i64)| #[trigger] (seq![l[0]] + rest).contains(y) implies y == l[0]
            || rest.contains(y) by {
            let k = choose|k: int| 0 <= k < (seq![l[0]] + rest).len() && (seq![l[0]] + rest)[k]
                == y;
            if k > 0 {
                assert(rest[k - 1] == y);
            }
        }
        assert forall|y: (int, i64)| #[trigger] l.contains(y) implies y == l[0]
            || l.drop_first().contains(y) by {
            let k = choose|k: int| 0 <= k < l.len() && l[k] == y;
            if k > 0 {
                assert(l.drop_first()[k - 1] == y);
            }
        }
        if x == l[0] {
            assert((seq![l[0]] + rest)[0] == x);
        }
        if rest.contains(x) {
            let k = choose|k: int| 0 <= k < rest.len() && rest[k] == x;
            assert((seq![l[0]] + rest)[k + 1] == x);
        }
        if l.drop_first().contains(x) {
            let k = choose|k: int| 0 <= k < l.drop_first().len() && l.drop_first()[k] == x;
            assert(l[k + 1] == x);
        }
    }
}

proof fn lemma_insert_ranked_sorted(l: Seq<(int, i64)>, p: (int, i64))
    requires
        ranked_sorted(l),
    ensures
        ranked_sorted(spec_insert_ranked(l, p)),
    decreases l.len(),
{
    if l.len() == 0 {
    } else if ranks_before(p, l[0]) {
        let r = seq![p] + l;
        assert forall|a: int, b: int| 0 <= a < b < r.len() implies !ranks_before(r[b], r[a]) by {
            if a == 0 {
                if b == 1 {
                    assert(r[b] == l[0]);
                } else {
                    assert(!ranks_before(l[b - 1], l[0]));
                }
            } else {
                assert(r[a] == l[a - 1] && r[b] == l[b - 1]);
            }
        }
    } else {
        assert forall|a: int, b: int|
            0 <= a < b < l.drop_first().len() implies !ranks_before(
            #[trigger] l.drop_first()[b],
            #[trigger] l.drop_first()[a],
        ) by {
            assert(l.drop_first()[a] == l[a + 1] && l.drop_first()[b] == l[b + 1]);
        }
        lemma_insert_ranked_sorted(l.drop_first(), p);
        let rest = spec_insert_ranked(l.drop_first(), p);
        let r = seq![l[0]] + rest;
        assert forall|a: int, b: int| 0 <= a < b < r.len() implies !ranks_before(r[b], r[a]) by {
            if a == 0 {
                assert(rest.contains(r[b])) by {
                    assert(rest[b - 1] == r[b]);
                }
                lemma_insert_ranked_contains(l.drop_first(), p, r[b]);
                if r[b] == p {
                    assert(!ranks_before(p, l[0]));
                } else {
                    let k = choose|k: int|
                        0 <= k < l.drop_first().len() && l.drop_first()[k] == r[b];
                    assert(l[k + 1] == r[b]);
                    assert(!ranks_before(l[k + 1], l[0]));
                }
            } else {
                assert(r[a] == rest[a - 1] && r[b] == rest[b - 1]);
            }
        }
    }
}

proof fn lemma_sort_kept_sorted(scores: Seq<i64>, threshold: i64, i: int)
    ensures
        ranked_sorted(spec_sort_kept(scores, threshold, i)),
    decreases scores.len() - i,
{
    if i < 0 || i >= scores.len() {
    } else {
        lemma_sort_kept_sorted(scores, threshold, i + 1);
        if scores[i] > threshold {
            lemma_insert_ranked_sorted(spec_sort_kept(scores, threshold, i + 1), (i, scores[i]));
        }
    }
}

/// Every pair the sorted kept-list holds is a genuine input pair above the
/// threshold, at a position at or after `i`.
proof fn lemma_sort_kept_members(scores: Seq<i64>, threshold: i64, i: int, x: (int, i64))
    requires
        0 <= i <= scores.len(),
    ensures
        spec_sort_kept(scores, threshold, i).contains(x) <==> (i <= x.0 < scores.len() && x.1
            == scores[x.0] && x.1 > threshold && 0 <= x.0),
    decreases scores.len() - i,
{
    if i < 0 || i >= scores.len() {
    } else {
        lemma_sort_kept_members(scores, threshold, i + 1, x);
        if scores[i] > threshold {
            lemma_insert_ranked_contains(
                spec_sort_kept(scores, threshold, i + 1),
                (i, scores[i]),
                x,
            );
        }
    }
}

/// The number of kept pairs from position `i` on.
pub open spec fn spec_kept_count(scores: Seq<i64>, threshold: i64, i: int) -> int
    decreases scores.len() - i,
{
    if i < 0 || i >= scores.len() {
        0
    } else {
        (if scores[i] > threshold {
            1int
        } else {
            0int
        }) + spec_kept_count(scores, threshold, i + 1)
    }
}

proof fn lemma_sort_kept_len(scores: Seq<i64>, threshold: i64, i: int)
    ensures
        spec_sort_kept(scores, threshold, i).len() == spec_kept_count(scores, threshold, i),
    decreases scores.len() - i,
{
    if i < 0 || i >= scores.len() {
    } else {
        lemma_sort_kept_len(scores, threshold, i + 1);
        if scores[i] > threshold {
            lemma_insert_ranked_len(spec_sort_kept(scores, threshold, i + 1), (i, scores[i]));
        }
    }
}

proof fn lemma_kept_count_all(scores: Seq<i64>, threshold: i64, i: int)
    requires
        forall|k: int| 0 <= k < scores.len() ==> #[trigger] scores[k] > threshold,
        0 <= i <= scores.len(),
    ensures
        spec_kept_count(scores, threshold, i) == scores.len() - i,
    decreases scores.len() - i,
{
    if i < scores.len() {
        lemma_kept_count_all(scores, threshold, i + 1);
    }
}

/// When every score clears the threshold, the ranking returns
/// `min(limit, n)` candidates (all `n` of them if `limit` is zero), and
/// every returned pair is an input pair: the score of the index it names.
pub proof fn lemma_rank_total(scores: Seq<i64>, limit: int, threshold: i64)
    requires
        forall|k: int| 0 <= k < scores.len() ==> #[trigger] scores[k] > threshold,
        limit >= 0,
    ensures
        spec_rank(scores, limit, threshold).len() == if limit == 0 || limit >= scores.len() {
            scores.len() as int
        } else {
            limit
        },
        forall|j: int|
            0 <= j < spec_rank(scores, limit, threshold).len() ==> {
                let p = #[trigger] spec_rank(scores, limit, threshold)[j];
                0 <= p.0 < scores.len() && p.1 == scores[p.0] && p.1 > threshold
            },
{
    let sorted = spec_sort_kept(scores, threshold, 0);
    lemma_sort_kept_len(scores, threshold, 0);
    lemma_kept_count_all(scores, threshold, 0);
    assert forall|j: int| 0 <= j < spec_rank(scores, limit, threshold).len() implies {
        let p = #[trigger] spec_rank(scores, limit, threshold)[j];
        0 <= p.0 < scores.len() && p.1 == scores[p.0] && p.1 > threshold
    } by {
        let p = spec_rank(scores, limit, threshold)[j];
        assert(sorted.contains(p)) by {
            assert(sorted[j] == p);
        }
        lemma_sort_kept_members(scores, threshold, 0, p);
    }
}

/// Every pair the ranking returns names an input position and carries that
/// position's score, above the threshold; and the result is in ranking
/// order. Holds for every input, whatever the threshold keeps.
pub proof fn lemma_rank_members(scores: Seq<i64>, limit: int, threshold: i64)
    requires
        limit >= 0,
    ensures
        ranked_sorted(spec_rank(scores, limit, threshold)),
        forall|j: int|
            0 <= j < spec_rank(scores, limit, threshold).len() ==> {
                let p = #[trigger] spec_rank(scores, limit, threshold)[j];
                0 <= p.0 < scores.len() && p.1 == scores[p.0] && p.1 > threshold
            },
{
    let sorted = spec_sort_kept(scores, threshold, 0);
    lemma_sort_kept_sorted(scores, threshold, 0);
    let r = spec_rank(scores, limit, threshold);
    assert forall|a: int, b: int| 0 <= a < b < r.len() implies !ranks_before(r[b], r[a]) by {
        assert(r[a] == sorted[a] && r[b] == sorted[b]);
    }
    assert forall|j: int| 0 <= j < r.len() implies {
        let p = #[trigger] r[j];
        0 <= p.0 < scores.len() && p.1 == scores[p.0] && p.1 > threshold
    } by {
        let p = r[j];
        assert(sorted.contains(p)) by {
            assert(sorted[j] == p);
        }
        lemma_sort_kept_members(scores, threshold, 0, p);
    }
}

/// With no cut and a threshold below every score, the ranking is a
/// permutation of all input indices: one returned pair per input position,
/// in ranking order. Together with `lemma_rank_total` (the length) and the
/// sortedness above, each input index appears exactly once.
pub proof fn lemma_rank_permutation(scores: Seq<i64>, threshold: i64)
    requires
        forall|k: int| 0 <= k < scores.len() ==> #[trigger] scores[k] > threshold,
    ensures
        spec_rank(scores, 0, threshold).len() == scores.len(),
        forall|j: int|
            0 <= j < scores.len() ==> spec_rank(scores, 0, threshold).contains(
                (j, #[trigger] scores[j]),
            ),
        ranked_sorted(spec_rank(scores, 0, threshold)),
{
    lemma_rank_total(scores, 0, threshold);
    lemma_rank_members(scores, 0, threshold);
    assert forall|j: int| 0 <= j < scores.len() implies spec_rank(scores, 0, threshold).contains(
        (j, #[trigger] scores[j]),
    ) by {
        lemma_sort_kept_members(scores, threshold, 0, (j, scores[j]));
    }
}

/// The ranking rule names one list for each input: two runs on the same
/// scores, limit and threshold return the same list.
pub proof fn lemma_rank_deterministic(
    scores: Seq<i64>,
    limit: int,
    threshold: i64,
    r1: Seq<(int, i64)>,
    r2: Seq<(int, i64)>,
)
    requires
        r1 == spec_rank(scores, limit, threshold),
        r2 == spec_rank(scores, limit, threshold),
    ensures
        r1 == r2,
{
}

fn ranks_before_exec(a: RankedCandidate, b: RankedCandidate) -> (r: bool)
    ensures
        r == ranks_before(rc_view(a), rc_view(b)),
{
    a.score > b.score || (a.score == b.score && a.index < b.index)
}

proof fn lemma_rcs_view_insert_front(s: Seq<RankedCandidate>, x: RankedCandidate)
    ensures
        rcs_view(s.insert(0, x)) == seq![rc_view(x)] + rcs_view(s),
{
    assert(rcs_view(s.insert(0, x)) =~= seq![rc_view(x)] + rcs_view(s));
}

fn insert_ranked(l: Vec<RankedCandidate>, p: RankedCandidate) -> (r: Vec<RankedCandidate>)
    ensures
        rcs_view(r@) == spec_insert_ranked(rcs_view(l@), rc_view(p)),
    decreases l@.len(),
{
    let ghost l0 = rcs_view(l@);
    if l.len() == 0 {
        let mut r: Vec<RankedCandidate> = Vec::new();
        r.push(p);
        proof {
            assert(rcs_view(r@) =~= seq![rc_view(p)]);
        }
        r
    } else if ranks_before_exec(p, l[0]) {
        let mut r = l;
        proof {
            lemma_rcs_view_insert_front(r@, p);
        }
        r.insert(0, p);
        proof {
            assert(ranks_before(rc_view(p), l0[0]));
        }
        r
    } else {
        let mut l = l;
        let head = l.remove(0);
        proof {
            assert(rcs_view(l@) =~= l0.drop_first());
        }
        let rest = insert_ranked(l, p);
        let mut r = rest;
        proof {
            lemma_rcs_view_insert_front(r@, head);
            assert(seq![rc_view(head)] == seq![l0[0]]);
        }
        r.insert(0, head);
        r
    }
}

/// Ranks scored candidates: keeps those with a score strictly above
/// `threshold`, orders them by descending score with ties broken by
/// ascending input index, and returns the first `limit` of them —
/// all of them when `limit` is zero.
pub fn rank_scores(scores: &Vec<i64>, limit: usize, threshold: i64) -> (r: Vec<RankedCandidate>)
    ensures
        rcs_view(r@) == spec_rank(scores@, limit as int, threshold),
{
    let mut acc: Vec<RankedCandidate> = Vec::new();
    let mut i: usize = scores.len();
    proof {
        assert(rcs_view(acc@) =~= spec_sort_kept(scores@, threshold, i as int));
    }
    while i > 0
        invariant
            i <= scores@.len(),
            rcs_view(acc@) == spec_sort_kept(scores@, threshold, i as int),
        decreases i,
    {
        i = i - 1;
        if scores[i] > threshold {
            acc = insert_ranked(acc, RankedCandidate { index: i, score: scores[i] });
        }
    }
    if limit == 0 || limit >= acc.len() {
        acc
    } else {
        let ghost full = rcs_view(acc@);
        acc.truncate(limit);
        proof {
            assert(rcs_view(acc@) =~= full.take(limit as int));
        }
        acc
    }
}

} // verus!
