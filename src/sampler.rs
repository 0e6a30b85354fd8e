use vstd::prelude::*;

use crate::error::GenerationError;

verus! {

/// Candidate `i` is ranked ahead of candidate `j`: a higher score comes first,
/// and of two equal scores the lower vocabulary index comes first.
pub open spec fn ranks_before(s: Seq<i64>, i: int, j: int) -> bool {
    s[i] > s[j] || (s[i] == s[j] && i < j)
}

/// Index `j` stands somewhere in `r`.
pub open spec fn listed(r: Seq<usize>, j: int) -> bool {
    exists|p: int| 0 <= p < r.len() && r[p] == j
}

/// `r` lists every vocabulary index of the score vector `s`, best candidate first.
pub open spec fn is_ranking(s: Seq<i64>, r: Seq<usize>) -> bool {
    &&& r.len() == s.len()
    &&& forall|p: int| 0 <= p < r.len() ==> r[p] < s.len()
    &&& forall|j: int| 0 <= j < s.len() ==> #[trigger] listed(r, j)
    &&& forall|p: int, q: int|
        0 <= p < q < r.len() ==> #[trigger] ranks_before(s, r[p] as int, r[q] as int)
}

/// How many of the best candidates a draw is taken from: `min(k, |s|)`.
pub open spec fn effective_width(s: Seq<i64>, k: nat) -> nat {
    if k < s.len() { k } else { s.len() }
}

/// `i` is the candidate at position `p` of the ranking of `s`.
pub open spec fn candidate_at(s: Seq<i64>, p: int, i: usize) -> bool {
    exists|r: Seq<usize>| is_ranking(s, r) && 0 <= p < r.len() && r[p] == i
}

/// `i` is one of the `k` best candidates of `s`, any of which a draw may pick.
pub open spec fn selectable(s: Seq<i64>, k: nat, i: usize) -> bool {
    exists|p: int| 0 <= p < effective_width(s, k) && candidate_at(s, p, i)
}

/// `i` is the single best candidate of `s`.
pub open spec fn is_best(s: Seq<i64>, i: usize) -> bool {
    &&& i < s.len()
    &&& forall|j: int| 0 <= j < s.len() && j != i ==> ranks_before(s, i as int, j)
}

/// Sorts the vocabulary indices of `scores` by score, highest first, lower index first on ties.
pub fn rank_candidates(scores: &Vec<i64>) -> (r: Vec<usize>)
    ensures
        is_ranking(scores@, r@),
{
    let n = scores.len();
    let mut r: Vec<usize> = Vec::new();
    let mut i: usize = 0;
    while i < n
        invariant
            n == scores@.len(),
            i <= n,
            r@.len() == i,
            forall|p: int| 0 <= p < r@.len() ==> r@[p] < i,
            forall|j: int| 0 <= j < i ==> #[trigger] listed(r@, j),
            forall|p: int, q: int|
                0 <= p < q < r@.len() ==> #[trigger] ranks_before(scores@, r@[p] as int, r@[q] as int),
        decreases n - i,
    {
        let si = scores[i];
        let mut pos: usize = 0;
        while pos < r.len() && scores[r[pos]] >= si
            invariant
                n == scores@.len(),
                i < n,
                r@.len() == i,
                pos <= r@.len(),
                forall|p: int| 0 <= p < r@.len() ==> r@[p] < i,
                forall|p: int| 0 <= p < pos ==> scores@[r@[p] as int] >= si,
            decreases r@.len() - pos,
        {
            pos = pos + 1;
        }
        let ghost old_r = r@;
        r.insert(pos, i);
        proof {
            assert forall|p: int, q: int|
                0 <= p < q < r@.len() implies #[trigger] ranks_before(scores@, r@[p] as int, r@[q] as int) by {
                if q < pos {
                    assert(ranks_before(scores@, old_r[p] as int, old_r[q] as int));
                } else if q == pos {
                    assert(scores@[old_r[p] as int] >= si);
                } else if p > pos {
                    assert(ranks_before(scores@, old_r[p - 1] as int, old_r[q - 1] as int));
                } else if p == pos {
                    assert(scores@[old_r[pos as int] as int] < si);
                    if pos < q - 1 {
                        assert(ranks_before(scores@, old_r[pos as int] as int, old_r[q - 1] as int));
                    }
                } else {
                    assert(ranks_before(scores@, old_r[p] as int, old_r[q - 1] as int));
                }
            }
            assert forall|j: int| 0 <= j < i + 1 implies #[trigger] listed(r@, j) by {
                if j == i {
                    assert(r@[pos as int] == j);
                } else {
                    assert(listed(old_r, j));
                    let at = choose|p: int| 0 <= p < old_r.len() && old_r[p] == j;
                    if at < pos {
                        assert(r@[at] == j);
                    } else {
                        assert(r@[at + 1] == j);
                    }
                }
            }
        }
        i = i + 1;
    }
    r
}

/// Picks the candidate at position `draw` of the ranking of `scores`, where `draw`
/// stands for a uniform draw below `min(k, |scores|)`.
/// An empty score vector or a width of zero leaves nothing to pick from.
pub fn select_drawn(scores: &Vec<i64>, k: usize, draw: usize) -> (res: Result<usize, GenerationError>)
    requires
        effective_width(scores@, k as nat) > 0 ==> draw < effective_width(scores@, k as nat),
    ensures
        res is Err <==> effective_width(scores@, k as nat) == 0,
        res is Err ==> res == Err::<usize, GenerationError>(GenerationError::InvalidConfiguration),
        res matches Ok(i) ==> candidate_at(scores@, draw as int, i),
{
    if scores.len() == 0 || k == 0 {
        return Err(GenerationError::InvalidConfiguration);
    }
    let r = rank_candidates(scores);
    let i = r[draw];
    assert(is_ranking(scores@, r@) && 0 <= draw < r@.len() && r@[draw as int] == i);
    Ok(i)
}

/// Relies on rand::Rng::gen_range on the thread-local generator of rand::thread_rng:
/// a value drawn uniformly from `0..n`; the call panics when the range is empty.
#[verifier::external_body]
pub(crate) fn draw_below(n: usize) -> (r: usize)
    requires
        n > 0,
    ensures
        r < n,
{
    rand::Rng::gen_range(&mut rand::thread_rng(), 0..n)
}

/// Draws one of the `k` best candidates of `scores` uniformly at random.
/// With `k == 1` the best candidate comes back whatever the draw; a `k` above the
/// number of candidates draws among all of them.
pub fn select(scores: &Vec<i64>, k: usize) -> (res: Result<usize, GenerationError>)
    ensures
        res is Err <==> (scores@.len() == 0 || k == 0),
        res is Err ==> res == Err::<usize, GenerationError>(GenerationError::InvalidConfiguration),
        res matches Ok(i) ==> selectable(scores@, k as nat, i),
        res matches Ok(i) ==> (k == 1 ==> is_best(scores@, i)),
{
    if scores.len() == 0 || k == 0 {
        return Err(GenerationError::InvalidConfiguration);
    }
    let width = if k < scores.len() { k } else { scores.len() };
    let draw = draw_below(width);
    let res = select_drawn(scores, k, draw);
    proof {
        if let Ok(i) = res {
            if k == 1 {
                lemma_first_is_best(scores@, i);
            }
        }
    }
    res
}

/// The candidate at the head of a ranking beats every other candidate.
pub proof fn lemma_first_is_best(s: Seq<i64>, i: usize)
    requires
        candidate_at(s, 0, i),
    ensures
        is_best(s, i),
{
    let r = choose|r: Seq<usize>| is_ranking(s, r) && r.len() > 0 && r[0] == i;
    assert forall|j: int| 0 <= j < s.len() && j != i implies ranks_before(s, i as int, j) by {
        assert(listed(r, j));
        let q = choose|q: int| 0 <= q < r.len() && r[q] == j;
        assert(ranks_before(s, r[0] as int, r[q] as int));
    }
}

/// The first `m` positions of two rankings of the same scores agree.
proof fn lemma_rankings_agree_upto(s: Seq<i64>, r1: Seq<usize>, r2: Seq<usize>, m: int)
    requires
        is_ranking(s, r1),
        is_ranking(s, r2),
        0 <= m <= s.len(),
    ensures
        forall|p: int| 0 <= p < m ==> r1[p] == r2[p],
    decreases m,
{
    if m > 0 {
        lemma_rankings_agree_upto(s, r1, r2, m - 1);
        let a = r1[m - 1];
        let b = r2[m - 1];
        if a != b {
            assert(listed(r2, a as int));
            let q = choose|q: int| 0 <= q < r2.len() && r2[q] == a;
            if q < m - 1 {
                assert(ranks_before(s, r1[q] as int, r1[m - 1] as int));
            }
            assert(ranks_before(s, r2[m - 1] as int, r2[q] as int));
            assert(listed(r1, b as int));
            let q1 = choose|q: int| 0 <= q < r1.len() && r1[q] == b;
            if q1 < m - 1 {
                assert(ranks_before(s, r2[q1] as int, r2[m - 1] as int));
            }
            assert(ranks_before(s, r1[m - 1] as int, r1[q1] as int));
        }
    }
}

/// A score vector has exactly one ranking: ties are settled by index, so the
/// order of candidates never depends on anything but the scores.
pub proof fn lemma_ranking_unique(s: Seq<i64>, r1: Seq<usize>, r2: Seq<usize>)
    requires
        is_ranking(s, r1),
        is_ranking(s, r2),
    ensures
        r1 == r2,
{
    lemma_rankings_agree_upto(s, r1, r2, s.len() as int);
    assert(r1 =~= r2);
}

/// A draw position names one candidate only.
pub proof fn lemma_candidate_at_unique(s: Seq<i64>, p: int, i: usize, j: usize)
    requires
        candidate_at(s, p, i),
        candidate_at(s, p, j),
    ensures
        i == j,
{
    let r1 = choose|r: Seq<usize>| is_ranking(s, r) && 0 <= p < r.len() && r[p] == i;
    let r2 = choose|r: Seq<usize>| is_ranking(s, r) && 0 <= p < r.len() && r[p] == j;
    lemma_ranking_unique(s, r1, r2);
}

/// With a width of one, selection is greedy: whatever the draw, the one candidate
/// that can come out is the best one.
pub proof fn lemma_width_one_is_greedy(s: Seq<i64>, i: usize, j: usize)
    requires
        selectable(s, 1, i),
        selectable(s, 1, j),
    ensures
        i == j,
        is_best(s, i),
{
    lemma_candidate_at_unique(s, 0, i, j);
    lemma_first_is_best(s, i);
}

/// A width above the number of candidates acts as a width equal to it.
pub proof fn lemma_width_clamped(s: Seq<i64>, k: nat)
    requires
        1 <= s.len() < k,
    ensures
        effective_width(s, k) == s.len(),
        forall|i: usize| selectable(s, k, i) == selectable(s, s.len(), i),
{
}

} // verus!
