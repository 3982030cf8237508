//! Ranking: the few best of a list of scored candidates.

use vstd::prelude::*;

verus! {

/// The most candidates a ranking holds.
pub const TOP: usize = 5;

/// The scores as integers.
pub open spec fn ints(scores: Seq<usize>) -> Seq<int> {
    Seq::new(scores.len(), |i: int| scores[i] as int)
}

/// The candidate at `i` takes part: it is there and its score is positive.
pub open spec fn eligible(scores: Seq<int>, i: int) -> bool {
    0 <= i < scores.len() && scores[i] > 0
}

/// `picks` ranks the candidates: at most `top` of them, each taking part and
/// picked once, by falling score, none left out that beats one picked, and
/// none left out at all while there is room. Which of two candidates with the
/// same score comes first, or is left out, is not said.
pub open spec fn is_ranking(scores: Seq<int>, picks: Seq<int>, top: int) -> bool {
    &&& picks.len() <= top
    &&& forall|k: int| 0 <= k < picks.len() ==> eligible(scores, #[trigger] picks[k])
    &&& forall|k: int, l: int|
        0 <= k < l < picks.len() ==> #[trigger] picks[k] != #[trigger] picks[l]
    &&& forall|k: int, l: int|
        0 <= k < l < picks.len() ==> scores[#[trigger] picks[k]] >= scores[#[trigger] picks[l]]
    &&& forall|i: int, k: int|
        #![trigger eligible(scores, i), picks[k]]
        eligible(scores, i) && !picks.contains(i) && 0 <= k < picks.len() ==> scores[i]
            <= scores[picks[k]]
    &&& picks.len() < top ==> forall|i: int| #[trigger] eligible(scores, i) ==> picks.contains(i)
}

/// In a ranking, a candidate that beats one picked is picked too, and stands
/// before it.
pub proof fn lemma_higher_score_ranks_first(
    scores: Seq<int>,
    picks: Seq<int>,
    top: int,
    i: int,
    k: int,
)
    requires
        is_ranking(scores, picks, top),
        eligible(scores, i),
        0 <= k < picks.len(),
        scores[i] > scores[picks[k]],
    ensures
        exists|l: int| 0 <= l < k && picks[l] == i,
{
    if !picks.contains(i) {
        assert(scores[i] <= scores[picks[k]]);
    }
    let l = choose|l: int| 0 <= l < picks.len() && picks[l] == i;
    if l > k {
        assert(scores[picks[k]] >= scores[picks[l]]);
    }
}

/// The positions of the best candidates, best first: at most five, a
/// candidate with score zero never among them. Among equal scores the earlier
/// position wins.
pub fn rank(scores: &Vec<usize>) -> (picks: Vec<usize>)
    ensures
        is_ranking(ints(scores@), ints(picks@), TOP as int),
{
    let n = scores.len();
    let mut taken: Vec<bool> = Vec::new();
    while taken.len() < n
        invariant
            taken.len() <= n,
            forall|i: int| 0 <= i < taken.len() ==> !taken[i],
        decreases n - taken.len(),
    {
        taken.push(false);
    }
    let mut picks: Vec<usize> = Vec::new();
    let ghost s = ints(scores@);
    while picks.len() < TOP
        invariant
            n == scores.len(),
            taken.len() == n,
            s == ints(scores@),
            picks.len() <= TOP,
            forall|i: int| 0 <= i < n ==> (#[trigger] taken[i] <==> ints(picks@).contains(i)),
            forall|k: int| 0 <= k < picks.len() ==> eligible(s, #[trigger] ints(picks@)[k]),
            forall|k: int, l: int|
                0 <= k < l < picks.len() ==> #[trigger] ints(picks@)[k] != #[trigger] ints(
                    picks@,
                )[l],
            forall|k: int, l: int|
                0 <= k < l < picks.len() ==> s[#[trigger] ints(picks@)[k]] >= s[#[trigger] ints(
                    picks@,
                )[l]],
            forall|i: int, k: int|
                #![trigger eligible(s, i), ints(picks@)[k]]
                eligible(s, i) && !ints(picks@).contains(i) && 0 <= k < picks.len() ==> s[i]
                    <= s[ints(picks@)[k]],
        ensures
            is_ranking(s, ints(picks@), TOP as int),
        decreases TOP - picks.len(),
    {
        let mut best: Option<usize> = None;
        let mut i: usize = 0;
        while i < n
            invariant
                i <= n,
                n == scores.len(),
                taken.len() == n,
                s == ints(scores@),
                best matches Some(b) ==> b < i && eligible(s, b as int) && !taken[b as int],
                best matches Some(b) ==> forall|j: int|
                    0 <= j < i && #[trigger] eligible(s, j) && !taken[j] ==> s[j] <= s[b as int],
                best is None ==> forall|j: int|
                    0 <= j < i && #[trigger] eligible(s, j) ==> taken[j],
            decreases n - i,
        {
            if scores[i] > 0 && !taken[i] {
                match best {
                    None => {
                        best = Some(i);
                    },
                    Some(b) => {
                        if scores[i] > scores[b] {
                            best = Some(i);
                        }
                    },
                }
            }
            i += 1;
        }
        match best {
            None => {
                proof {
                    assert forall|j: int| #[trigger] eligible(s, j) implies ints(picks@).contains(
                        j,
                    ) by {
                        assert(taken[j]);
                    }
                }
                break ;
            },
            Some(b) => {
                let ghost before = ints(picks@);
                picks.push(b);
                taken.set(b, true);
                proof {
                    let after = ints(picks@);
                    assert(after =~= before.push(b as int));
                    assert(!before.contains(b as int));
                    assert forall|i: int| 0 <= i < n implies (#[trigger] taken[i] <==> after.contains(
                        i,
                    )) by {
                        vstd::seq_lib::lemma_seq_contains_after_push(before, b as int, i);
                    }
                    assert forall|k: int, l: int| 0 <= k < l < after.len() implies #[trigger] after[k]
                        != #[trigger] after[l] by {
                        if l == before.len() {
                            assert(before.contains(before[k]));
                        }
                    }
                    assert forall|k: int, l: int| 0 <= k < l < after.len() implies s[#[trigger] after[k]]
                        >= s[#[trigger] after[l]] by {
                        if l == before.len() {
                            assert(eligible(s, b as int));
                            assert(s[b as int] <= s[before[k]]);
                        }
                    }
                    assert forall|i: int, k: int|
                        #![trigger eligible(s, i), after[k]]
                        eligible(s, i) && !after.contains(i) && 0 <= k < after.len() implies s[i]
                            <= s[after[k]] by {
                        vstd::seq_lib::lemma_seq_contains_after_push(before, b as int, i);
                        if k == before.len() {
                            assert(!taken[i]);
                        } else {
                            assert(after[k] == before[k]);
                        }
                    }
                }
            },
        }
    }
    picks
}

} // verus!
