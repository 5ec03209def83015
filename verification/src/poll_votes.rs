//! Poll votes: one vote per user and poll element; results count, for each
//! choice, the voters who picked it.
use vstd::prelude::*;
use crate::text::{dedup_trimmed, texts};
use crate::models::poll_vote::PollVote;

verus! {

/// Submitted choice ids: trimmed, blanks dropped, duplicates dropped.
pub fn normalize_choice_ids(raw: &Vec<String>) -> (out: Vec<String>)
    ensures
        texts(out@) == dedup_trimmed(texts(raw@)),
{
    crate::text::dedup_trimmed_strings(raw)
}

/// The body of a vote.
#[derive(Clone, Debug)]
pub struct SubmitVoteRequest {
    pub choice_ids: Vec<String>,
}

/// The choices a vote counts for.
pub open spec fn choices_of(v: PollVote) -> Seq<Seq<char>> {
    dedup_trimmed(texts(v.choice_ids@))
}

/// Number of the first `k` votes that picked `c`.
pub open spec fn votes_with(votes: Seq<PollVote>, c: Seq<char>, k: int) -> nat
    decreases k,
{
    if k <= 0 {
        0
    } else {
        votes_with(votes, c, k - 1) + if choices_of(votes[k - 1]).contains(c) {
            1nat
        } else {
            0nat
        }
    }
}

/// The tally of a poll element.
#[derive(Clone, Debug)]
pub struct PollSummary {
    /// Number of users who voted.
    pub total_voters: usize,
    /// For each choice picked at least once, how many voters picked it.
    /// Kept as (choice, count) pairs rather than a map keyed by `String`:
    /// Verus proves nothing of such a map's contents, while the pairs carry
    /// an exact contract (each choice once, with its number of votes).
    pub counts: Vec<(String, u64)>,
    /// The caller's own choices (none for an anonymous caller).
    pub my_choice_ids: Vec<String>,
}

/// The choice names of a tally.
pub open spec fn count_keys(counts: Seq<(String, u64)>) -> Seq<Seq<char>> {
    counts.map_values(|p: (String, u64)| p.0@)
}

/// `counts` tallies `votes`: distinct choices, each with the number of
/// votes that picked it, and every picked choice present.
pub open spec fn tallies(counts: Seq<(String, u64)>, votes: Seq<PollVote>) -> bool {
    &&& forall|i: int, j: int| 0 <= i < j < counts.len() ==> counts[i].0@ != counts[j].0@
    &&& forall|i: int| 0 <= i < counts.len() ==> #[trigger] counts[i].1 as nat == votes_with(votes, counts[i].0@, votes.len() as int)
    &&& forall|c: Seq<char>| votes_with(votes, c, votes.len() as int) > 0 ==> #[trigger] count_keys(counts).contains(c)
}

/// At most `k` of the first `k` votes picked `c`.
proof fn lemma_votes_with_bound(votes: Seq<PollVote>, c: Seq<char>, k: int)
    requires
        k >= 0,
    ensures
        votes_with(votes, c, k) <= k,
    decreases k,
{
    if k > 0 {
        lemma_votes_with_bound(votes, c, k - 1);
    }
}

/// Position of choice `c` in the tally, if present.
fn find_count(counts: &Vec<(String, u64)>, c: &str) -> (r: Option<usize>)
    ensures
        r matches Some(i) ==> i < counts@.len() && counts@[i as int].0@ == c@,
        r is None ==> !count_keys(counts@).contains(c@),
{
    let n = counts.len();
    let mut i: usize = 0;
    while i < n
        invariant
            n == counts@.len(),
            i <= n,
            forall|j: int| 0 <= j < i ==> #[trigger] counts@[j].0@ != c@,
        decreases n - i,
    {
        if crate::text::str_equals(counts[i].0.as_str(), c) {
            return Some(i);
        }
        i += 1;
    }
    assert forall|j: int| 0 <= j < count_keys(counts@).len() implies count_keys(counts@)[j] != c@ by {
        assert(count_keys(counts@)[j] == counts@[j].0@);
    }
    None
}

/// Adds one vote's (distinct) choices to the tally.
fn add_vote(counts: &mut Vec<(String, u64)>, votes: &Vec<PollVote>, k: usize)
    requires
        k < votes@.len(),
        forall|i: int, j: int| 0 <= i < j < old(counts)@.len() ==> old(counts)@[i].0@ != old(counts)@[j].0@,
        forall|i: int| 0 <= i < old(counts)@.len() ==> #[trigger] old(counts)@[i].1 as nat == votes_with(votes@, old(counts)@[i].0@, k as int),
        forall|c: Seq<char>| votes_with(votes@, c, k as int) > 0 ==> #[trigger] count_keys(old(counts)@).contains(c),
    ensures
        forall|i: int, j: int| 0 <= i < j < final(counts)@.len() ==> final(counts)@[i].0@ != final(counts)@[j].0@,
        forall|i: int| 0 <= i < final(counts)@.len() ==> #[trigger] final(counts)@[i].1 as nat == votes_with(votes@, final(counts)@[i].0@, k + 1),
        forall|c: Seq<char>| votes_with(votes@, c, k + 1) > 0 ==> #[trigger] count_keys(final(counts)@).contains(c),
{
    let ch = normalize_choice_ids(&votes[k].choice_ids);
    let ghost chv = texts(ch@);
    proof {
        crate::text::lemma_dedup_trimmed_clean(texts(votes@[k as int].choice_ids@));
    }
    let m = ch.len();
    let nv = votes.len();
    let mut q: usize = 0;
    while q < m
        invariant
            k < votes@.len(),
            nv == votes@.len(),
            m == ch@.len(),
            chv == texts(ch@),
            chv == choices_of(votes@[k as int]),
            forall|i: int, j: int| 0 <= i < j < chv.len() ==> chv[i] != chv[j],
            q <= m,
            forall|i: int, j: int| 0 <= i < j < counts@.len() ==> counts@[i].0@ != counts@[j].0@,
            forall|i: int| 0 <= i < counts@.len() ==> #[trigger] counts@[i].1 as nat == votes_with(votes@, counts@[i].0@, k as int) + if chv.take(q as int).contains(counts@[i].0@) {
                1nat
            } else {
                0nat
            },
            forall|c: Seq<char>| (votes_with(votes@, c, k as int) > 0 || chv.take(q as int).contains(c)) ==> #[trigger] count_keys(counts@).contains(c),
        decreases m - q,
    {
        let c = &ch[q];
        assert(chv[q as int] == c@);
        proof {
            assert(chv.take(q + 1) =~= chv.take(q as int).push(c@));
            assert(!chv.take(q as int).contains(c@)) by {
                if chv.take(q as int).contains(c@) {
                    let w = choose|w: int| 0 <= w < q && chv.take(q as int)[w] == c@;
                    assert(chv[w] == chv[q as int]);
                }
            }
        }
        let ghost before = counts@;
        match find_count(counts, c.as_str()) {
            Some(i) => {
                proof {
                    lemma_votes_with_bound(votes@, c@, k as int);
                }
                let cur = counts[i].1;
                let name = counts[i].0.clone();
                counts.set(i, (name, cur + 1));
                proof {
                    assert forall|a: int| 0 <= a < counts@.len() implies #[trigger] counts@[a].1 as nat == votes_with(votes@, counts@[a].0@, k as int) + if chv.take(q + 1).contains(counts@[a].0@) {
                        1nat
                    } else {
                        0nat
                    } by {
                        if a != i {
                            assert(counts@[a] == before[a]);
                            assert(before[a].0@ != c@);
                            assert(chv.take(q + 1).contains(before[a].0@) == chv.take(q as int).contains(before[a].0@));
                        } else {
                            assert(chv.take(q + 1)[q as int] == c@);
                        }
                    }
                    assert forall|cc: Seq<char>| (votes_with(votes@, cc, k as int) > 0 || chv.take(q + 1).contains(cc)) implies #[trigger] count_keys(counts@).contains(cc) by {
                        if cc != c@ && chv.take(q + 1).contains(cc) {
                            let t1 = chv.take(q + 1);
                            let w2 = choose|w2: int| 0 <= w2 < t1.len() && #[trigger] t1[w2] == cc;
                            assert(chv.take(q as int)[w2] == cc);
                        }
                        if cc == c@ {
                            assert(count_keys(counts@)[i as int] == cc);
                        } else {
                        assert(count_keys(before).contains(cc));
                        let w = choose|w: int| 0 <= w < count_keys(before).len() && count_keys(before)[w] == cc;
                        assert(count_keys(counts@)[w] == counts@[w].0@);
                        assert(counts@[w].0@ == before[w].0@);
                        }
                    }
                }
            },
            None => {
                proof {
                    assert(votes_with(votes@, c@, k as int) == 0) by {
                        if votes_with(votes@, c@, k as int) > 0 {
                            assert(count_keys(before).contains(c@));
                        }
                    }
                }
                counts.push((c.clone(), 1));
                proof {
                    assert forall|a: int| 0 <= a < counts@.len() implies #[trigger] counts@[a].1 as nat == votes_with(votes@, counts@[a].0@, k as int) + if chv.take(q + 1).contains(counts@[a].0@) {
                        1nat
                    } else {
                        0nat
                    } by {
                        if a < before.len() {
                            assert(counts@[a] == before[a]);
                            assert(before[a].0@ != c@) by {
                                assert(count_keys(before)[a] == before[a].0@);
                            }
                            assert(chv.take(q + 1).contains(before[a].0@) == chv.take(q as int).contains(before[a].0@));
                        } else {
                            assert(chv.take(q + 1)[q as int] == c@);
                        }
                    }
                    assert forall|a: int, b: int| 0 <= a < b < counts@.len() implies counts@[a].0@ != counts@[b].0@ by {
                        if b == before.len() {
                            assert(count_keys(before)[a] == before[a].0@);
                        }
                    }
                    assert forall|cc: Seq<char>| (votes_with(votes@, cc, k as int) > 0 || chv.take(q + 1).contains(cc)) implies #[trigger] count_keys(counts@).contains(cc) by {
                        if cc == c@ {
                            assert(count_keys(counts@)[before.len() as int] == cc);
                        } else {
                            assert(count_keys(before).contains(cc));
                            let w = choose|w: int| 0 <= w < count_keys(before).len() && count_keys(before)[w] == cc;
                            assert(count_keys(counts@)[w] == counts@[w].0@);
                        }
                    }
                }
            },
        }
        q += 1;
    }
    proof {
        assert(chv.take(m as int) =~= chv);
        assert forall|i: int| 0 <= i < counts@.len() implies #[trigger] counts@[i].1 as nat == votes_with(votes@, counts@[i].0@, k + 1) by {}
        assert forall|c: Seq<char>| votes_with(votes@, c, k + 1) > 0 implies #[trigger] count_keys(counts@).contains(c) by {}
    }
}

/// The tally of a poll element: how many users voted, how many picked each
/// choice (each vote counts a choice at most once), and the caller's own
/// choices.
pub fn aggregate(votes: &Vec<PollVote>, mine: Option<&PollVote>) -> (s: PollSummary)
    ensures
        s.total_voters == votes@.len(),
        tallies(s.counts@, votes@),
        texts(s.my_choice_ids@) == match mine {
            Some(v) => choices_of(*v),
            None => Seq::empty(),
        },
{
    let mut counts: Vec<(String, u64)> = Vec::new();
    let n = votes.len();
    let mut k: usize = 0;
    while k < n
        invariant
            n == votes@.len(),
            k <= n,
            forall|i: int, j: int| 0 <= i < j < counts@.len() ==> counts@[i].0@ != counts@[j].0@,
            forall|i: int| 0 <= i < counts@.len() ==> #[trigger] counts@[i].1 as nat == votes_with(votes@, counts@[i].0@, k as int),
            forall|c: Seq<char>| votes_with(votes@, c, k as int) > 0 ==> #[trigger] count_keys(counts@).contains(c),
        decreases n - k,
    {
        add_vote(&mut counts, votes, k);
        k += 1;
    }
    let my_choice_ids = match mine {
        Some(v) => normalize_choice_ids(&v.choice_ids),
        None => {
            let e: Vec<String> = Vec::new();
            assert(texts(e@) =~= Seq::empty());
            e
        },
    };
    PollSummary { total_voters: n, counts, my_choice_ids }
}

/// The vote a user stores: their existing vote with the new choices, or a
/// new vote.
pub fn record_vote(
    existing: Option<PollVote>,
    user_id: &str,
    deck_id: &str,
    slide_id: &str,
    element_id: &str,
    choice_ids: &Vec<String>,
    now: i64,
) -> (r: (PollVote, bool))
    ensures
        texts(r.0.choice_ids@) == dedup_trimmed(texts(choice_ids@)),
        r.0.updated_at == now,
        match existing {
            Some(e) => {
                &&& !r.1
                &&& r.0.id == e.id && r.0.user_id == e.user_id && r.0.deck_id == e.deck_id
                &&& r.0.slide_id == e.slide_id && r.0.element_id == e.element_id
                &&& r.0.created_at == e.created_at
            },
            None => {
                &&& r.1
                &&& r.0.id is None
                &&& r.0.user_id@ == user_id@ && r.0.deck_id@ == deck_id@
                &&& r.0.slide_id@ == slide_id@ && r.0.element_id@ == element_id@
                &&& r.0.created_at == now
            },
        },
{
    let normalized = normalize_choice_ids(choice_ids);
    match existing {
        Some(e) => {
            let v = PollVote { choice_ids: normalized, updated_at: now, ..e };
            (v, false)
        },
        None => {
            let v = PollVote {
                id: None,
                user_id: crate::text::owned(user_id),
                deck_id: crate::text::owned(deck_id),
                slide_id: crate::text::owned(slide_id),
                element_id: crate::text::owned(element_id),
                choice_ids: normalized,
                created_at: now,
                updated_at: now,
            };
            (v, true)
        },
    }
}

/// No choice is counted more often than there are voters, and a vote
/// counts each of its choices once (a vote's choices are distinct).
pub proof fn lemma_counts_at_most_voters(counts: Seq<(String, u64)>, votes: Seq<PollVote>)
    requires
        tallies(counts, votes),
    ensures
        forall|i: int| 0 <= i < counts.len() ==> (#[trigger] counts[i]).1 <= votes.len(),
        forall|k: int, i: int, j: int|
            0 <= k < votes.len() && 0 <= i < j < choices_of(votes[k]).len() ==> #[trigger] choices_of(
                votes[k],
            )[i] != #[trigger] choices_of(votes[k])[j],
{
    assert forall|i: int| 0 <= i < counts.len() implies (#[trigger] counts[i]).1 <= votes.len() by {
        lemma_votes_with_bound(votes, counts[i].0@, votes.len() as int);
    }
    assert forall|k: int, i: int, j: int|
        0 <= k < votes.len() && 0 <= i < j < choices_of(votes[k]).len() implies #[trigger] choices_of(
        votes[k],
    )[i] != #[trigger] choices_of(votes[k])[j] by {
        crate::text::lemma_dedup_trimmed_clean(texts(votes[k].choice_ids@));
    }
}

} // verus!
