//! Search candidates and their order: prefix matches first, then by edit
//! distance, ties in the order in which the candidates were found.

use vstd::prelude::*;

verus! {

/// The table that a candidate was found in.
#[derive(Debug, Clone, Copy, PartialEq, Eq)]
pub enum Source {
    Primary,
    Collins,
    Etyma,
}

/// A word found by a search, before ranking.
#[derive(Debug, Clone, PartialEq, Eq)]
pub struct Candidate {
    pub word: String,
    pub content: String,
    pub source: Source,
    pub is_prefix: bool,
    pub distance: usize,
}

/// A `Candidate` as the contracts see it.
pub struct CandidateView {
    pub word: Seq<char>,
    pub content: Seq<char>,
    pub source: Source,
    pub is_prefix: bool,
    pub distance: nat,
}

impl View for Candidate {
    type V = CandidateView;

    open spec fn view(&self) -> CandidateView {
        CandidateView {
            word: self.word@,
            content: self.content@,
            source: self.source,
            is_prefix: self.is_prefix,
            distance: self.distance as nat,
        }
    }
}

/// The views of a list of candidates.
pub open spec fn candidate_views(list: Seq<Candidate>) -> Seq<CandidateView> {
    list.map_values(|c: Candidate| c@)
}

/// Whether `a` must stand before `b`: a prefix match before one that is
/// none, and within the same kind the smaller distance first.
pub open spec fn ranks_before(a: CandidateView, b: CandidateView) -> bool {
    (a.is_prefix && !b.is_prefix) || (a.is_prefix == b.is_prefix && a.distance < b.distance)
}

/// Where `c` goes into an ordered list: in front of the first element that
/// it must stand before, at the end if there is none.
pub open spec fn slot(ordered: Seq<CandidateView>, c: CandidateView) -> int
    decreases ordered.len(),
{
    if ordered.len() == 0 {
        0
    } else if ranks_before(c, ordered[0]) {
        0
    } else {
        1 + slot(ordered.drop_first(), c)
    }
}

/// The candidates in ranked order: each one, in the order of the list, takes
/// its slot among those before it. Candidates of equal rank keep the order
/// that they have in the list.
pub open spec fn ranked(list: Seq<CandidateView>) -> Seq<CandidateView>
    decreases list.len(),
{
    if list.len() == 0 {
        Seq::empty()
    } else {
        let before = ranked(list.drop_last());
        before.insert(slot(before, list.last()), list.last())
    }
}

/// No element of the list must stand before an earlier one.
pub open spec fn in_rank_order(list: Seq<CandidateView>) -> bool {
    forall|i: int, j: int| 0 <= i < j < list.len() ==> !ranks_before(list[j], list[i])
}

/// Tests `ranks_before`.
pub fn stands_before(a: &Candidate, b: &Candidate) -> (before: bool)
    ensures
        before == ranks_before(a@, b@),
{
    (a.is_prefix && !b.is_prefix) || (a.is_prefix == b.is_prefix && a.distance < b.distance)
}

pub proof fn lemma_slot_in_range(ordered: Seq<CandidateView>, c: CandidateView)
    ensures
        0 <= slot(ordered, c) <= ordered.len(),
    decreases ordered.len(),
{
    if ordered.len() != 0 && !ranks_before(c, ordered[0]) {
        lemma_slot_in_range(ordered.drop_first(), c);
    }
}

/// Up to its slot nothing must stand behind `c`; in an ordered list `c` must
/// stand before everything from its slot on.
pub proof fn lemma_slot_splits(ordered: Seq<CandidateView>, c: CandidateView)
    requires
        in_rank_order(ordered),
    ensures
        forall|i: int| 0 <= i < slot(ordered, c) ==> !ranks_before(c, #[trigger] ordered[i]),
        forall|i: int| slot(ordered, c) <= i < ordered.len() ==> ranks_before(c, #[trigger] ordered[i]),
    decreases ordered.len(),
{
    if ordered.len() != 0 {
        let rest = ordered.drop_first();
        assert forall|i: int, j: int| 0 <= i < j < rest.len() implies !ranks_before(
            rest[j],
            rest[i],
        ) by {
            assert(rest[i] == ordered[i + 1] && rest[j] == ordered[j + 1]);
        }
        if ranks_before(c, ordered[0]) {
            assert forall|i: int| 0 <= i < ordered.len() implies ranks_before(
                c,
                #[trigger] ordered[i],
            ) by {
                if i > 0 {
                    assert(!ranks_before(ordered[i], ordered[0]));
                }
            }
        } else {
            lemma_slot_splits(rest, c);
            lemma_slot_in_range(rest, c);
            assert forall|i: int| 0 <= i < slot(ordered, c) implies !ranks_before(
                c,
                #[trigger] ordered[i],
            ) by {
                if i > 0 {
                    assert(ordered[i] == rest[i - 1]);
                }
            }
            assert forall|i: int| slot(ordered, c) <= i < ordered.len() implies ranks_before(
                c,
                #[trigger] ordered[i],
            ) by {
                assert(ordered[i] == rest[i - 1]);
            }
        }
    }
}

/// The ranked list has the length of the list and is in rank order.
pub proof fn lemma_ranked_ordered(list: Seq<CandidateView>)
    ensures
        ranked(list).len() == list.len(),
        in_rank_order(ranked(list)),
    decreases list.len(),
{
    if list.len() != 0 {
        let before = ranked(list.drop_last());
        let c = list.last();
        let k = slot(before, c);
        lemma_ranked_ordered(list.drop_last());
        lemma_slot_in_range(before, c);
        lemma_slot_splits(before, c);
        let after = before.insert(k, c);
        assert forall|i: int, j: int| 0 <= i < j < after.len() implies !ranks_before(
            after[j],
            after[i],
        ) by {
            if j < k {
                assert(after[i] == before[i] && after[j] == before[j]);
            } else if j == k {
                assert(after[i] == before[i]);
            } else if i < k {
                assert(after[i] == before[i] && after[j] == before[j - 1]);
            } else if i == k {
                assert(after[j] == before[j - 1]);
                assert(ranks_before(c, before[j - 1]));
            } else {
                assert(after[i] == before[i - 1] && after[j] == before[j - 1]);
            }
        }
    }
}

/// Sorts the candidates into ranked order, in place.
pub fn rank(list: &mut Vec<Candidate>)
    ensures
        candidate_views(final(list)@) == ranked(candidate_views(old(list)@)),
{
    let ghost start = candidate_views(list@);
    let n: usize = list.len();
    let mut i: usize = 0;
    assert(candidate_views(list@) =~= ranked(start.take(0)) + start.skip(0));
    while i < n
        invariant
            i <= n,
            n == list.len(),
            n == start.len(),
            candidate_views(list@) == ranked(start.take(i as int)) + start.skip(i as int),
            ranked(start.take(i as int)).len() == i,
        decreases n - i,
    {
        let ghost before = ranked(start.take(i as int));
        let ghost rest = start.skip(i as int + 1);
        let ghost whole = candidate_views(list@);
        let c = list.remove(i);
        assert(c@ == start[i as int]) by {
            assert(whole[i as int] == start.skip(i as int)[0]);
        }
        assert(candidate_views(list@) =~= whole.remove(i as int));
        assert(whole.remove(i as int) =~= before + rest);
        let mut j: usize = 0;
        assert(before.skip(0) =~= before);
        while j < i && !stands_before(&c, &list[j])
            invariant
                j <= i,
                i < n,
                list.len() == n - 1,
                before.len() == i,
                candidate_views(list@) == before + rest,
                slot(before, c@) == j + slot(before.skip(j as int), c@),
            decreases i - j,
        {
            assert(before.skip(j as int)[0] == before[j as int]);
            assert(candidate_views(list@)[j as int] == before[j as int]);
            assert(before.skip(j as int).drop_first() =~= before.skip(j as int + 1));
            j += 1;
        }
        assert(slot(before, c@) == j) by {
            if j < i {
                assert(before.skip(j as int)[0] == before[j as int]);
                assert(candidate_views(list@)[j as int] == before[j as int]);
            } else {
                assert(before.skip(j as int).len() == 0);
            }
        }
        let ghost parted = candidate_views(list@);
        list.insert(j, c);
        proof {
            let next = start.take(i as int + 1);
            assert(next.drop_last() =~= start.take(i as int));
            assert(next.last() == start[i as int]);
            assert(ranked(next) == before.insert(j as int, c@));
            assert(candidate_views(list@) =~= parted.insert(j as int, c@));
            assert(parted.insert(j as int, c@) =~= before.insert(j as int, c@) + rest);
            assert(rest =~= start.skip(i as int + 1));
        }
        i += 1;
    }
    assert(start.take(n as int) =~= start);
    assert(candidate_views(list@) =~= ranked(start));
}

} // verus!
