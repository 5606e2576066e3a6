//! What holds of every search, proved from the definitions of the search
//! and of the ranking.

use vstd::prelude::*;
use crate::text::lowercase;
use crate::entry::WordSuggestionView;
use crate::rank::{
    Source,
    CandidateView,
    ranked,
    ranks_before,
    slot,
    lemma_ranked_ordered,
    lemma_slot_in_range,
    lemma_slot_splits,
};
use crate::search::{
    WordRowView,
    PRIMARY_CAP,
    COLLINS_CAP,
    ETYMA_CAP,
    FUZZY_CAP,
    seen,
    absorbed,
    capped,
    prefix_candidates,
    fuzzy_candidates,
    all_candidates,
    kept_candidates,
    candidate,
    is_fuzzy_match,
    suggestion,
    search_result,
};

verus! {

/// No two candidates have the same lowercase word.
pub open spec fn distinct_words(list: Seq<CandidateView>) -> bool {
    forall|i: int, j: int|
        0 <= i < j < list.len() ==> lowercase(list[i].word) != lowercase(list[j].word)
}

/// No two rows have the same lowercase word.
pub open spec fn distinct_rows(rows: Seq<WordRowView>) -> bool {
    forall|i: int, j: int|
        0 <= i < j < rows.len() ==> lowercase(rows[i].word) != lowercase(rows[j].word)
}

/// No two suggestions have the same lowercase word.
pub open spec fn distinct_suggestions(list: Seq<WordSuggestionView>) -> bool {
    forall|i: int, j: int|
        0 <= i < j < list.len() ==> lowercase(list[i].word) != lowercase(list[j].word)
}

/// A lowercase word has been seen exactly if some candidate has it.
pub proof fn lemma_seen_is_some_candidate(found: Seq<CandidateView>, lowered: Seq<char>)
    ensures
        seen(found, lowered) <==> exists|i: int|
            0 <= i < found.len() && lowercase(#[trigger] found[i].word) == lowered,
    decreases found.len(),
{
    if found.len() > 0 {
        let init = found.drop_last();
        lemma_seen_is_some_candidate(init, lowered);
        if seen(found, lowered) {
            if lowercase(found.last().word) == lowered {
                assert(lowercase(found[found.len() - 1].word) == lowered);
            } else {
                let i = choose|i: int|
                    0 <= i < init.len() && lowercase(#[trigger] init[i].word) == lowered;
                assert(found[i] == init[i]);
            }
        }
        if exists|i: int| 0 <= i < found.len() && lowercase(#[trigger] found[i].word) == lowered {
            let i = choose|i: int|
                0 <= i < found.len() && lowercase(#[trigger] found[i].word) == lowered;
            if i < found.len() - 1 {
                assert(init[i] == found[i]);
            }
        }
    }
}

/// Taking rows in keeps the lowercase words of the candidates distinct.
pub proof fn lemma_absorbed_distinct(
    found: Seq<CandidateView>,
    rows: Seq<WordRowView>,
    source: Source,
    query: Seq<char>,
)
    requires
        distinct_words(found),
    ensures
        distinct_words(absorbed(found, rows, source, query)),
    decreases rows.len(),
{
    if rows.len() > 0 {
        let before = absorbed(found, rows.drop_last(), source, query);
        lemma_absorbed_distinct(found, rows.drop_last(), source, query);
        let lowered = lowercase(rows.last().word);
        lemma_seen_is_some_candidate(before, lowered);
        if !seen(before, lowered) {
            let after = absorbed(found, rows, source, query);
            assert forall|i: int, j: int| 0 <= i < j < after.len() implies lowercase(after[i].word)
                != lowercase(after[j].word) by {
                assert(after[i] == before[i]);
                if j < before.len() {
                    assert(after[j] == before[j]);
                }
            }
        }
    }
}

/// Every candidate that the supplementary rows add has the lowercase word
/// of one of the rows and has not been seen among the prefix candidates. If
/// the rows' lowercase words are distinct, so are the added candidates'.
pub proof fn lemma_fuzzy_distinct(
    found: Seq<CandidateView>,
    rows: Seq<WordRowView>,
    query: Seq<char>,
)
    requires
        distinct_rows(rows),
    ensures
        distinct_words(fuzzy_candidates(found, rows, query)),
        forall|k: int|
            0 <= k < fuzzy_candidates(found, rows, query).len() ==> !seen(
                found,
                lowercase(#[trigger] fuzzy_candidates(found, rows, query)[k].word),
            ),
        forall|k: int|
            0 <= k < fuzzy_candidates(found, rows, query).len() ==> exists|m: int|
                0 <= m < rows.len() && lowercase(#[trigger] rows[m].word) == lowercase(
                    #[trigger] fuzzy_candidates(found, rows, query)[k].word,
                ),
        fuzzy_candidates(found, rows, query).len() <= rows.len(),
    decreases rows.len(),
{
    if rows.len() > 0 {
        let init = rows.drop_last();
        let before = fuzzy_candidates(found, init, query);
        let after = fuzzy_candidates(found, rows, query);
        assert(distinct_rows(init)) by {
            assert forall|i: int, j: int| 0 <= i < j < init.len() implies lowercase(init[i].word)
                != lowercase(init[j].word) by {
                assert(init[i] == rows[i] && init[j] == rows[j]);
            }
        }
        lemma_fuzzy_distinct(found, init, query);
        assert forall|k: int| 0 <= k < after.len() implies exists|m: int|
            0 <= m < rows.len() && lowercase(#[trigger] rows[m].word) == lowercase(
                #[trigger] after[k].word,
            ) by {
            if k < before.len() {
                assert(after[k] == before[k]);
                let m = choose|m: int|
                    0 <= m < init.len() && lowercase(#[trigger] init[m].word) == lowercase(
                        before[k].word,
                    );
                assert(rows[m] == init[m]);
            } else {
                assert(lowercase(rows[rows.len() - 1].word) == lowercase(after[k].word));
            }
        }
        assert forall|i: int, j: int| 0 <= i < j < after.len() implies lowercase(after[i].word)
            != lowercase(after[j].word) by {
            assert(after[i] == before[i]);
            if j < before.len() {
                assert(after[j] == before[j]);
            } else {
                let m = choose|m: int|
                    0 <= m < init.len() && lowercase(#[trigger] init[m].word) == lowercase(
                        before[i].word,
                    );
                assert(rows[m] == init[m]);
                assert(lowercase(rows[m].word) != lowercase(rows[rows.len() - 1].word));
            }
        }
        assert forall|k: int| 0 <= k < after.len() implies !seen(
            found,
            lowercase(#[trigger] after[k].word),
        ) by {
            if k < before.len() {
                assert(after[k] == before[k]);
            }
        }
    }
}

/// Ranking moves candidates and makes none: every candidate of the ranked
/// list stands in the list.
pub proof fn lemma_ranked_from_list(list: Seq<CandidateView>)
    ensures
        ranked(list).len() == list.len(),
        forall|i: int|
            0 <= i < list.len() ==> exists|j: int|
                0 <= j < list.len() && #[trigger] list[j] == #[trigger] ranked(list)[i],
    decreases list.len(),
{
    lemma_ranked_ordered(list);
    if list.len() > 0 {
        let init = list.drop_last();
        let before = ranked(init);
        let k = slot(before, list.last());
        lemma_ranked_from_list(init);
        lemma_slot_in_range(before, list.last());
        let after = ranked(list);
        assert forall|i: int| 0 <= i < list.len() implies exists|j: int|
            0 <= j < list.len() && #[trigger] list[j] == #[trigger] after[i] by {
            if i == k {
                assert(list[list.len() - 1] == after[i]);
            } else {
                let b = if i < k {
                    i
                } else {
                    i - 1
                };
                assert(after[i] == before[b]);
                let j = choose|j: int| 0 <= j < init.len() && #[trigger] init[j] == before[b];
                assert(list[j] == init[j]);
            }
        }
    }
}

/// Ranking keeps the lowercase words distinct.
pub proof fn lemma_ranked_distinct(list: Seq<CandidateView>)
    requires
        distinct_words(list),
    ensures
        distinct_words(ranked(list)),
    decreases list.len(),
{
    if list.len() > 0 {
        let init = list.drop_last();
        let last = list.last();
        let before = ranked(init);
        let k = slot(before, last);
        assert(distinct_words(init)) by {
            assert forall|i: int, j: int| 0 <= i < j < init.len() implies lowercase(init[i].word)
                != lowercase(init[j].word) by {
                assert(init[i] == list[i] && init[j] == list[j]);
            }
        }
        lemma_ranked_distinct(init);
        lemma_ranked_from_list(init);
        lemma_slot_in_range(before, last);
        let after = ranked(list);
        assert forall|b: int| 0 <= b < before.len() implies lowercase(
            (#[trigger] before[b]).word,
        ) != lowercase(last.word) by {
            let j = choose|j: int| 0 <= j < init.len() && #[trigger] init[j] == before[b];
            assert(list[j] == init[j]);
            assert(lowercase(list[j].word) != lowercase(list[list.len() - 1].word));
        }
        assert forall|i: int, j: int| 0 <= i < j < after.len() implies lowercase(after[i].word)
            != lowercase(after[j].word) by {
            let bi = if i < k {
                i
            } else {
                i - 1
            };
            let bj = if j < k {
                j
            } else {
                j - 1
            };
            if i == k {
                assert(after[j] == before[bj]);
            } else if j == k {
                assert(after[i] == before[bi]);
            } else {
                assert(after[i] == before[bi] && after[j] == before[bj]);
            }
        }
    }
}

/// The candidates of one rank: those with this prefix flag and distance.
pub open spec fn of_rank(is_prefix: bool, distance: nat) -> spec_fn(CandidateView) -> bool {
    |c: CandidateView| c.is_prefix == is_prefix && c.distance == distance
}

/// A filter that no element passes leaves nothing.
proof fn lemma_filter_none(list: Seq<CandidateView>, pred: spec_fn(CandidateView) -> bool)
    requires
        forall|i: int| 0 <= i < list.len() ==> !pred(#[trigger] list[i]),
    ensures
        list.filter(pred) == Seq::<CandidateView>::empty(),
    decreases list.len(),
{
    reveal(Seq::filter);
    if list.len() > 0 {
        let init = list.drop_last();
        assert forall|i: int| 0 <= i < init.len() implies !pred(#[trigger] init[i]) by {
            assert(init[i] == list[i]);
        }
        lemma_filter_none(init, pred);
        assert(!pred(list[list.len() - 1]));
    } else {
        assert(list =~= Seq::<CandidateView>::empty());
    }
}

/// Ranking is stable: the candidates of one rank stand in the ranked list
/// in the order that they have in the list.
pub proof fn lemma_ranked_stable(list: Seq<CandidateView>, is_prefix: bool, distance: nat)
    ensures
        ranked(list).filter(of_rank(is_prefix, distance)) == list.filter(
            of_rank(is_prefix, distance),
        ),
    decreases list.len(),
{
    let pred = of_rank(is_prefix, distance);
    if list.len() == 0 {
        assert(list =~= ranked(list));
    } else {
        let init = list.drop_last();
        let last = list.last();
        let before = ranked(init);
        let k = slot(before, last);
        lemma_ranked_stable(init, is_prefix, distance);
        lemma_ranked_ordered(init);
        lemma_slot_in_range(before, last);
        lemma_slot_splits(before, last);
        let head = before.take(k);
        let tail = before.skip(k);
        assert(before =~= head + tail);
        assert(before.insert(k, last) =~= head.push(last) + tail);
        assert(list =~= init.push(last));
        Seq::filter_distributes_over_add(head, tail, pred);
        Seq::filter_distributes_over_add(head.push(last), tail, pred);
        head.lemma_filter_push(last, pred);
        init.lemma_filter_push(last, pred);
        if pred(last) {
            assert forall|i: int| 0 <= i < tail.len() implies !pred(#[trigger] tail[i]) by {
                assert(tail[i] == before[k + i]);
                assert(ranks_before(last, before[k + i]));
            }
            lemma_filter_none(tail, pred);
            assert(head.filter(pred) + tail.filter(pred) =~= head.filter(pred));
            assert(head.filter(pred).push(last) + tail.filter(pred) =~= head.filter(pred).push(
                last,
            ));
        }
    }
}

/// In a ranked list every prefix match stands before every candidate that
/// is none, whatever their distances.
pub proof fn lemma_prefix_matches_first(list: Seq<CandidateView>)
    ensures
        forall|i: int, j: int|
            0 <= i < ranked(list).len() && 0 <= j < ranked(list).len() && ranked(
                list,
            )[i].is_prefix && !ranked(list)[j].is_prefix ==> i < j,
{
    lemma_ranked_ordered(list);
    let r = ranked(list);
    assert forall|i: int, j: int|
        0 <= i < r.len() && 0 <= j < r.len() && r[i].is_prefix && !r[j].is_prefix implies i
        < j by {
        if j < i {
            assert(!ranks_before(r[i], r[j]));
        }
    }
}

/// Within the prefix matches of a ranked list, and within the others, the
/// distances never fall.
pub proof fn lemma_distances_rise(list: Seq<CandidateView>)
    ensures
        forall|i: int, j: int|
            0 <= i < j < ranked(list).len() && ranked(list)[i].is_prefix == ranked(
                list,
            )[j].is_prefix ==> ranked(list)[i].distance <= ranked(list)[j].distance,
{
    lemma_ranked_ordered(list);
    let r = ranked(list);
    assert forall|i: int, j: int|
        0 <= i < j < r.len() && r[i].is_prefix == r[j].is_prefix implies r[i].distance
        <= r[j].distance by {
        assert(!ranks_before(r[j], r[i]));
    }
}

/// Ranking loses no candidate: every candidate of the list stands in the
/// ranked list.
pub proof fn lemma_ranked_holds_all(list: Seq<CandidateView>)
    ensures
        forall|j: int|
            0 <= j < list.len() ==> exists|i: int|
                0 <= i < ranked(list).len() && #[trigger] ranked(list)[i] == #[trigger] list[j],
    decreases list.len(),
{
    if list.len() > 0 {
        let init = list.drop_last();
        let before = ranked(init);
        let k = slot(before, list.last());
        lemma_ranked_holds_all(init);
        lemma_ranked_ordered(init);
        lemma_slot_in_range(before, list.last());
        let after = ranked(list);
        assert forall|j: int| 0 <= j < list.len() implies exists|i: int|
            0 <= i < after.len() && #[trigger] after[i] == #[trigger] list[j] by {
            if j == list.len() - 1 {
                assert(after[k] == list[j]);
            } else {
                assert(init[j] == list[j]);
                let b = choose|b: int| 0 <= b < before.len() && #[trigger] before[b] == init[j];
                let i = if b < k {
                    b
                } else {
                    b + 1
                };
                assert(after[i] == before[b]);
            }
        }
    }
}

/// The suggestions of a search are those of the candidates that it keeps,
/// one for one. Among the kept candidates every prefix match stands before
/// every candidate that is none, whatever their distances, and within each
/// of the two kinds the distances never fall.
pub proof fn lemma_search_order(
    query: Seq<char>,
    limit: nat,
    primary: Seq<WordRowView>,
    collins: Seq<WordRowView>,
    etyma: Seq<WordRowView>,
    fuzzy: Seq<WordRowView>,
)
    ensures
        ({
            let kept = kept_candidates(query, limit, primary, collins, etyma, fuzzy);
            let result = search_result(query, limit, primary, collins, etyma, fuzzy);
            &&& result.len() == kept.len()
            &&& forall|i: int| 0 <= i < kept.len() ==> #[trigger] result[i] == suggestion(kept[i])
            &&& forall|i: int, j: int|
                0 <= i < kept.len() && 0 <= j < kept.len() && kept[i].is_prefix
                    && !kept[j].is_prefix ==> i < j
            &&& forall|i: int, j: int|
                0 <= i < j < kept.len() && kept[i].is_prefix == kept[j].is_prefix
                    ==> kept[i].distance <= kept[j].distance
        }),
{
    let all = all_candidates(query, limit, primary, collins, etyma, fuzzy);
    let kept = kept_candidates(query, limit, primary, collins, etyma, fuzzy);
    lemma_prefix_matches_first(all);
    lemma_distances_rise(all);
    lemma_ranked_ordered(all);
    assert forall|i: int| 0 <= i < kept.len() implies kept[i] == ranked(all)[i] by {}
}

/// The fuzzy fallback: where the prefix candidates are fewer than the
/// limit, a supplementary row among those read becomes a candidate if its
/// lowercase word is new and within the fuzzy distance of the query. Where
/// the candidates are no more than the limit, it is among the suggestions.
pub proof fn lemma_fuzzy_match_surfaces(
    query: Seq<char>,
    limit: nat,
    primary: Seq<WordRowView>,
    collins: Seq<WordRowView>,
    etyma: Seq<WordRowView>,
    fuzzy: Seq<WordRowView>,
    i: int,
)
    requires
        0 <= i < capped(fuzzy, FUZZY_CAP as nat).len(),
        prefix_candidates(lowercase(query), primary, collins, etyma).len() < limit,
        is_fuzzy_match(
            prefix_candidates(lowercase(query), primary, collins, etyma),
            fuzzy[i],
            lowercase(query),
        ),
    ensures
        ({
            let all = all_candidates(query, limit, primary, collins, etyma, fuzzy);
            let result = search_result(query, limit, primary, collins, etyma, fuzzy);
            let made = candidate(fuzzy[i], Source::Primary, lowercase(query), false);
            &&& exists|k: int| 0 <= k < all.len() && #[trigger] all[k] == made
            &&& all.len() <= limit ==> exists|k: int|
                0 <= k < result.len() && #[trigger] result[k] == suggestion(made)
        }),
{
    let q = lowercase(query);
    let found = prefix_candidates(q, primary, collins, etyma);
    let rows = capped(fuzzy, FUZZY_CAP as nat);
    let more = fuzzy_candidates(found, rows, q);
    let all = all_candidates(query, limit, primary, collins, etyma, fuzzy);
    let made = candidate(fuzzy[i], Source::Primary, q, false);
    assert(rows[i] == fuzzy[i]);
    lemma_fuzzy_holds_match(found, rows, q, i);
    let m = choose|m: int| 0 <= m < more.len() && #[trigger] more[m] == made;
    assert(all[found.len() + m] == made);
    if all.len() <= limit {
        lemma_ranked_holds_all(all);
        lemma_ranked_ordered(all);
        let result = search_result(query, limit, primary, collins, etyma, fuzzy);
        let k = choose|k: int| 0 <= k < ranked(all).len() && #[trigger] ranked(all)[k] == all[found.len() + m];
        assert(result[k] == suggestion(made));
    }
}

/// A supplementary row that is a fuzzy match is among the candidates that
/// the rows add.
proof fn lemma_fuzzy_holds_match(
    found: Seq<CandidateView>,
    rows: Seq<WordRowView>,
    query: Seq<char>,
    i: int,
)
    requires
        0 <= i < rows.len(),
        is_fuzzy_match(found, rows[i], query),
    ensures
        exists|m: int|
            0 <= m < fuzzy_candidates(found, rows, query).len() && #[trigger] fuzzy_candidates(
                found,
                rows,
                query,
            )[m] == candidate(rows[i], Source::Primary, query, false),
    decreases rows.len(),
{
    let after = fuzzy_candidates(found, rows, query);
    let made = candidate(rows[i], Source::Primary, query, false);
    if i == rows.len() - 1 {
        assert(after[after.len() - 1] == made);
    } else {
        let init = rows.drop_last();
        assert(init[i] == rows[i]);
        lemma_fuzzy_holds_match(found, init, query, i);
        let before = fuzzy_candidates(found, init, query);
        let m = choose|m: int| 0 <= m < before.len() && #[trigger] before[m] == made;
        assert(after[m] == before[m]);
    }
}

/// A search never returns more suggestions than the limit. If no two of the
/// supplementary rows that it reads share a lowercase word, no two of its
/// suggestions do.
pub proof fn lemma_search_bounded_and_distinct(
    query: Seq<char>,
    limit: nat,
    primary: Seq<WordRowView>,
    collins: Seq<WordRowView>,
    etyma: Seq<WordRowView>,
    fuzzy: Seq<WordRowView>,
)
    ensures
        search_result(query, limit, primary, collins, etyma, fuzzy).len() <= limit,
        distinct_rows(capped(fuzzy, FUZZY_CAP as nat)) ==> distinct_suggestions(
            search_result(query, limit, primary, collins, etyma, fuzzy),
        ),
{
    let q = lowercase(query);
    let all = all_candidates(query, limit, primary, collins, etyma, fuzzy);
    let kept = capped(ranked(all), limit);
    let result = search_result(query, limit, primary, collins, etyma, fuzzy);
    assert(result.len() == kept.len());
    if distinct_rows(capped(fuzzy, FUZZY_CAP as nat)) {
        lemma_search_candidates_distinct(query, limit, primary, collins, etyma, fuzzy);
        lemma_ranked_distinct(all);
        assert forall|i: int, j: int| 0 <= i < j < result.len() implies lowercase(result[i].word)
            != lowercase(result[j].word) by {
            assert(result[i] == suggestion(kept[i]) && result[j] == suggestion(kept[j]));
            assert(kept[i] == ranked(all)[i] && kept[j] == ranked(all)[j]);
        }
    }
}

/// The candidates of a search have distinct lowercase words, if the
/// supplementary rows that it reads have.
pub proof fn lemma_search_candidates_distinct(
    query: Seq<char>,
    limit: nat,
    primary: Seq<WordRowView>,
    collins: Seq<WordRowView>,
    etyma: Seq<WordRowView>,
    fuzzy: Seq<WordRowView>,
)
    requires
        distinct_rows(capped(fuzzy, FUZZY_CAP as nat)),
    ensures
        distinct_words(all_candidates(query, limit, primary, collins, etyma, fuzzy)),
{
    let q = lowercase(query);
    let none = Seq::<CandidateView>::empty();
    let first = absorbed(
        none,
        capped(primary, PRIMARY_CAP as nat),
        Source::Primary,
        q,
    );
    let second = absorbed(
        first,
        capped(collins, COLLINS_CAP as nat),
        Source::Collins,
        q,
    );
    let found = prefix_candidates(q, primary, collins, etyma);
    lemma_absorbed_distinct(
        none,
        capped(primary, PRIMARY_CAP as nat),
        Source::Primary,
        q,
    );
    lemma_absorbed_distinct(
        first,
        capped(collins, COLLINS_CAP as nat),
        Source::Collins,
        q,
    );
    lemma_absorbed_distinct(
        second,
        capped(etyma, ETYMA_CAP as nat),
        Source::Etyma,
        q,
    );
    if found.len() < limit {
        let rows = capped(fuzzy, FUZZY_CAP as nat);
        let more = fuzzy_candidates(found, rows, q);
        lemma_fuzzy_distinct(found, rows, q);
        let all = found + more;
        assert forall|i: int, j: int| 0 <= i < j < all.len() implies lowercase(all[i].word)
            != lowercase(all[j].word) by {
            if j < found.len() {
                assert(all[i] == found[i] && all[j] == found[j]);
            } else if i >= found.len() {
                assert(all[i] == more[i - found.len()] && all[j] == more[j - found.len()]);
            } else {
                assert(all[i] == found[i] && all[j] == more[j - found.len()]);
                lemma_seen_is_some_candidate(found, lowercase(more[j - found.len()].word));
            }
        }
    }
}

} // verus!
