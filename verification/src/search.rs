//! Word search over several dictionaries.
//!
//! A search asks the store twice at most. First for the words that begin
//! with the query, in the primary, the collins-style and the etyma-style
//! table. If these leave room under the limit, a second time for words of
//! about the query's length that do not begin with it, of which those within
//! edit distance 2 are kept. The candidates are then ranked, cut at the limit
//! and given their briefs.

use vstd::prelude::*;
use vstd::string::*;
use vstd::hash_set::StringHashSet;
use crate::text::{lowercase, to_lowercase};
use crate::distance::{edit_distance, levenshtein};
use crate::extract::{
    primary_brief_of,
    collins_brief_of,
    etyma_brief_of,
    extract_brief,
    extract_collins_brief,
    extract_etyma_brief,
};
use crate::entry::{WordSuggestion, WordSuggestionView};
use crate::rank::{Source, Candidate, CandidateView, candidate_views, ranked, rank};

verus! {

/// How many rows of the primary table a prefix search reads.
pub const PRIMARY_CAP: usize = 30;

/// How many rows of the collins-style table a prefix search reads.
pub const COLLINS_CAP: usize = 20;

/// How many rows of the etyma-style table a prefix search reads.
pub const ETYMA_CAP: usize = 10;

/// How many rows the supplementary query scans.
pub const FUZZY_CAP: usize = 50;

/// The greatest edit distance at which a word that does not begin with the
/// query is still offered.
pub const FUZZY_DISTANCE: usize = 2;

/// A row that a search query returns: a word and its payload.
#[derive(Debug, Clone, PartialEq, Eq)]
pub struct WordRow {
    pub word: String,
    pub content: String,
}

/// A `WordRow` as the contracts see it.
pub struct WordRowView {
    pub word: Seq<char>,
    pub content: Seq<char>,
}

impl View for WordRow {
    type V = WordRowView;

    open spec fn view(&self) -> WordRowView {
        WordRowView { word: self.word@, content: self.content@ }
    }
}

/// The views of a list of rows.
pub open spec fn row_views(rows: Seq<WordRow>) -> Seq<WordRowView> {
    rows.map_values(|r: WordRow| r@)
}

/// The views of a list of suggestions.
pub open spec fn suggestion_views(list: Seq<WordSuggestion>) -> Seq<WordSuggestionView> {
    list.map_values(|s: WordSuggestion| s@)
}

/// The first `cap` elements of a list; the whole list if it has no more.
pub open spec fn capped<T>(list: Seq<T>, cap: nat) -> Seq<T> {
    if list.len() <= cap {
        list
    } else {
        list.take(cap as int)
    }
}

/// Whether one of the candidates has the lowercase form `lowered`.
pub open spec fn seen(found: Seq<CandidateView>, lowered: Seq<char>) -> bool
    decreases found.len(),
{
    found.len() > 0 && (lowercase(found.last().word) == lowered || seen(
        found.drop_last(),
        lowered,
    ))
}

/// The candidate that a row makes for the lowercase query `query`.
pub open spec fn candidate(
    row: WordRowView,
    source: Source,
    query: Seq<char>,
    is_prefix: bool,
) -> CandidateView {
    CandidateView {
        word: row.word,
        content: row.content,
        source,
        is_prefix,
        distance: edit_distance(query, lowercase(row.word)),
    }
}

/// The candidates after the rows of one table have been taken in, in order:
/// a row whose lowercase word has been seen is passed over, every other row
/// becomes a prefix candidate.
pub open spec fn absorbed(
    found: Seq<CandidateView>,
    rows: Seq<WordRowView>,
    source: Source,
    query: Seq<char>,
) -> Seq<CandidateView>
    decreases rows.len(),
{
    if rows.len() == 0 {
        found
    } else {
        let before = absorbed(found, rows.drop_last(), source, query);
        if seen(before, lowercase(rows.last().word)) {
            before
        } else {
            before.push(candidate(rows.last(), source, query, true))
        }
    }
}

/// The prefix candidates: the capped rows of the primary table first, then
/// those of the collins-style and of the etyma-style table, each lowercase
/// word once.
pub open spec fn prefix_candidates(
    query: Seq<char>,
    primary: Seq<WordRowView>,
    collins: Seq<WordRowView>,
    etyma: Seq<WordRowView>,
) -> Seq<CandidateView> {
    absorbed(
        absorbed(
            absorbed(Seq::empty(), capped(primary, PRIMARY_CAP as nat), Source::Primary, query),
            capped(collins, COLLINS_CAP as nat),
            Source::Collins,
            query,
        ),
        capped(etyma, ETYMA_CAP as nat),
        Source::Etyma,
        query,
    )
}

/// Whether a row of the supplementary query is offered: its lowercase word
/// is not among the prefix candidates and lies within the fuzzy distance of
/// the query.
pub open spec fn is_fuzzy_match(found: Seq<CandidateView>, row: WordRowView, query: Seq<char>) -> bool {
    !seen(found, lowercase(row.word)) && edit_distance(query, lowercase(row.word))
        <= FUZZY_DISTANCE
}

/// The candidates that the rows of the supplementary query add to `found`,
/// in the order of the rows.
pub open spec fn fuzzy_candidates(
    found: Seq<CandidateView>,
    rows: Seq<WordRowView>,
    query: Seq<char>,
) -> Seq<CandidateView>
    decreases rows.len(),
{
    if rows.len() == 0 {
        Seq::empty()
    } else {
        let before = fuzzy_candidates(found, rows.drop_last(), query);
        if is_fuzzy_match(found, rows.last(), query) {
            before.push(candidate(rows.last(), Source::Primary, query, false))
        } else {
            before
        }
    }
}

/// The brief of a payload of the given table.
pub open spec fn brief_of(source: Source, content: Seq<char>) -> Seq<char> {
    match source {
        Source::Primary => primary_brief_of(content),
        Source::Collins => collins_brief_of(content),
        Source::Etyma => etyma_brief_of(content),
    }
}

/// The suggestion that a candidate becomes.
pub open spec fn suggestion(c: CandidateView) -> WordSuggestionView {
    WordSuggestionView { word: c.word, brief: brief_of(c.source, c.content) }
}

/// The suggestions for a list of candidates: ranked, cut at the limit, each
/// with its brief.
pub open spec fn suggestions(found: Seq<CandidateView>, limit: nat) -> Seq<WordSuggestionView> {
    capped(ranked(found), limit).map_values(|c: CandidateView| suggestion(c))
}

/// The least word length that the supplementary query admits.
pub open spec fn fuzzy_min_len(length: nat) -> nat {
    if length == 0 {
        0
    } else {
        (length - 1) as nat
    }
}

/// The greatest word length that the supplementary query admits.
pub open spec fn fuzzy_max_len(length: nat) -> nat {
    if length + 2 <= usize::MAX {
        length + 2
    } else {
        usize::MAX as nat
    }
}

/// All candidates of a search: the prefix candidates and, where they are
/// fewer than the limit, what the supplementary rows add.
pub open spec fn all_candidates(
    query: Seq<char>,
    limit: nat,
    primary: Seq<WordRowView>,
    collins: Seq<WordRowView>,
    etyma: Seq<WordRowView>,
    fuzzy: Seq<WordRowView>,
) -> Seq<CandidateView> {
    let found = prefix_candidates(lowercase(query), primary, collins, etyma);
    if found.len() < limit {
        found + fuzzy_candidates(found, capped(fuzzy, FUZZY_CAP as nat), lowercase(query))
    } else {
        found
    }
}

/// The candidates that a search keeps, in ranked order.
pub open spec fn kept_candidates(
    query: Seq<char>,
    limit: nat,
    primary: Seq<WordRowView>,
    collins: Seq<WordRowView>,
    etyma: Seq<WordRowView>,
    fuzzy: Seq<WordRowView>,
) -> Seq<CandidateView> {
    capped(ranked(all_candidates(query, limit, primary, collins, etyma, fuzzy)), limit)
}

/// What a search returns for the rows that the store gave. `fuzzy` is read
/// only where the prefix candidates are fewer than the limit.
pub open spec fn search_result(
    query: Seq<char>,
    limit: nat,
    primary: Seq<WordRowView>,
    collins: Seq<WordRowView>,
    etyma: Seq<WordRowView>,
    fuzzy: Seq<WordRowView>,
) -> Seq<WordSuggestionView> {
    suggestions(all_candidates(query, limit, primary, collins, etyma, fuzzy), limit)
}

/// The question for the rows that begin with the query.
///
/// It is answered with the rows of three queries, each for the words whose
/// lowercase form matches `pattern`, shortest word first: the primary table,
/// then the collins-style and the etyma-style table without their link rows.
#[derive(Debug, Clone, PartialEq, Eq)]
pub struct PrefixQuery {
    /// The query in lowercase.
    pub query: String,
    /// The lowercase query followed by `%`.
    pub pattern: String,
    /// The number of characters of the query as it was typed.
    pub length: usize,
    /// The greatest number of suggestions wanted.
    pub limit: usize,
}

/// The question for the supplementary rows.
///
/// It is answered with rows of the primary table whose lowercase form does
/// not match `pattern` and whose length lies between `min_len` and `max_len`.
#[derive(Debug, Clone, PartialEq, Eq)]
pub struct FuzzyQuery {
    /// The query in lowercase.
    pub query: String,
    /// The lowercase query followed by `%`.
    pub pattern: String,
    /// The least word length asked for.
    pub min_len: usize,
    /// The greatest word length asked for.
    pub max_len: usize,
    /// The greatest number of suggestions wanted.
    pub limit: usize,
    /// The prefix candidates found so far.
    pub found: Vec<Candidate>,
}

/// Where a search stands.
#[derive(Debug, Clone, PartialEq, Eq)]
pub enum SearchStep {
    /// The rows that begin with the query are wanted.
    AskPrefix(PrefixQuery),
    /// The supplementary rows are wanted.
    AskFuzzy(FuzzyQuery),
    /// The search is over.
    Done(Vec<WordSuggestion>),
}

/// Begins a search for `query` with at most `limit` suggestions.
pub fn begin_search(query: &str, limit: usize) -> (ask: PrefixQuery)
    ensures
        ask.query@ == lowercase(query@),
        ask.pattern@ == lowercase(query@) + "%"@,
        ask.length == query@.len(),
        ask.limit == limit,
{
    let lowered = to_lowercase(query);
    let mut pattern = lowered.clone();
    pattern.append("%");
    PrefixQuery { query: lowered, pattern, length: query.unicode_len(), limit }
}

/// Takes the rows of one table into `found`. `words` holds the lowercase
/// forms of the candidates before and after.
fn absorb(
    found: &mut Vec<Candidate>,
    words: &mut StringHashSet,
    rows: &Vec<WordRow>,
    cap: usize,
    source: Source,
    query: &str,
)
    requires
        forall|w: Seq<char>| old(words)@.contains(w) <==> seen(candidate_views(old(found)@), w),
    ensures
        candidate_views(final(found)@) == absorbed(
            candidate_views(old(found)@),
            capped(row_views(rows@), cap as nat),
            source,
            query@,
        ),
        forall|w: Seq<char>| final(words)@.contains(w) <==> seen(candidate_views(final(found)@), w),
{
    let n: usize = if rows.len() <= cap {
        rows.len()
    } else {
        cap
    };
    let ghost taken = capped(row_views(rows@), cap as nat);
    let ghost start = candidate_views(found@);
    let mut i: usize = 0;
    assert(taken.take(0) =~= Seq::<WordRowView>::empty());
    while i < n
        invariant
            i <= n,
            n == taken.len(),
            n <= rows.len(),
            forall|k: int| 0 <= k < n ==> taken[k] == rows@[k]@,
            candidate_views(found@) == absorbed(start, taken.take(i as int), source, query@),
            forall|w: Seq<char>| words@.contains(w) <==> seen(candidate_views(found@), w),
        decreases n - i,
    {
        let row = &rows[i];
        let lowered = to_lowercase(row.word.as_str());
        proof {
            assert(taken.take(i as int + 1).drop_last() =~= taken.take(i as int));
            assert(taken.take(i as int + 1).last() == taken[i as int]);
        }
        if !words.contains(lowered.as_str()) {
            let distance = levenshtein(query, lowered.as_str());
            let ghost before = candidate_views(found@);
            found.push(
                Candidate {
                    word: row.word.clone(),
                    content: row.content.clone(),
                    source,
                    is_prefix: true,
                    distance,
                },
            );
            words.insert(lowered);
            proof {
                assert(candidate_views(found@) =~= before.push(
                    candidate(taken[i as int], source, query@, true),
                ));
                assert(candidate_views(found@).drop_last() =~= before);
            }
        }
        i += 1;
    }
    assert(taken.take(n as int) =~= taken);
}

/// The set of the lowercase forms of the candidates.
fn lowered_words(found: &Vec<Candidate>) -> (words: StringHashSet)
    ensures
        forall|w: Seq<char>| words@.contains(w) <==> seen(candidate_views(found@), w),
{
    let mut words = StringHashSet::new();
    let ghost all = candidate_views(found@);
    let mut i: usize = 0;
    while i < found.len()
        invariant
            i <= found.len(),
            all == candidate_views(found@),
            forall|w: Seq<char>| words@.contains(w) <==> seen(all.take(i as int), w),
        decreases found.len() - i,
    {
        let lowered = to_lowercase(found[i].word.as_str());
        words.insert(lowered);
        proof {
            assert(all.take(i as int + 1).drop_last() =~= all.take(i as int));
            assert(all.take(i as int + 1).last() == all[i as int]);
        }
        i += 1;
    }
    assert(all.take(found.len() as int) =~= all);
    words
}

/// The brief of a payload of the given table.
pub fn brief_for(source: Source, content: &str) -> (brief: String)
    ensures
        brief@ == brief_of(source, content@),
{
    match source {
        Source::Primary => extract_brief(content),
        Source::Collins => extract_collins_brief(content),
        Source::Etyma => extract_etyma_brief(content),
    }
}

/// Ranks the candidates, cuts the list at `limit` and gives each survivor
/// its brief.
pub fn suggest(found: Vec<Candidate>, limit: usize) -> (list: Vec<WordSuggestion>)
    ensures
        suggestion_views(list@) == suggestions(candidate_views(found@), limit as nat),
{
    let mut found = found;
    let ghost start = candidate_views(found@);
    rank(&mut found);
    let n: usize = if found.len() <= limit {
        found.len()
    } else {
        limit
    };
    let ghost kept = capped(ranked(start), limit as nat);
    let mut list: Vec<WordSuggestion> = Vec::new();
    let mut i: usize = 0;
    while i < n
        invariant
            i <= n,
            n == kept.len(),
            n <= found.len(),
            forall|k: int| 0 <= k < n ==> kept[k] == found@[k]@,
            list.len() == i,
            forall|k: int| 0 <= k < i ==> list@[k]@ == suggestion(kept[k]),
        decreases n - i,
    {
        let c = &found[i];
        let brief = brief_for(c.source, c.content.as_str());
        list.push(WordSuggestion { word: c.word.clone(), brief });
        i += 1;
    }
    assert(suggestion_views(list@) =~= kept.map_values(|c: CandidateView| suggestion(c)));
    list
}

impl PrefixQuery {
    /// Takes the rows that begin with the query: `primary`, `collins` and
    /// `etyma` from the tables of these names. Where the candidates among
    /// them are fewer than the limit, the supplementary rows are asked for;
    /// else the search ends with their suggestions.
    pub fn answer(
        self,
        primary: &Vec<WordRow>,
        collins: &Vec<WordRow>,
        etyma: &Vec<WordRow>,
    ) -> (step: SearchStep)
        ensures
            ({
                let found = prefix_candidates(
                    self.query@,
                    row_views(primary@),
                    row_views(collins@),
                    row_views(etyma@),
                );
                if found.len() < self.limit {
                    &&& step matches SearchStep::AskFuzzy(ask)
                    &&& ask.query == self.query
                    &&& ask.pattern == self.pattern
                    &&& ask.min_len == fuzzy_min_len(self.length as nat)
                    &&& ask.max_len == fuzzy_max_len(self.length as nat)
                    &&& ask.limit == self.limit
                    &&& candidate_views(ask.found@) == found
                } else {
                    &&& step matches SearchStep::Done(list)
                    &&& suggestion_views(list@) == suggestions(found, self.limit as nat)
                }
            }),
    {
        let mut found: Vec<Candidate> = Vec::new();
        let mut words = StringHashSet::new();
        assert(candidate_views(found@) =~= Seq::<CandidateView>::empty());
        absorb(&mut found, &mut words, primary, PRIMARY_CAP, Source::Primary, self.query.as_str());
        absorb(&mut found, &mut words, collins, COLLINS_CAP, Source::Collins, self.query.as_str());
        absorb(&mut found, &mut words, etyma, ETYMA_CAP, Source::Etyma, self.query.as_str());
        if found.len() < self.limit {
            let min_len: usize = if self.length == 0 {
                0
            } else {
                self.length - 1
            };
            let max_len: usize = if self.length <= usize::MAX - 2 {
                self.length + 2
            } else {
                usize::MAX
            };
            SearchStep::AskFuzzy(
                FuzzyQuery {
                    query: self.query,
                    pattern: self.pattern,
                    min_len,
                    max_len,
                    limit: self.limit,
                    found,
                },
            )
        } else {
            SearchStep::Done(suggest(found, self.limit))
        }
    }
}

impl FuzzyQuery {
    /// Takes the supplementary rows and ends the search: the rows within
    /// the fuzzy distance join the prefix candidates, and the suggestions
    /// are made of all of them.
    pub fn answer(self, rows: &Vec<WordRow>) -> (list: Vec<WordSuggestion>)
        ensures
            suggestion_views(list@) == suggestions(
                candidate_views(self.found@) + fuzzy_candidates(
                    candidate_views(self.found@),
                    capped(row_views(rows@), FUZZY_CAP as nat),
                    self.query@,
                ),
                self.limit as nat,
            ),
    {
        let words = lowered_words(&self.found);
        let mut found = self.found;
        let n: usize = if rows.len() <= FUZZY_CAP {
            rows.len()
        } else {
            FUZZY_CAP
        };
        let ghost start = candidate_views(found@);
        let ghost taken = capped(row_views(rows@), FUZZY_CAP as nat);
        let mut i: usize = 0;
        assert(taken.take(0) =~= Seq::<WordRowView>::empty());
        assert(candidate_views(found@) =~= start + Seq::<CandidateView>::empty());
        while i < n
            invariant
                i <= n,
                n == taken.len(),
                n <= rows.len(),
                forall|k: int| 0 <= k < n ==> taken[k] == rows@[k]@,
                forall|w: Seq<char>| words@.contains(w) <==> seen(start, w),
                candidate_views(found@) == start + fuzzy_candidates(
                    start,
                    taken.take(i as int),
                    self.query@,
                ),
            decreases n - i,
        {
            let row = &rows[i];
            let lowered = to_lowercase(row.word.as_str());
            proof {
                assert(taken.take(i as int + 1).drop_last() =~= taken.take(i as int));
                assert(taken.take(i as int + 1).last() == taken[i as int]);
            }
            if !words.contains(lowered.as_str()) {
                let distance = levenshtein(self.query.as_str(), lowered.as_str());
                if distance <= FUZZY_DISTANCE {
                    let ghost before = candidate_views(found@);
                    found.push(
                        Candidate {
                            word: row.word.clone(),
                            content: row.content.clone(),
                            source: Source::Primary,
                            is_prefix: false,
                            distance,
                        },
                    );
                    proof {
                        let more = fuzzy_candidates(start, taken.take(i as int), self.query@);
                        let c = candidate(taken[i as int], Source::Primary, self.query@, false);
                        assert(candidate_views(found@) =~= before.push(c));
                        assert(before.push(c) =~= start + more.push(c));
                    }
                }
            }
            i += 1;
        }
        assert(taken.take(n as int) =~= taken);
        suggest(found, self.limit)
    }
}

/// Searches rows that were read beforehand: `primary`, `collins` and
/// `etyma` hold the rows that begin with the query, `fuzzy` the
/// supplementary rows, which are read only where the others leave room
/// under the limit.
pub fn search_rows(
    query: &str,
    limit: usize,
    primary: &Vec<WordRow>,
    collins: &Vec<WordRow>,
    etyma: &Vec<WordRow>,
    fuzzy: &Vec<WordRow>,
) -> (list: Vec<WordSuggestion>)
    ensures
        suggestion_views(list@) == search_result(
            query@,
            limit as nat,
            row_views(primary@),
            row_views(collins@),
            row_views(etyma@),
            row_views(fuzzy@),
        ),
{
    match begin_search(query, limit).answer(primary, collins, etyma) {
        SearchStep::AskFuzzy(ask) => ask.answer(fuzzy),
        SearchStep::Done(list) => list,
        SearchStep::AskPrefix(_) => Vec::new(),
    }
}

} // verus!
