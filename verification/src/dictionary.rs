//! The state of the engine: whether the store is connected, and the
//! abstracts that were loaded from it, keyed by lowercase word.
//!
//! Each request begins here. One that needs the store returns the question
//! for it; while the store is not connected, such a request ends at once
//! with nothing.

use vstd::prelude::*;
use vstd::string::*;
use vstd::hash_map::StringHashMap;
use crate::text::{lowercase, to_lowercase, opt_text, texts};
use crate::stem::{word_stems, get_word_stems};
use crate::entry::{
    WordEntry,
    WordEntryView,
    WordAbstract,
    WordAbstractView,
    MdxEntry,
    MdxEntryView,
    opt_abstract,
};
use crate::extract::{primary_brief_of, collins_abstract, extract_brief, extract_collins_abstract};
use crate::link::{
    LinkedTable,
    LinkLookup,
    LinkLookupView,
    LinkStep,
    LinkStepView,
    Rows,
    MAX_LINK_DEPTH,
    lookup_mdx_table,
    first_ask,
    opt_entry,
    resolved,
};
use crate::search::{SearchStep, begin_search};

verus! {

/// The number of suggestions that a search from the input field asks for.
pub const SUGGESTION_LIMIT: usize = 8;

/// The number of characters below which the input field does not search.
pub const MIN_QUERY_LEN: usize = 2;

/// The abstracts in memory, by lowercase word.
pub type Cache = Map<Seq<char>, WordAbstractView>;

/// The state of the engine.
pub struct DictionaryState {
    connected: bool,
    abstracts: StringHashMap<WordAbstract>,
}

/// A `DictionaryState` as the contracts see it: the abstracts by lowercase
/// word, each as its view.
pub struct DictionaryView {
    pub connected: bool,
    pub abstracts: Cache,
}

impl View for DictionaryState {
    type V = DictionaryView;

    closed spec fn view(&self) -> DictionaryView {
        DictionaryView {
            connected: self.connected,
            abstracts: self.abstracts@.map_values(|a: WordAbstract| a@),
        }
    }
}

/// The views of a list of abstracts.
pub open spec fn abstract_views(rows: Seq<WordAbstract>) -> Seq<WordAbstractView> {
    rows.map_values(|a: WordAbstract| a@)
}

/// The cache after the rows have been loaded in order: each under the
/// lowercase form of its word, a later row replacing an earlier one of the
/// same key.
pub open spec fn loaded(cache: Cache, rows: Seq<WordAbstractView>) -> Cache
    decreases rows.len(),
{
    if rows.len() == 0 {
        cache
    } else {
        loaded(cache, rows.drop_last()).insert(lowercase(rows.last().word), rows.last())
    }
}

/// An abstract under another word.
pub open spec fn renamed(found: WordAbstractView, word: Seq<char>) -> WordAbstractView {
    WordAbstractView { word, ..found }
}

/// The abstract of the first stem that the cache holds, under `word`.
pub open spec fn stem_hit(cache: Cache, stems: Seq<Seq<char>>, word: Seq<char>) -> Option<
    WordAbstractView,
>
    decreases stems.len(),
{
    if stems.len() == 0 {
        None
    } else if cache.contains_key(stems[0]) {
        Some(renamed(cache[stems[0]], word))
    } else {
        stem_hit(cache, stems.drop_first(), word)
    }
}

/// What the cache has for a word: the abstract under its lowercase form,
/// else that of the first stem of the lowercase form that it holds, under
/// the word as it was given.
pub open spec fn cached(cache: Cache, word: Seq<char>) -> Option<WordAbstractView> {
    if cache.contains_key(lowercase(word)) {
        Some(cache[lowercase(word)])
    } else {
        stem_hit(cache, word_stems(lowercase(word)), word)
    }
}

/// The first of two optional texts that is there; empty if none is.
pub open spec fn first_text(a: Option<Seq<char>>, b: Option<Seq<char>>) -> Seq<char> {
    match a {
        Some(text) => text,
        None => match b {
            Some(text) => text,
            None => Seq::empty(),
        },
    }
}

/// The abstract made of a primary entry.
pub open spec fn primary_abstract(entry: WordEntryView) -> WordAbstractView {
    WordAbstractView {
        word: entry.word,
        phonetic: first_text(entry.phonetic_us, entry.phonetic_uk),
        main_def: primary_brief_of(entry.content),
        collins_def: Seq::empty(),
        etyma_def: Seq::empty(),
        gpt4_def: first_text(entry.gpt4_content, None),
    }
}

/// The abstract made of the collins-style row that a lookup of `word` ended
/// with: none where there is no row or the row is a redirect.
pub open spec fn collins_fallback(word: Seq<char>, found: Option<MdxEntryView>) -> Option<
    WordAbstractView,
> {
    match found {
        Some(entry) => if entry.is_link {
            None
        } else {
            Some(
                WordAbstractView {
                    word,
                    phonetic: collins_abstract(entry.content).0,
                    main_def: Seq::empty(),
                    collins_def: collins_abstract(entry.content).1,
                    etyma_def: Seq::empty(),
                    gpt4_def: Seq::empty(),
                },
            )
        },
        None => None,
    }
}

/// Where the lookup of an abstract stands.
#[derive(Debug, Clone, PartialEq, Eq)]
pub enum AbstractStep {
    /// The lookup is over.
    Done(Option<WordAbstract>),
    /// The primary entry of the word is wanted.
    AskPrimary,
    /// The collins-style row that this lookup ends with is wanted.
    AskCollins(LinkLookup),
}

/// An `AbstractStep` as the contracts see it.
pub enum AbstractStepView {
    Done(Option<WordAbstractView>),
    AskPrimary,
    AskCollins(LinkLookupView),
}

impl View for AbstractStep {
    type V = AbstractStepView;

    open spec fn view(&self) -> AbstractStepView {
        match *self {
            AbstractStep::Done(Some(found)) => AbstractStepView::Done(Some(found@)),
            AbstractStep::Done(None) => AbstractStepView::Done(None),
            AbstractStep::AskPrimary => AbstractStepView::AskPrimary,
            AbstractStep::AskCollins(ask) => AbstractStepView::AskCollins(ask@),
        }
    }
}

/// The first step of the lookup of an abstract: the cache's answer where it
/// has one; else the question for the primary entry, or nothing while the
/// store is not connected.
pub open spec fn abstract_start(state: DictionaryView, word: Seq<char>) -> AbstractStepView {
    match cached(state.abstracts, word) {
        Some(found) => AbstractStepView::Done(Some(found)),
        None => if state.connected {
            AbstractStepView::AskPrimary
        } else {
            AbstractStepView::Done(None)
        },
    }
}

/// The step after the primary table was asked: the abstract of the entry
/// that was found, else the question for the collins-style row.
pub open spec fn abstract_after_primary(
    word: Seq<char>,
    found: Option<WordEntryView>,
) -> AbstractStepView {
    match found {
        Some(entry) => AbstractStepView::Done(Some(primary_abstract(entry))),
        None => AbstractStepView::AskCollins(
            first_ask(LinkedTable::Collins, word, MAX_LINK_DEPTH as nat),
        ),
    }
}

/// The view of an optional entry.
pub open spec fn opt_word_entry(found: Option<WordEntry>) -> Option<WordEntryView> {
    match found {
        Some(entry) => Some(entry@),
        None => None,
    }
}

/// A copy of an abstract.
fn copy_abstract(found: &WordAbstract) -> (copy: WordAbstract)
    ensures
        copy == *found,
{
    WordAbstract {
        word: found.word.clone(),
        phonetic: found.phonetic.clone(),
        main_def: found.main_def.clone(),
        collins_def: found.collins_def.clone(),
        etyma_def: found.etyma_def.clone(),
        gpt4_def: found.gpt4_def.clone(),
    }
}

/// The text, or an empty one where there is none.
fn text_or_default(text: Option<String>) -> (chars: String)
    ensures
        chars@ == first_text(opt_text(text), None),
{
    match text {
        Some(inner) => inner,
        None => String::new(),
    }
}

impl DictionaryState {
    /// A state without a store and with an empty cache.
    pub fn new() -> (state: DictionaryState)
        ensures
            !state@.connected,
            state@.abstracts == Map::<Seq<char>, WordAbstractView>::empty(),
    {
        let state = DictionaryState { connected: false, abstracts: StringHashMap::new() };
        assert(state@.abstracts =~= Map::<Seq<char>, WordAbstractView>::empty());
        state
    }

    /// Whether the store is connected.
    pub fn is_connected(&self) -> (connected: bool)
        ensures
            connected == self@.connected,
    {
        self.connected
    }

    /// The number of abstracts in memory.
    pub fn abstract_count(&self) -> (count: usize)
        ensures
            count == self@.abstracts.len(),
    {
        proof {
            lemma_map_values_len(self.abstracts@);
        }
        self.abstracts.len()
    }

    /// Loads the rows of the abstracts table into memory, in order.
    fn load_abstracts(&mut self, rows: &Vec<WordAbstract>)
        ensures
            final(self)@.connected == old(self)@.connected,
            final(self)@.abstracts == loaded(old(self)@.abstracts, abstract_views(rows@)),
    {
        let ghost start = self@.abstracts;
        let ghost all = abstract_views(rows@);
        let mut i: usize = 0;
        assert(all.take(0) =~= Seq::<WordAbstractView>::empty());
        while i < rows.len()
            invariant
                i <= rows.len(),
                all == abstract_views(rows@),
                self@.connected == old(self)@.connected,
                self@.abstracts == loaded(start, all.take(i as int)),
            decreases rows.len() - i,
        {
            let key = to_lowercase(rows[i].word.as_str());
            let row = copy_abstract(&rows[i]);
            let ghost before = self.abstracts@;
            self.abstracts.insert(key, row);
            proof {
                assert(all.take(i as int + 1).drop_last() =~= all.take(i as int));
                assert(all.take(i as int + 1).last() == all[i as int]);
                assert(self@.abstracts =~= before.map_values(|a: WordAbstract| a@).insert(
                    key@,
                    row@,
                ));
            }
            i += 1;
        }
        assert(all.take(rows.len() as int) =~= all);
    }

    /// Takes the store into use: loads the rows of its abstracts table and
    /// marks the store as connected.
    pub fn init(&mut self, rows: &Vec<WordAbstract>)
        ensures
            final(self)@.connected,
            final(self)@.abstracts == loaded(old(self)@.abstracts, abstract_views(rows@)),
    {
        self.load_abstracts(rows);
        self.connected = true;
    }

    /// Begins the lookup of the abstract of `word`, with what the cache has.
    pub fn lookup_abstract(&self, word: &str) -> (step: AbstractStep)
        ensures
            step@ == abstract_start(self@, word@),
    {
        let lowered = to_lowercase(word);
        match self.abstracts.get(lowered.as_str()) {
            Some(found) => {
                return AbstractStep::Done(Some(copy_abstract(found)));
            },
            None => {},
        }
        let stems = get_word_stems(lowered.as_str());
        let ghost all = word_stems(lowered@);
        let mut i: usize = 0;
        assert(all.skip(0) =~= all);
        while i < stems.len()
            invariant
                i <= stems.len(),
                all == texts(stems@),
                all == word_stems(lowercase(word@)),
                !self@.abstracts.contains_key(lowercase(word@)),
                stem_hit(self@.abstracts, all, word@) == stem_hit(
                    self@.abstracts,
                    all.skip(i as int),
                    word@,
                ),
            decreases stems.len() - i,
        {
            assert(all.skip(i as int)[0] == stems@[i as int]@);
            match self.abstracts.get(stems[i].as_str()) {
                Some(found) => {
                    let mut hit = copy_abstract(found);
                    hit.word = word.to_owned();
                    return AbstractStep::Done(Some(hit));
                },
                None => {},
            }
            assert(all.skip(i as int).drop_first() =~= all.skip(i as int + 1));
            i += 1;
        }
        assert(all.skip(i as int).len() == 0);
        if self.connected {
            AbstractStep::AskPrimary
        } else {
            AbstractStep::Done(None)
        }
    }

    /// Begins the lookup of the primary entry of `word`.
    pub fn lookup(&self, word: &str) -> (step: EntryStep)
        ensures
            match step {
                EntryStep::AskRow(asked) => self@.connected && asked@ == word@,
                EntryStep::Done(found) => !self@.connected && found is None,
                EntryStep::AskSources(_) => false,
            },
    {
        if self.connected {
            EntryStep::AskRow(word.to_owned())
        } else {
            EntryStep::Done(None)
        }
    }

    /// Begins the lookup of the supplemental content of `word`: the word
    /// to ask the supplemental table for, or nothing while the store is not
    /// connected. What the table has for the word is the result.
    pub fn lookup_gpt4(&self, word: &str) -> (ask: Option<String>)
        ensures
            match ask {
                Some(asked) => self@.connected && asked@ == word@,
                None => !self@.connected,
            },
    {
        if self.connected {
            Some(word.to_owned())
        } else {
            None
        }
    }

    /// Begins a search for `query` with at most `limit` suggestions.
    pub fn search(&self, query: &str, limit: usize) -> (step: SearchStep)
        ensures
            match step {
                SearchStep::AskPrefix(ask) => {
                    &&& self@.connected
                    &&& ask.query@ == lowercase(query@)
                    &&& ask.pattern@ == lowercase(query@) + "%"@
                    &&& ask.length == query@.len()
                    &&& ask.limit == limit
                },
                SearchStep::Done(list) => !self@.connected && list@.len() == 0,
                SearchStep::AskFuzzy(_) => false,
            },
    {
        if self.connected {
            SearchStep::AskPrefix(begin_search(query, limit))
        } else {
            SearchStep::Done(Vec::new())
        }
    }

    /// Begins the lookup of `word` in the collins-style dictionary.
    pub fn lookup_collins(&self, word: &str) -> (step: LinkStep)
        ensures
            step@ == link_start(self@, LinkedTable::Collins, word@),
    {
        self.lookup_linked(LinkedTable::Collins, word)
    }

    /// Begins the lookup of `word` in the etyma-style dictionary.
    pub fn lookup_etyma(&self, word: &str) -> (step: LinkStep)
        ensures
            step@ == link_start(self@, LinkedTable::Etyma, word@),
    {
        self.lookup_linked(LinkedTable::Etyma, word)
    }

    /// Begins the lookup of `word` in a linked-entry dictionary.
    fn lookup_linked(&self, table: LinkedTable, word: &str) -> (step: LinkStep)
        ensures
            step@ == link_start(self@, table, word@),
    {
        if self.connected {
            LinkStep::Ask(lookup_mdx_table(table, word, MAX_LINK_DEPTH))
        } else {
            LinkStep::Done(None)
        }
    }
}

/// Where the lookup of a primary entry stands.
#[derive(Debug, Clone, PartialEq, Eq)]
pub enum EntryStep {
    /// The lookup is over.
    Done(Option<WordEntry>),
    /// The row of this word in the primary table, joined with its
    /// supplemental content, is wanted.
    AskRow(String),
    /// The source tags of the word of this entry are wanted.
    AskSources(WordEntry),
}

/// The first step of a lookup in a linked-entry dictionary: the question
/// for the row of the word, or nothing while the store is not connected.
pub open spec fn link_start(state: DictionaryView, table: LinkedTable, word: Seq<char>) -> LinkStepView {
    if state.connected {
        LinkStepView::Ask(first_ask(table, word, MAX_LINK_DEPTH as nat))
    } else {
        LinkStepView::Done(None)
    }
}

/// Takes the row that the primary table has for the word: with a row the
/// source tags are asked for, without one the lookup ends with nothing.
pub fn entry_from_row(row: Option<WordEntry>) -> (step: EntryStep)
    ensures
        match row {
            Some(entry) => step == EntryStep::AskSources(entry),
            None => step == EntryStep::Done(None),
        },
{
    match row {
        Some(entry) => EntryStep::AskSources(entry),
        None => EntryStep::Done(None),
    }
}

/// Ends the lookup of a primary entry: the entry with its source tags.
pub fn entry_with_sources(entry: WordEntry, sources: Vec<String>) -> (found: WordEntry)
    ensures
        found == (WordEntry { sources, ..entry }),
{
    WordEntry {
        word: entry.word,
        phonetic_us: entry.phonetic_us,
        phonetic_uk: entry.phonetic_uk,
        content: entry.content,
        sources,
        gpt4_content: entry.gpt4_content,
    }
}

/// Takes the primary entry that the store has for `word`, `None` where it
/// has none or could not be asked: an entry ends the lookup with its
/// abstract, else the collins-style dictionary is asked.
pub fn abstract_from_primary(word: &str, found: Option<WordEntry>) -> (step: AbstractStep)
    ensures
        step@ == abstract_after_primary(word@, opt_word_entry(found)),
{
    match found {
        Some(entry) => {
            let phonetic = match entry.phonetic_us {
                Some(us) => us,
                None => text_or_default(entry.phonetic_uk),
            };
            AbstractStep::Done(
                Some(
                    WordAbstract {
                        word: entry.word,
                        phonetic,
                        main_def: extract_brief(entry.content.as_str()),
                        collins_def: String::new(),
                        etyma_def: String::new(),
                        gpt4_def: text_or_default(entry.gpt4_content),
                    },
                ),
            )
        },
        None => AbstractStep::AskCollins(
            lookup_mdx_table(LinkedTable::Collins, word, MAX_LINK_DEPTH),
        ),
    }
}

/// Takes the row that the collins-style lookup of `word` ended with and
/// ends the lookup of the abstract.
pub fn abstract_from_collins(word: &str, found: Option<MdxEntry>) -> (result: Option<WordAbstract>)
    ensures
        opt_abstract(result) == collins_fallback(word@, opt_entry(found)),
{
    match found {
        Some(entry) => {
            if entry.is_link {
                None
            } else {
                let pair = extract_collins_abstract(entry.content.as_str());
                Some(
                    WordAbstract {
                        word: word.to_owned(),
                        phonetic: pair.0,
                        main_def: String::new(),
                        collins_def: pair.1,
                        etyma_def: String::new(),
                        gpt4_def: String::new(),
                    },
                )
            }
        },
        None => None,
    }
}

/// Begins a search from the input field: none for a query of fewer than
/// `MIN_QUERY_LEN` characters, else one for `SUGGESTION_LIMIT` suggestions.
pub fn search_words(state: &DictionaryState, query: &str) -> (step: SearchStep)
    ensures
        match step {
            SearchStep::AskPrefix(ask) => {
                &&& query@.len() >= MIN_QUERY_LEN
                &&& state@.connected
                &&& ask.query@ == lowercase(query@)
                &&& ask.pattern@ == lowercase(query@) + "%"@
                &&& ask.length == query@.len()
                &&& ask.limit == SUGGESTION_LIMIT
            },
            SearchStep::Done(list) => (query@.len() < MIN_QUERY_LEN || !state@.connected)
                && list@.len() == 0,
            SearchStep::AskFuzzy(_) => false,
        },
{
    if query.unicode_len() < MIN_QUERY_LEN {
        SearchStep::Done(Vec::new())
    } else {
        state.search(query, SUGGESTION_LIMIT)
    }
}

/// A primary table that does not change: the entry that it has for each
/// word.
pub type Entries = spec_fn(Seq<char>) -> Option<WordEntryView>;

/// The abstract of `word` for a cache and a store that do not change: each
/// question of the lookup is answered from `entries` and from `collins`.
pub open spec fn abstract_of(
    state: DictionaryView,
    entries: Entries,
    collins: Rows,
    word: Seq<char>,
) -> Option<WordAbstractView> {
    match abstract_start(state, word) {
        AbstractStepView::Done(found) => found,
        AbstractStepView::AskCollins(ask) => None,
        AbstractStepView::AskPrimary => match abstract_after_primary(word, entries(word)) {
            AbstractStepView::Done(found) => found,
            AbstractStepView::AskPrimary => None,
            AbstractStepView::AskCollins(ask) => collins_fallback(word, resolved(collins, ask)),
        },
    }
}

/// The order of the sources of an abstract: the cache, then the primary
/// table, then the collins-style dictionary; nothing from the store while
/// it is not connected.
pub proof fn lemma_abstract_sources(
    state: DictionaryView,
    entries: Entries,
    collins: Rows,
    word: Seq<char>,
)
    ensures
        cached(state.abstracts, word) is Some ==> abstract_of(state, entries, collins, word)
            == cached(state.abstracts, word),
        cached(state.abstracts, word) is None && !state.connected ==> abstract_of(
            state,
            entries,
            collins,
            word,
        ) is None,
        cached(state.abstracts, word) is None && state.connected && entries(word) is Some
            ==> abstract_of(state, entries, collins, word) == Some(
            primary_abstract(entries(word)->0),
        ),
        cached(state.abstracts, word) is None && state.connected && entries(word) is None
            ==> abstract_of(state, entries, collins, word) == collins_fallback(
            word,
            resolved(collins, first_ask(LinkedTable::Collins, word, MAX_LINK_DEPTH as nat)),
        ),
{
}

/// Looking an abstract up again gives the same: while neither the cache
/// nor the store changes, two lookups of one word have equal results.
pub proof fn lemma_lookup_abstract_repeats(
    state: DictionaryView,
    entries: Entries,
    collins: Rows,
    word: Seq<char>,
    first: Option<WordAbstractView>,
    second: Option<WordAbstractView>,
)
    requires
        first == abstract_of(state, entries, collins, word),
        second == abstract_of(state, entries, collins, word),
    ensures
        first == second,
{
}

/// The cache does not tell the case of a word: two words with the same
/// lowercase form find the same abstract, under the word that was asked for
/// where a stem found it.
pub proof fn lemma_cache_ignores_case(cache: Cache, word: Seq<char>, other: Seq<char>)
    requires
        lowercase(word) == lowercase(other),
    ensures
        cached(cache, word) is Some <==> cached(cache, other) is Some,
        cached(cache, word) matches Some(found) ==> cached(cache, other) == Some(
            if cache.contains_key(lowercase(word)) {
                found
            } else {
                renamed(found, other)
            },
        ),
{
    lemma_stem_hit_renamed(cache, word_stems(lowercase(word)), word, other);
}

/// A stem hit does not depend on the word asked for, but for the word that
/// it is returned under.
proof fn lemma_stem_hit_renamed(
    cache: Cache,
    stems: Seq<Seq<char>>,
    word: Seq<char>,
    other: Seq<char>,
)
    ensures
        stem_hit(cache, stems, word) is Some <==> stem_hit(cache, stems, other) is Some,
        stem_hit(cache, stems, word) matches Some(found) ==> stem_hit(cache, stems, other) == Some(
            renamed(found, other),
        ),
    decreases stems.len(),
{
    if stems.len() > 0 && !cache.contains_key(stems[0]) {
        lemma_stem_hit_renamed(cache, stems.drop_first(), word, other);
    }
}

/// Loading keys by lowercase word and the last row wins: the cache holds a
/// row under the lowercase form of its word, unless a later row has the same
/// lowercase form.
pub proof fn lemma_loaded_last_wins(cache: Cache, rows: Seq<WordAbstractView>, i: int)
    requires
        0 <= i < rows.len(),
        forall|j: int| i < j < rows.len() ==> lowercase(rows[j].word) != lowercase(rows[i].word),
    ensures
        loaded(cache, rows).contains_key(lowercase(rows[i].word)),
        loaded(cache, rows)[lowercase(rows[i].word)] == rows[i],
    decreases rows.len(),
{
    if i < rows.len() - 1 {
        let init = rows.drop_last();
        assert(init[i] == rows[i]);
        assert forall|j: int| i < j < init.len() implies lowercase(init[j].word) != lowercase(
            init[i].word,
        ) by {
            assert(init[j] == rows[j]);
        }
        lemma_loaded_last_wins(cache, init, i);
        assert(lowercase(rows[rows.len() - 1].word) != lowercase(rows[i].word));
    }
}

/// The number of entries of a map does not change when the values are
/// mapped.
proof fn lemma_map_values_len(m: Map<Seq<char>, WordAbstract>)
    ensures
        m.map_values(|a: WordAbstract| a@).len() == m.len(),
{
    assert(m.map_values(|a: WordAbstract| a@).dom() =~= m.dom());
}

} // verus!
