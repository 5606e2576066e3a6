//! Link resolution in the linked-entry dictionaries.
//!
//! A row of such a dictionary may redirect to another word of the same
//! table. A lookup follows redirects for a bounded number of hops and ends
//! with the first row that is no redirect, with the row reached when the
//! bound is spent, or with nothing when a word has no row.

use vstd::prelude::*;
use vstd::string::*;
use crate::entry::{MdxEntry, MdxEntryView};

verus! {

/// The number of redirects that a lookup follows at most.
pub const MAX_LINK_DEPTH: u32 = 5;

/// The linked-entry dictionaries.
#[derive(Debug, Clone, Copy, PartialEq, Eq)]
pub enum LinkedTable {
    Collins,
    Etyma,
}

impl LinkedTable {
    /// The name of the table in the store.
    pub fn table_name(&self) -> (name: &'static str)
        ensures
            name@ == match *self {
                LinkedTable::Collins => "collins_words"@,
                LinkedTable::Etyma => "etyma_words"@,
            },
    {
        match self {
            LinkedTable::Collins => "collins_words",
            LinkedTable::Etyma => "etyma_words",
        }
    }
}

/// The question for the row of `word` in `table`, asked after `depth`
/// redirects of a lookup that follows `max_depth` at most.
#[derive(Debug, Clone, PartialEq, Eq)]
pub struct LinkLookup {
    pub table: LinkedTable,
    pub word: String,
    pub depth: u32,
    pub max_depth: u32,
}

/// A `LinkLookup` as the contracts see it.
pub struct LinkLookupView {
    pub table: LinkedTable,
    pub word: Seq<char>,
    pub depth: nat,
    pub max_depth: nat,
}

impl View for LinkLookup {
    type V = LinkLookupView;

    open spec fn view(&self) -> LinkLookupView {
        LinkLookupView {
            table: self.table,
            word: self.word@,
            depth: self.depth as nat,
            max_depth: self.max_depth as nat,
        }
    }
}

/// Where a lookup stands after a row.
#[derive(Debug, Clone, PartialEq, Eq)]
pub enum LinkStep {
    /// The row of another word is wanted.
    Ask(LinkLookup),
    /// The lookup is over.
    Done(Option<MdxEntry>),
}

/// A `LinkStep` as the contracts see it.
pub enum LinkStepView {
    Ask(LinkLookupView),
    Done(Option<MdxEntryView>),
}

impl View for LinkStep {
    type V = LinkStepView;

    open spec fn view(&self) -> LinkStepView {
        match *self {
            LinkStep::Ask(next) => LinkStepView::Ask(next@),
            LinkStep::Done(Some(entry)) => LinkStepView::Done(Some(entry@)),
            LinkStep::Done(None) => LinkStepView::Done(None),
        }
    }
}

/// The view of an optional row.
pub open spec fn opt_entry(row: Option<MdxEntry>) -> Option<MdxEntryView> {
    match row {
        Some(entry) => Some(entry@),
        None => None,
    }
}

/// Whether a lookup goes on from this row: the row is a redirect, it names
/// its target, and the lookup has hops left.
pub open spec fn follows(lookup: LinkLookupView, entry: MdxEntryView) -> bool {
    entry.is_link && lookup.depth < lookup.max_depth && entry.link_target is Some
}

/// What a lookup does with the row that the store gave for its word.
pub open spec fn after_row(lookup: LinkLookupView, row: Option<MdxEntryView>) -> LinkStepView {
    match row {
        None => LinkStepView::Done(None),
        Some(entry) => if follows(lookup, entry) {
            LinkStepView::Ask(
                LinkLookupView {
                    table: lookup.table,
                    word: entry.link_target->0,
                    depth: lookup.depth + 1,
                    max_depth: lookup.max_depth,
                },
            )
        } else {
            LinkStepView::Done(Some(entry))
        },
    }
}

/// Begins a lookup of `word` in `table` that follows at most `max_depth`
/// redirects.
pub fn lookup_mdx_table(table: LinkedTable, word: &str, max_depth: u32) -> (ask: LinkLookup)
    ensures
        ask@ == (LinkLookupView { table, word: word@, depth: 0, max_depth: max_depth as nat }),
{
    LinkLookup { table, word: word.to_owned(), depth: 0, max_depth }
}

impl LinkLookup {
    /// Takes the row that the store has for `self.word`, `None` where it has
    /// none. A redirect with a target is followed while hops are left; any
    /// other row ends the lookup and is its result.
    pub fn answer(self, row: Option<MdxEntry>) -> (step: LinkStep)
        ensures
            step@ == after_row(self@, opt_entry(row)),
            step matches LinkStep::Done(found) ==> found == row,
    {
        match row {
            None => LinkStep::Done(None),
            Some(entry) => {
                if entry.is_link && self.depth < self.max_depth {
                    match entry.link_target {
                        Some(target) => LinkStep::Ask(
                            LinkLookup {
                                table: self.table,
                                word: target,
                                depth: self.depth + 1,
                                max_depth: self.max_depth,
                            },
                        ),
                        None => LinkStep::Done(
                            Some(
                                MdxEntry {
                                    word: entry.word,
                                    content: entry.content,
                                    is_link: entry.is_link,
                                    link_target: None,
                                },
                            ),
                        ),
                    }
                } else {
                    LinkStep::Done(Some(entry))
                }
            },
        }
    }
}

/// A store that does not change: the row that it has for each word.
pub type Rows = spec_fn(Seq<char>) -> Option<MdxEntryView>;

/// The result of a lookup in an unchanging store: each question is answered
/// from `rows` until a row ends the lookup.
pub open spec fn resolved(rows: Rows, lookup: LinkLookupView) -> Option<MdxEntryView>
    decreases lookup.max_depth - lookup.depth,
{
    match after_row(lookup, rows(lookup.word)) {
        LinkStepView::Done(found) => found,
        LinkStepView::Ask(next) => resolved(rows, next),
    }
}

/// The number of redirects that the lookup follows.
pub open spec fn hops(rows: Rows, lookup: LinkLookupView) -> nat
    decreases lookup.max_depth - lookup.depth,
{
    match after_row(lookup, rows(lookup.word)) {
        LinkStepView::Done(found) => 0,
        LinkStepView::Ask(next) => 1 + hops(rows, next),
    }
}

/// The word that stands `n` redirects after `word`, if the rows lead that
/// far: each row on the way is a redirect that names its target.
pub open spec fn redirected(rows: Rows, word: Seq<char>, n: nat) -> Option<Seq<char>>
    decreases n,
{
    if n == 0 {
        Some(word)
    } else {
        match redirected(rows, word, (n - 1) as nat) {
            Some(before) => match rows(before) {
                Some(entry) => if entry.is_link {
                    entry.link_target
                } else {
                    None
                },
                None => None,
            },
            None => None,
        }
    }
}

/// Every redirect of the store names a word that has a row.
pub open spec fn targets_exist(rows: Rows) -> bool {
    forall|word: Seq<char>|
        (#[trigger] rows(word)) matches Some(entry) ==> (entry.is_link && entry.link_target is Some
            ==> rows(entry.link_target->0) is Some)
}

/// The first question of a lookup of `word`.
pub open spec fn first_ask(table: LinkedTable, word: Seq<char>, max_depth: nat) -> LinkLookupView {
    LinkLookupView { table, word, depth: 0, max_depth }
}

/// A lookup never follows more redirects than it has hops left, whatever
/// the rows hold: rows that redirect in a circle end it at the bound.
pub proof fn lemma_hops_bounded(rows: Rows, lookup: LinkLookupView)
    ensures
        hops(rows, lookup) == 0 || lookup.depth + hops(rows, lookup) <= lookup.max_depth,
    decreases lookup.max_depth - lookup.depth,
{
    match after_row(lookup, rows(lookup.word)) {
        LinkStepView::Done(found) => {},
        LinkStepView::Ask(next) => {
            lemma_hops_bounded(rows, next);
        },
    }
}

/// Following `n + 1` redirects from a word is following `n` from the target
/// of its row.
pub proof fn lemma_redirected_from_target(rows: Rows, word: Seq<char>, n: nat)
    ensures
        redirected(rows, word, n + 1) == match rows(word) {
            Some(entry) => if entry.is_link && entry.link_target is Some {
                redirected(rows, entry.link_target->0, n)
            } else {
                None
            },
            None => None,
        },
    decreases n,
{
    if n > 0 {
        lemma_redirected_from_target(rows, word, (n - 1) as nat);
    } else {
        assert(redirected(rows, word, 0) == Some(word));
    }
}

/// The result of a lookup is what the store has for the word that stands
/// as many redirects after the first word as the lookup followed.
pub proof fn lemma_resolved_on_chain(rows: Rows, lookup: LinkLookupView)
    ensures
        redirected(rows, lookup.word, hops(rows, lookup)) matches Some(last) && resolved(
            rows,
            lookup,
        ) == rows(last),
    decreases lookup.max_depth - lookup.depth,
{
    match after_row(lookup, rows(lookup.word)) {
        LinkStepView::Done(found) => {},
        LinkStepView::Ask(next) => {
            lemma_resolved_on_chain(rows, next);
            lemma_redirected_from_target(rows, lookup.word, hops(rows, next));
        },
    }
}

/// A lookup whose first word has a row ends with a row, if every redirect
/// of the store names a word that has one. This holds of rows that redirect
/// in a circle: the lookup ends with one of them.
pub proof fn lemma_resolved_found(rows: Rows, lookup: LinkLookupView)
    requires
        targets_exist(rows),
        rows(lookup.word) is Some,
    ensures
        resolved(rows, lookup) is Some,
    decreases lookup.max_depth - lookup.depth,
{
    match after_row(lookup, rows(lookup.word)) {
        LinkStepView::Done(found) => {},
        LinkStepView::Ask(next) => {
            lemma_resolved_found(rows, next);
        },
    }
}

/// A lookup whose first word has no row ends with nothing.
pub proof fn lemma_resolved_absent(rows: Rows, lookup: LinkLookupView)
    requires
        rows(lookup.word) is None,
    ensures
        resolved(rows, lookup) is None,
{
}

/// A row that is no redirect, or a redirect without a target, is the result
/// of the lookup of its word.
pub proof fn lemma_resolved_terminal(rows: Rows, lookup: LinkLookupView)
    requires
        rows(lookup.word) matches Some(entry) && (!entry.is_link || entry.link_target is None),
    ensures
        resolved(rows, lookup) == rows(lookup.word),
        hops(rows, lookup) == 0,
{
}

/// A lookup with the bound of `MAX_LINK_DEPTH` follows 5 redirects at most,
/// whatever the rows hold. It ends with what the store has for the word
/// reached; where every redirect names a word that has a row, as in a
/// circle of redirects, and the first word has a row, that is a row.
pub proof fn lemma_lookup_ends(rows: Rows, table: LinkedTable, word: Seq<char>)
    ensures
        ({
            let ask = first_ask(table, word, MAX_LINK_DEPTH as nat);
            &&& hops(rows, ask) <= 5
            &&& redirected(rows, word, hops(rows, ask)) matches Some(last) && resolved(rows, ask)
                == rows(last)
            &&& targets_exist(rows) && rows(word) is Some ==> resolved(rows, ask) is Some
        }),
{
    let ask = first_ask(table, word, MAX_LINK_DEPTH as nat);
    lemma_hops_bounded(rows, ask);
    lemma_resolved_on_chain(rows, ask);
    if targets_exist(rows) && rows(word) is Some {
        lemma_resolved_found(rows, ask);
    }
}

} // verus!
