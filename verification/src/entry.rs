//! The records that the engine hands out, each with its view.

use vstd::prelude::*;
use crate::text::{opt_text, texts};

verus! {

/// A primary entry joined with its supplemental content and source tags.
#[derive(Debug, Clone, PartialEq, Eq)]
pub struct WordEntry {
    pub word: String,
    pub phonetic_us: Option<String>,
    pub phonetic_uk: Option<String>,
    pub content: String,
    pub sources: Vec<String>,
    pub gpt4_content: Option<String>,
}

/// A `WordEntry` as the contracts see it.
pub struct WordEntryView {
    pub word: Seq<char>,
    pub phonetic_us: Option<Seq<char>>,
    pub phonetic_uk: Option<Seq<char>>,
    pub content: Seq<char>,
    pub sources: Seq<Seq<char>>,
    pub gpt4_content: Option<Seq<char>>,
}

impl View for WordEntry {
    type V = WordEntryView;

    open spec fn view(&self) -> WordEntryView {
        WordEntryView {
            word: self.word@,
            phonetic_us: opt_text(self.phonetic_us),
            phonetic_uk: opt_text(self.phonetic_uk),
            content: self.content@,
            sources: texts(self.sources@),
            gpt4_content: opt_text(self.gpt4_content),
        }
    }
}

/// One line of a suggestion list: a word and its brief.
#[derive(Debug, Clone, PartialEq, Eq)]
pub struct WordSuggestion {
    pub word: String,
    pub brief: String,
}

/// A `WordSuggestion` as the contracts see it.
pub struct WordSuggestionView {
    pub word: Seq<char>,
    pub brief: Seq<char>,
}

impl View for WordSuggestion {
    type V = WordSuggestionView;

    open spec fn view(&self) -> WordSuggestionView {
        WordSuggestionView { word: self.word@, brief: self.brief@ }
    }
}

/// A row of a linked-entry dictionary. A row with `is_link` set redirects to
/// the word named by `link_target`, which may be missing.
#[derive(Debug, Clone, PartialEq, Eq)]
pub struct MdxEntry {
    pub word: String,
    pub content: String,
    pub is_link: bool,
    pub link_target: Option<String>,
}

/// An `MdxEntry` as the contracts see it.
pub struct MdxEntryView {
    pub word: Seq<char>,
    pub content: Seq<char>,
    pub is_link: bool,
    pub link_target: Option<Seq<char>>,
}

impl View for MdxEntry {
    type V = MdxEntryView;

    open spec fn view(&self) -> MdxEntryView {
        MdxEntryView {
            word: self.word@,
            content: self.content@,
            is_link: self.is_link,
            link_target: opt_text(self.link_target),
        }
    }
}

/// The short summary of a word: its phonetic and one brief per dictionary.
#[derive(Debug, Clone, PartialEq, Eq)]
pub struct WordAbstract {
    pub word: String,
    pub phonetic: String,
    pub main_def: String,
    pub collins_def: String,
    pub etyma_def: String,
    pub gpt4_def: String,
}

/// A `WordAbstract` as the contracts see it.
pub struct WordAbstractView {
    pub word: Seq<char>,
    pub phonetic: Seq<char>,
    pub main_def: Seq<char>,
    pub collins_def: Seq<char>,
    pub etyma_def: Seq<char>,
    pub gpt4_def: Seq<char>,
}

impl View for WordAbstract {
    type V = WordAbstractView;

    open spec fn view(&self) -> WordAbstractView {
        WordAbstractView {
            word: self.word@,
            phonetic: self.phonetic@,
            main_def: self.main_def@,
            collins_def: self.collins_def@,
            etyma_def: self.etyma_def@,
            gpt4_def: self.gpt4_def@,
        }
    }
}

/// The view of an optional abstract.
pub open spec fn opt_abstract(found: Option<WordAbstract>) -> Option<WordAbstractView> {
    match found {
        Some(inner) => Some(inner@),
        None => None,
    }
}

} // verus!
