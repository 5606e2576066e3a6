//! Content extractors: a short display string, the brief, out of the
//! structured payload of each dictionary. A payload that does not parse, or
//! lacks what is looked for, gives an empty brief.

use vstd::prelude::*;
use vstd::string::*;
use crate::json::{Json, JsonView, opt_json, field, field_of, text_or_empty, elements, parsed_json};

verus! {

/// One part of a brief: the gloss, with the part of speech and a space in
/// front where there is one. Nothing where the gloss is empty.
pub open spec fn gloss(pos: Seq<char>, meaning: Seq<char>) -> Option<Seq<char>> {
    if meaning.len() == 0 {
        None
    } else if pos.len() == 0 {
        Some(meaning)
    } else {
        Some(pos + " "@ + meaning)
    }
}

/// The part that the object `json` gives, its part of speech read under
/// `pos_key` and its gloss under `meaning_key`.
pub open spec fn gloss_in(json: JsonView, pos_key: Seq<char>, meaning_key: Seq<char>) -> Option<
    Seq<char>,
> {
    gloss(text_or_empty(field(json, pos_key)), text_or_empty(field(json, meaning_key)))
}

/// The part that element `i` of `items` gives; nothing past the end.
pub open spec fn item_gloss(
    items: Seq<JsonView>,
    i: int,
    pos_key: Seq<char>,
    meaning_key: Seq<char>,
) -> Option<Seq<char>> {
    if 0 <= i < items.len() {
        gloss_in(items[i], pos_key, meaning_key)
    } else {
        None
    }
}

/// Up to two parts, joined with `"; "`.
pub open spec fn joined(first: Option<Seq<char>>, second: Option<Seq<char>>) -> Seq<char> {
    match (first, second) {
        (Some(a), Some(b)) => a + "; "@ + b,
        (Some(a), None) => a,
        (None, Some(b)) => b,
        (None, None) => Seq::empty(),
    }
}

/// The brief of a list of senses: the parts of its first two elements.
pub open spec fn glosses(items: Option<Seq<JsonView>>, pos_key: Seq<char>, meaning_key: Seq<char>) -> Seq<
    char,
> {
    match items {
        Some(list) => joined(
            item_gloss(list, 0, pos_key, meaning_key),
            item_gloss(list, 1, pos_key, meaning_key),
        ),
        None => Seq::empty(),
    }
}

/// The brief of a primary entry: from the array `content.word.content.trans`,
/// with `pos` and `tranCn` in each element.
pub open spec fn primary_brief(json: JsonView) -> Seq<char> {
    glosses(
        elements(
            field_of(field_of(field_of(field(json, "content"@), "word"@), "content"@), "trans"@),
        ),
        "pos"@,
        "tranCn"@,
    )
}

/// The brief of a collins-style entry: from the array `definitions`, with
/// `pos` and `cn` in each element.
pub open spec fn collins_brief(json: JsonView) -> Seq<char> {
    glosses(elements(field(json, "definitions"@)), "pos"@, "cn"@)
}

/// The phonetic of a collins-style entry: the member `phonetic_uk` where the
/// object has one, else `phonetic_us`; empty unless that member is a string.
pub open spec fn collins_phonetic(json: JsonView) -> Seq<char> {
    text_or_empty(
        match field(json, "phonetic_uk"@) {
            Some(uk) => Some(uk),
            None => field(json, "phonetic_us"@),
        },
    )
}

/// The brief of an etyma-style entry: `pos` and `meaning` of the object
/// itself.
pub open spec fn etyma_brief(json: JsonView) -> Seq<char> {
    match gloss_in(json, "pos"@, "meaning"@) {
        Some(part) => part,
        None => Seq::empty(),
    }
}

/// The brief of a primary entry's payload text; empty where the text does
/// not parse.
pub open spec fn primary_brief_of(content: Seq<char>) -> Seq<char> {
    match parsed_json(content) {
        Some(json) => primary_brief(json),
        None => Seq::empty(),
    }
}

/// The brief of a collins-style payload text; empty where the text does not
/// parse.
pub open spec fn collins_brief_of(content: Seq<char>) -> Seq<char> {
    match parsed_json(content) {
        Some(json) => collins_brief(json),
        None => Seq::empty(),
    }
}

/// The brief of an etyma-style payload text; empty where the text does not
/// parse.
pub open spec fn etyma_brief_of(content: Seq<char>) -> Seq<char> {
    match parsed_json(content) {
        Some(json) => etyma_brief(json),
        None => Seq::empty(),
    }
}

/// Phonetic and brief of a collins-style payload text; both empty where it
/// does not parse.
pub open spec fn collins_abstract(content: Seq<char>) -> (Seq<char>, Seq<char>) {
    match parsed_json(content) {
        Some(json) => (collins_phonetic(json), collins_brief(json)),
        None => (Seq::empty(), Seq::empty()),
    }
}

/// The member `key` of an optional value.
fn get_in<'a>(json: Option<&'a Json>, key: &str) -> (found: Option<&'a Json>)
    ensures
        opt_json(found) == field_of(opt_json(json), key@),
{
    match json {
        Some(outer) => outer.get(key),
        None => None,
    }
}

/// The characters of an optional value that is a string; empty otherwise.
fn text_of<'a>(json: Option<&'a Json>) -> (text: &'a str)
    ensures
        text@ == text_or_empty(opt_json(json)),
{
    proof {
        reveal_strlit("");
    }
    match json {
        Some(inner) => match inner.as_text() {
            Some(text) => text,
            None => "",
        },
        None => "",
    }
}

/// The part that an object gives.
fn part_of(json: &Json, pos_key: &str, meaning_key: &str) -> (part: Option<String>)
    ensures
        match part {
            Some(text) => gloss_in(json@, pos_key@, meaning_key@) == Some(text@),
            None => gloss_in(json@, pos_key@, meaning_key@) is None,
        },
{
    let pos = text_of(json.get(pos_key));
    let meaning = text_of(json.get(meaning_key));
    if meaning.is_empty() {
        None
    } else if pos.is_empty() {
        Some(meaning.to_owned())
    } else {
        let mut text = pos.to_owned();
        text.append(" ");
        text.append(meaning);
        Some(text)
    }
}

/// The brief of an optional value that is a list of senses; empty
/// otherwise.
fn parts_of(array: Option<&Json>, pos_key: &str, meaning_key: &str) -> (brief: String)
    ensures
        brief@ == glosses(elements(opt_json(array)), pos_key@, meaning_key@),
{
    let list = match array {
        Some(node) => match node.as_array() {
            Some(list) => list,
            None => {
                return String::new();
            },
        },
        None => {
            return String::new();
        },
    };
    let first = if list.len() > 0 {
        part_of(&list[0], pos_key, meaning_key)
    } else {
        None
    };
    let second = if list.len() > 1 {
        part_of(&list[1], pos_key, meaning_key)
    } else {
        None
    };
    match (first, second) {
        (Some(a), Some(b)) => {
            let mut brief = a;
            brief.append("; ");
            brief.append(b.as_str());
            brief
        },
        (Some(a), None) => a,
        (None, Some(b)) => b,
        (None, None) => String::new(),
    }
}

/// The brief of the tree of a primary entry's payload.
pub fn brief_from_json(json: &Json) -> (brief: String)
    ensures
        brief@ == primary_brief(json@),
{
    let trans = get_in(get_in(get_in(json.get("content"), "word"), "content"), "trans");
    parts_of(trans, "pos", "tranCn")
}

/// The brief of the tree of a collins-style payload.
pub fn collins_brief_from_json(json: &Json) -> (brief: String)
    ensures
        brief@ == collins_brief(json@),
{
    parts_of(json.get("definitions"), "pos", "cn")
}

/// The phonetic of the tree of a collins-style payload.
pub fn collins_phonetic_from_json(json: &Json) -> (phonetic: String)
    ensures
        phonetic@ == collins_phonetic(json@),
{
    let chosen = match json.get("phonetic_uk") {
        Some(uk) => Some(uk),
        None => json.get("phonetic_us"),
    };
    text_of(chosen).to_owned()
}

/// The brief of the tree of an etyma-style payload.
pub fn etyma_brief_from_json(json: &Json) -> (brief: String)
    ensures
        brief@ == etyma_brief(json@),
{
    match part_of(json, "pos", "meaning") {
        Some(part) => part,
        None => String::new(),
    }
}

/// The brief of a primary entry's payload.
pub fn extract_brief(content: &str) -> (brief: String)
    ensures
        brief@ == primary_brief_of(content@),
{
    match Json::parse(content) {
        Some(json) => brief_from_json(&json),
        None => String::new(),
    }
}

/// The brief of a collins-style payload.
pub fn extract_collins_brief(content: &str) -> (brief: String)
    ensures
        brief@ == collins_brief_of(content@),
{
    match Json::parse(content) {
        Some(json) => collins_brief_from_json(&json),
        None => String::new(),
    }
}

/// Phonetic and brief of a collins-style payload.
pub fn extract_collins_abstract(content: &str) -> (pair: (String, String))
    ensures
        (pair.0@, pair.1@) == collins_abstract(content@),
{
    match Json::parse(content) {
        Some(json) => (collins_phonetic_from_json(&json), collins_brief_from_json(&json)),
        None => (String::new(), String::new()),
    }
}

/// The brief of an etyma-style payload.
pub fn extract_etyma_brief(content: &str) -> (brief: String)
    ensures
        brief@ == etyma_brief_of(content@),
{
    match Json::parse(content) {
        Some(json) => etyma_brief_from_json(&json),
        None => String::new(),
    }
}

} // verus!
