//! JSON payloads as a value tree of the library's own.

use vstd::prelude::*;

verus! {

/// A parsed JSON value. Numbers keep no payload: nothing in the engine
/// reads one.
#[derive(Debug, PartialEq, Eq)]
pub enum Json {
    Null,
    Bool(bool),
    Number,
    Text(String),
    Array(Vec<Json>),
    Object(Vec<(String, Json)>),
}

/// A member of an object as the contracts see it.
pub struct MemberView {
    pub name: Seq<char>,
    pub value: JsonView,
}

/// A `Json` as the contracts see it: texts as sequences of characters,
/// arrays and objects as sequences.
pub enum JsonView {
    Null,
    Bool(bool),
    Number,
    Text(Seq<char>),
    Array(Seq<JsonView>),
    Object(Seq<MemberView>),
}

impl View for Json {
    type V = JsonView;

    open spec fn view(&self) -> JsonView
        decreases self,
    {
        match self {
            Json::Null => JsonView::Null,
            Json::Bool(flag) => JsonView::Bool(*flag),
            Json::Number => JsonView::Number,
            Json::Text(text) => JsonView::Text(text@),
            Json::Array(items) => JsonView::Array(
                Seq::new(
                    items@.len(),
                    |i: int|
                        if 0 <= i < items@.len() {
                            items@[i].view()
                        } else {
                            JsonView::Null
                        },
                ),
            ),
            Json::Object(fields) => JsonView::Object(
                Seq::new(
                    fields@.len(),
                    |i: int|
                        if 0 <= i < fields@.len() {
                            MemberView { name: fields@[i].0@, value: fields@[i].1.view() }
                        } else {
                            MemberView { name: Seq::empty(), value: JsonView::Null }
                        },
                ),
            ),
        }
    }
}

/// The view of an optional value.
pub open spec fn opt_json(json: Option<&Json>) -> Option<JsonView> {
    match json {
        Some(inner) => Some(inner@),
        None => None,
    }
}

/// The value stored under `key` among `fields`: that of the first field
/// with this name.
pub open spec fn member(fields: Seq<MemberView>, key: Seq<char>) -> Option<JsonView>
    decreases fields.len(),
{
    if fields.len() == 0 {
        None
    } else if fields[0].name == key {
        Some(fields[0].value)
    } else {
        member(fields.drop_first(), key)
    }
}

/// The member `key` of an object; `None` for a missing key and for
/// anything that is not an object.
pub open spec fn field(json: JsonView, key: Seq<char>) -> Option<JsonView> {
    match json {
        JsonView::Object(fields) => member(fields, key),
        _ => None,
    }
}

/// The member `key` of an optional value.
pub open spec fn field_of(json: Option<JsonView>, key: Seq<char>) -> Option<JsonView> {
    match json {
        Some(inner) => field(inner, key),
        None => None,
    }
}

/// The characters of a JSON string; empty for anything else.
pub open spec fn text_or_empty(json: Option<JsonView>) -> Seq<char> {
    match json {
        Some(JsonView::Text(text)) => text,
        _ => Seq::empty(),
    }
}

/// The elements of a JSON array; `None` for anything else.
pub open spec fn elements(json: Option<JsonView>) -> Option<Seq<JsonView>> {
    match json {
        Some(JsonView::Array(items)) => Some(items),
        _ => None,
    }
}

/// `serde_json::Value`, the parser's own tree. It is carried from the
/// parser to the conversion and is not looked into.
#[verifier::external_type_specification]
#[verifier::external_body]
pub struct ExValue(serde_json::Value);

/// What `serde_json::from_str` makes of a text, as the view of a `Json`
/// tree: `None` where it reports an error.
pub uninterp spec fn parsed_json(text: Seq<char>) -> Option<JsonView>;

/// The content of a `serde_json::Value` as the view of a `Json` tree:
/// variant for variant, an object's members in the order in which its map
/// yields them, a number without its payload.
pub uninterp spec fn value_tree(value: serde_json::Value) -> JsonView;

/// Calls `serde_json::from_str` for a `serde_json::Value` and drops the
/// error. The outcome depends on the text alone; the contract ties it to the
/// name `parsed_json` through the content of the value.
#[verifier::external_body]
fn parse_value(text: &str) -> (value: Option<serde_json::Value>)
    ensures
        match value {
            Some(v) => parsed_json(text@) == Some(value_tree(v)),
            None => parsed_json(text@) is None,
        },
{
    serde_json::from_str::<serde_json::Value>(text).ok()
}

/// Moves the content of a `serde_json::Value` into a `Json` tree, one
/// variant for one variant. A number's payload is dropped.
#[verifier::external_body]
fn tree_of_value(value: serde_json::Value) -> (tree: Json)
    ensures
        tree@ == value_tree(value),
{
    match value {
        serde_json::Value::Null => Json::Null,
        serde_json::Value::Bool(flag) => Json::Bool(flag),
        serde_json::Value::Number(_) => Json::Number,
        serde_json::Value::String(text) => Json::Text(text),
        serde_json::Value::Array(items) => Json::Array(
            items.into_iter().map(tree_of_value).collect(),
        ),
        serde_json::Value::Object(fields) => Json::Object(
            fields.into_iter().map(|(name, inner)| (name, tree_of_value(inner))).collect(),
        ),
    }
}

impl Json {
    /// Parses a JSON text. `None` where the text is not valid JSON.
    pub fn parse(text: &str) -> (parsed: Option<Json>)
        ensures
            match parsed {
                Some(json) => parsed_json(text@) == Some(json@),
                None => parsed_json(text@) is None,
            },
    {
        match parse_value(text) {
            Some(value) => Some(tree_of_value(value)),
            None => None,
        }
    }

    /// The member `key` of an object.
    pub fn get(&self, key: &str) -> (found: Option<&Json>)
        ensures
            opt_json(found) == field(self@, key@),
    {
        match self {
            Json::Object(fields) => {
                let wanted: String = key.to_owned();
                let ghost all = self@->Object_0;
                let mut i: usize = 0;
                assert(all.skip(0) =~= all);
                while i < fields.len()
                    invariant
                        i <= fields.len(),
                        wanted@ == key@,
                        *self == Json::Object(*fields),
                        self@ == JsonView::Object(all),
                        all.len() == fields@.len(),
                        forall|k: int|
                            0 <= k < fields@.len() ==> all[k] == (MemberView {
                                name: (#[trigger] fields@[k]).0@,
                                value: fields@[k].1@,
                            }),
                        member(all, key@) == member(all.skip(i as int), key@),
                    decreases fields.len() - i,
                {
                    assert(all.skip(i as int)[0] == all[i as int]);
                    if fields[i].0 == wanted {
                        return Some(&fields[i].1);
                    }
                    assert(all.skip(i as int).drop_first() =~= all.skip(i + 1));
                    i += 1;
                }
                assert(all.skip(i as int).len() == 0);
                None
            },
            _ => None,
        }
    }

    /// The characters of a JSON string.
    pub fn as_text(&self) -> (text: Option<&str>)
        ensures
            match text {
                Some(chars) => self@ == JsonView::Text(chars@),
                None => !(self@ is Text),
            },
    {
        match self {
            Json::Text(inner) => Some(inner.as_str()),
            _ => None,
        }
    }

    /// The elements of a JSON array.
    pub fn as_array(&self) -> (items: Option<&Vec<Json>>)
        ensures
            match items {
                Some(list) => self@ matches JsonView::Array(views) && views.len() == list@.len()
                    && forall|i: int| 0 <= i < list@.len() ==> views[i] == #[trigger] list@[i]@,
                None => !(self@ is Array),
            },
    {
        match self {
            Json::Array(inner) => Some(inner),
            _ => None,
        }
    }
}

} // verus!
