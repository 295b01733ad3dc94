//! JSON documents as the launcher reads and rewrites them.
use vstd::prelude::*;

use crate::external::{json_quote, json_quoted};
use crate::pairs::{distinct_keys, get, law_lookup_entry, lookup};
use crate::text::{concat3, join, join_text};

verus! {

/// A JSON number: its text, and its value when that is an integer from 0 to `u64::MAX`.
#[derive(Debug)]
pub struct JsonNumber {
    pub text: String,
    pub unsigned: Option<u64>,
}

/// A JSON document. The members of an object stand in the order in which they are read.
#[derive(Debug)]
pub enum Json {
    Null,
    Bool(bool),
    Number(JsonNumber),
    Text(String),
    Array(Vec<Json>),
    Object(Vec<(String, Json)>),
}

/// What a JSON document holds, as mathematical values.
pub enum JsonModel {
    Null,
    Bool(bool),
    Number { text: Seq<char>, unsigned: Option<u64> },
    Text(Seq<char>),
    Array(Seq<JsonModel>),
    Object(Seq<(Seq<char>, JsonModel)>),
}

/// What a JSON document holds.
pub open spec fn json_model(json: Json) -> JsonModel
    decreases json,
{
    match json {
        Json::Null => JsonModel::Null,
        Json::Bool(b) => JsonModel::Bool(b),
        Json::Number(n) => JsonModel::Number { text: n.text@, unsigned: n.unsigned },
        Json::Text(t) => JsonModel::Text(t@),
        Json::Array(items) => JsonModel::Array(
            Seq::new(
                items@.len(),
                |i: int|
                    if 0 <= i < items@.len() {
                        json_model(items@[i])
                    } else {
                        JsonModel::Null
                    },
            ),
        ),
        Json::Object(members) => JsonModel::Object(
            Seq::new(
                members@.len(),
                |i: int|
                    if 0 <= i < members@.len() {
                        (members@[i].0@, json_model(members@[i].1))
                    } else {
                        (Seq::empty(), JsonModel::Null)
                    },
            ),
        ),
    }
}

impl DeepView for Json {
    type V = JsonModel;

    open spec fn deep_view(&self) -> JsonModel {
        json_model(*self)
    }
}

/// The model of an array lists the models of its items.
pub broadcast proof fn lemma_array_model(items: Vec<Json>)
    ensures
        #[trigger] json_model(Json::Array(items)) == JsonModel::Array(items.deep_view()),
{
    assert(json_model(Json::Array(items))->Array_0 =~= items.deep_view());
}

/// The model of an object lists the models of its members.
pub broadcast proof fn lemma_object_model(members: Vec<(String, Json)>)
    ensures
        #[trigger] json_model(Json::Object(members)) == JsonModel::Object(members.deep_view()),
{
    assert(json_model(Json::Object(members))->Object_0 =~= members.deep_view());
}

/// Whether the members of every object in a document have distinct names.
pub open spec fn well_formed(json: JsonModel) -> bool
    decreases json,
{
    match json {
        JsonModel::Array(items) => forall|i: int|
            0 <= i < items.len() ==> well_formed(#[trigger] items[i]),
        JsonModel::Object(members) => distinct_keys(members) && forall|i: int|
            0 <= i < members.len() ==> well_formed((#[trigger] members[i]).1),
        _ => true,
    }
}

/// The items of a well-formed document are well-formed.
pub proof fn lemma_item_well_formed(items: Seq<JsonModel>, i: int)
    requires
        well_formed(JsonModel::Array(items)),
        0 <= i < items.len(),
    ensures
        well_formed(items[i]),
{
    let json = JsonModel::Array(items);
    assert(json->Array_0[i] == items[i]);
}

/// The member of a well-formed document is well-formed.
pub proof fn lemma_member_well_formed(members: Seq<(Seq<char>, JsonModel)>, key: Seq<char>)
    requires
        well_formed(JsonModel::Object(members)),
    ensures
        lookup(members, key) matches Some(value) ==> well_formed(value),
    decreases members.len(),
{
    if members.len() > 0 {
        let rest = members.skip(1);
        assert(well_formed(members[0].1));
        assert forall|i: int| 0 <= i < rest.len() implies well_formed((#[trigger] rest[i]).1) by {
            assert(rest[i] == members[i + 1]);
            assert(well_formed(members[i + 1].1));
        }
        assert(distinct_keys(rest)) by {
            assert forall|i: int, j: int| 0 <= i < j < rest.len() implies (#[trigger] rest[i]).0
                != (#[trigger] rest[j]).0 by {
                assert(rest[i] == members[i + 1] && rest[j] == members[j + 1]);
            }
        }
        lemma_member_well_formed(rest, key);
    }
}

/// A document whose members are well-formed and have distinct names is well-formed.
pub proof fn lemma_members_well_formed(members: Seq<(Seq<char>, JsonModel)>)
    requires
        distinct_keys(members),
        forall|key: Seq<char>|
            (#[trigger] lookup(members, key)) matches Some(value) ==> well_formed(value),
    ensures
        well_formed(JsonModel::Object(members)),
{
    assert forall|i: int| 0 <= i < members.len() implies well_formed((#[trigger] members[i]).1) by {
        law_lookup_entry(members, i);
        assert(lookup(members, members[i].0) == Some(members[i].1));
    }
}

// ---------------------------------------------------------------------------
// Reading
// ---------------------------------------------------------------------------

/// The member `key` of a document, when it is an object that has one.
pub open spec fn member(json: JsonModel, key: Seq<char>) -> Option<JsonModel> {
    match json {
        JsonModel::Object(members) => lookup(members, key),
        _ => None,
    }
}

/// The text of a document, when it is a string.
pub open spec fn text_in(json: Option<JsonModel>) -> Option<Seq<char>> {
    match json {
        Some(JsonModel::Text(text)) => Some(text),
        _ => None,
    }
}

/// The items of a document, when it is an array; else none.
pub open spec fn items_in(json: Option<JsonModel>) -> Seq<JsonModel> {
    match json {
        Some(JsonModel::Array(items)) => items,
        _ => Seq::empty(),
    }
}

/// The members of a document, when it is an object; else none.
pub open spec fn members_in(json: Option<JsonModel>) -> Seq<(Seq<char>, JsonModel)> {
    match json {
        Some(JsonModel::Object(members)) => members,
        _ => Seq::empty(),
    }
}

impl Json {
    /// The member `key`, when this is an object that has one.
    pub fn member(&self, key: &str) -> (value: Option<&Json>)
        ensures
            value.deep_view() == member(self.deep_view(), key@),
    {
        broadcast use {lemma_array_model, lemma_object_model};

        match self {
            Json::Object(members) => get(members, key),
            _ => None,
        }
    }

    /// The text, when this is a string.
    pub fn as_text(&self) -> (text: Option<&String>)
        ensures
            text.deep_view() == text_in(Some(self.deep_view())),
    {
        match self {
            Json::Text(text) => Some(text),
            _ => None,
        }
    }

    /// The items, when this is an array.
    pub fn as_items(&self) -> (items: Option<&Vec<Json>>)
        ensures
            match items {
                Some(items) => self.deep_view() == JsonModel::Array(items.deep_view()),
                None => !(self.deep_view() is Array),
            },
    {
        broadcast use {lemma_array_model, lemma_object_model};

        match self {
            Json::Array(items) => Some(items),
            _ => None,
        }
    }

    /// The members, when this is an object.
    pub fn as_members(&self) -> (members: Option<&Vec<(String, Json)>>)
        ensures
            match members {
                Some(members) => self.deep_view() == JsonModel::Object(members.deep_view()),
                None => !(self.deep_view() is Object),
            },
    {
        broadcast use {lemma_array_model, lemma_object_model};

        match self {
            Json::Object(members) => Some(members),
            _ => None,
        }
    }
}

/// The text of an optional document.
pub fn text_of_json(json: Option<&Json>) -> (text: Option<String>)
    ensures
        text.deep_view() == text_in(json.deep_view()),
{
    match json {
        Some(json) => match json.as_text() {
            Some(text) => Some(text.clone()),
            None => None,
        },
        None => None,
    }
}

// ---------------------------------------------------------------------------
// Printing
// ---------------------------------------------------------------------------

/// A document in compact form.
pub open spec fn json_text(json: JsonModel) -> Seq<char>
    decreases json,
{
    match json {
        JsonModel::Null => "null"@,
        JsonModel::Bool(b) => if b {
            "true"@
        } else {
            "false"@
        },
        JsonModel::Number { text, .. } => text,
        JsonModel::Text(text) => json_quoted(text),
        JsonModel::Array(items) => "["@ + join_text(item_texts(items), ","@) + "]"@,
        JsonModel::Object(members) => "{"@ + join_text(member_texts(members), ","@) + "}"@,
    }
}

/// The items of an array, each in compact form.
pub open spec fn item_texts(items: Seq<JsonModel>) -> Seq<Seq<char>>
    decreases items,
{
    Seq::new(
        items.len(),
        |i: int|
            if 0 <= i < items.len() {
                json_text(items[i])
            } else {
                Seq::empty()
            },
    )
}

/// The members of an object, each in compact form.
pub open spec fn member_texts(members: Seq<(Seq<char>, JsonModel)>) -> Seq<Seq<char>>
    decreases members,
{
    Seq::new(
        members.len(),
        |i: int|
            if 0 <= i < members.len() {
                json_quoted(members[i].0) + ":"@ + json_text(members[i].1)
            } else {
                Seq::empty()
            },
    )
}

/// A document in compact form.
pub fn print(json: &Json) -> (text: String)
    ensures
        text@ == json_text(json.deep_view()),
    decreases json,
{
    broadcast use {lemma_array_model, lemma_object_model};

    match json {
        Json::Null => "null".to_owned(),
        Json::Bool(b) => if *b {
            "true".to_owned()
        } else {
            "false".to_owned()
        },
        Json::Number(n) => n.text.clone(),
        Json::Text(t) => json_quote(t.as_str()),
        Json::Array(items) => {
            let mut parts: Vec<String> = Vec::new();
            let mut i: usize = 0;
            while i < items.len()
                invariant
                    i <= items@.len(),
                    json == Json::Array(*items),
                    parts@.len() == i,
                    forall|k: int|
                        0 <= k < i ==> (#[trigger] parts@[k])@ == json_text(json_model(items@[k])),
                decreases items@.len() - i,
            {
                assert(decreases_to!(*json => json->Array_0));
                assert(decreases_to!(*items => items@[i as int]));
                parts.push(print(&items[i]));
                i = i + 1;
            }
            let body = join(&parts, ",");
            let text = concat3("[", body.as_str(), "]");
            let ghost all = items.deep_view();
            assert(parts.deep_view() =~= item_texts(all));
            text
        },
        Json::Object(members) => {
            let mut parts: Vec<String> = Vec::new();
            let mut i: usize = 0;
            while i < members.len()
                invariant
                    i <= members@.len(),
                    json == Json::Object(*members),
                    parts@.len() == i,
                    forall|k: int|
                        0 <= k < i ==> (#[trigger] parts@[k])@ == json_quoted(
                            members@[k].0@,
                        ) + ":"@ + json_text(json_model(members@[k].1)),
                decreases members@.len() - i,
            {
                let name = json_quote(members[i].0.as_str());
                assert(decreases_to!(*json => json->Object_0));
                assert(decreases_to!(*members => members@[i as int]));
                assert(decreases_to!(members@[i as int] => members@[i as int].1));
                let value = print(&members[i].1);
                parts.push(concat3(name.as_str(), ":", value.as_str()));
                i = i + 1;
            }
            let body = join(&parts, ",");
            let text = concat3("{", body.as_str(), "}");
            let ghost all = members.deep_view();
            assert(parts.deep_view() =~= member_texts(all));
            text
        },
    }
}

/// A document as plain text: a string as it is, nothing for null, anything else in compact form.
pub open spec fn plain_text(json: JsonModel) -> Option<Seq<char>> {
    match json {
        JsonModel::Null => None,
        JsonModel::Text(text) => Some(text),
        _ => Some(json_text(json)),
    }
}

/// A document as plain text.
pub fn value_to_string(value: &Json) -> (text: Option<String>)
    ensures
        text.deep_view() == plain_text(value.deep_view()),
{
    match value {
        Json::Null => None,
        Json::Text(text) => Some(text.clone()),
        _ => Some(print(value)),
    }
}

// ---------------------------------------------------------------------------
// Laws
// ---------------------------------------------------------------------------


/// Only an object has members, and they are found by name; only a string is text, only an array has
/// items.
pub proof fn law_what_is_read_of_a_document(
    members: Seq<(Seq<char>, JsonModel)>,
    items: Seq<JsonModel>,
    text: Seq<char>,
    json: JsonModel,
    key: Seq<char>,
)
    ensures
        member(JsonModel::Object(members), key) == lookup(members, key),
        !(json is Object) ==> member(json, key) is None && members_in(Some(json)).len() == 0,
        text_in(Some(JsonModel::Text(text))) == Some(text),
        !(json is Text) ==> text_in(Some(json)) is None,
        text_in(None) is None,
        items_in(Some(JsonModel::Array(items))) == items,
        !(json is Array) ==> items_in(Some(json)).len() == 0,
        items_in(None).len() == 0,
        members_in(Some(JsonModel::Object(members))) == members,
        members_in(None).len() == 0,
{
}

/// How a document is printed: words and numbers as they are, strings in quotes, an array in brackets
/// and an object in braces, with commas between what they hold, and a colon between name and value.
pub proof fn law_how_a_document_is_printed(
    items: Seq<JsonModel>,
    members: Seq<(Seq<char>, JsonModel)>,
    texts: Seq<Seq<char>>,
    text: Seq<char>,
    unsigned: Option<u64>,
)
    ensures
        json_text(JsonModel::Null) == "null"@,
        json_text(JsonModel::Bool(true)) == "true"@,
        json_text(JsonModel::Bool(false)) == "false"@,
        json_text(JsonModel::Number { text, unsigned }) == text,
        json_text(JsonModel::Text(text)) == json_quoted(text),
        texts.len() == items.len() && (forall|i: int|
            0 <= i < items.len() ==> #[trigger] texts[i] == json_text(items[i])) ==> json_text(
            JsonModel::Array(items),
        ) == "["@ + join_text(texts, ","@) + "]"@,
        texts.len() == members.len() && (forall|i: int|
            0 <= i < members.len() ==> #[trigger] texts[i] == json_quoted(members[i].0) + ":"@
                + json_text(members[i].1)) ==> json_text(JsonModel::Object(members)) == "{"@
            + join_text(texts, ","@) + "}"@,
{
    if texts.len() == items.len() && (forall|i: int|
        0 <= i < items.len() ==> #[trigger] texts[i] == json_text(items[i])) {
        assert(item_texts(items) =~= texts);
    }
    if texts.len() == members.len() && (forall|i: int|
        0 <= i < members.len() ==> #[trigger] texts[i] == json_quoted(members[i].0) + ":"@
            + json_text(members[i].1)) {
        assert(member_texts(members) =~= texts);
    }
}

/// As plain text a string is itself, null is nothing, and anything else is what is printed.
pub proof fn law_documents_as_plain_text(json: JsonModel, text: Seq<char>)
    ensures
        plain_text(JsonModel::Null) is None,
        plain_text(JsonModel::Text(text)) == Some(text),
        !(json is Null) && !(json is Text) ==> plain_text(json) == Some(json_text(json)),
{
}

} // verus!
