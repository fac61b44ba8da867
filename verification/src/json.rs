//! JSON documents as plain trees, and the few ways the feed reads them.

use vstd::prelude::*;

verus! {

/// A JSON document.
///
/// A number keeps its value only where it is an integer in the range of
/// `i64`. The members of an object stand in a list; where a name occurs more
/// than once, the first member of that name is the one that is found.
#[derive(Debug, PartialEq, Eq)]
pub enum Json {
    Null,
    Bool(bool),
    Number(Option<i64>),
    String(String),
    Array(Vec<Json>),
    Object(Vec<(String, Json)>),
}

/// The mathematical value of a [`Json`] document.
pub enum JsonView {
    Null,
    Bool(bool),
    Number(Option<i64>),
    String(Seq<char>),
    Array(Seq<JsonView>),
    Object(Seq<(Seq<char>, JsonView)>),
}

/// The values of a list of documents, in order.
pub open spec fn array_view(items: Seq<Json>) -> Seq<JsonView>
    decreases items, 0nat,
{
    Seq::new(
        items.len(),
        |i: int|
            if 0 <= i < items.len() {
                items[i]@
            } else {
                JsonView::Null
            },
    )
}

/// The keys and values of a list of members, in order.
pub open spec fn object_view(members: Seq<(String, Json)>) -> Seq<(Seq<char>, JsonView)>
    decreases members, 0nat,
{
    Seq::new(
        members.len(),
        |i: int|
            if 0 <= i < members.len() {
                (members[i].0@, members[i].1@)
            } else {
                (Seq::empty(), JsonView::Null)
            },
    )
}

impl View for Json {
    type V = JsonView;

    open spec fn view(&self) -> JsonView
        decreases self, 1nat,
    {
        match self {
            Json::Null => JsonView::Null,
            Json::Bool(b) => JsonView::Bool(*b),
            Json::Number(n) => JsonView::Number(*n),
            Json::String(s) => JsonView::String(s@),
            Json::Array(items) => JsonView::Array(array_view(items@)),
            Json::Object(members) => JsonView::Object(object_view(members@)),
        }
    }
}

/// The value stored under the first member named `key`, if there is one.
pub open spec fn lookup(members: Seq<(Seq<char>, JsonView)>, key: Seq<char>) -> Option<JsonView>
    decreases members.len(),
{
    if members.len() == 0 {
        None
    } else if members[0].0 == key {
        Some(members[0].1)
    } else {
        lookup(members.drop_first(), key)
    }
}

/// What `lookup` finds: the value of the first member whose name is `key`,
/// and nothing exactly where no member has that name.
pub proof fn lemma_lookup_finds_first(members: Seq<(Seq<char>, JsonView)>, key: Seq<char>)
    ensures
        lookup(members, key) is None <==> forall|i: int|
            0 <= i < members.len() ==> (#[trigger] members[i]).0 != key,
        lookup(members, key) matches Some(value) ==> exists|i: int|
            {
                &&& 0 <= i < members.len()
                &&& #[trigger] members[i] == (key, value)
                &&& forall|j: int| 0 <= j < i ==> (#[trigger] members[j]).0 != key
            },
    decreases members.len(),
{
    if members.len() > 0 {
        let rest = members.drop_first();
        if members[0].0 == key {
            assert(members[0] == (key, members[0].1));
        } else {
            lemma_lookup_finds_first(rest, key);
            if lookup(members, key) is None {
                assert forall|i: int| 0 <= i < members.len() implies (#[trigger] members[i]).0
                    != key by {
                    if i > 0 {
                        assert(rest[i - 1] == members[i]);
                    }
                }
            } else {
                let value = lookup(members, key)->Some_0;
                let at = choose|i: int|
                    {
                        &&& 0 <= i < rest.len()
                        &&& #[trigger] rest[i] == (key, value)
                        &&& forall|j: int| 0 <= j < i ==> (#[trigger] rest[j]).0 != key
                    };
                assert(members[at + 1] == rest[at]);
                assert forall|j: int| 0 <= j < at + 1 implies (#[trigger] members[j]).0
                    != key by {
                    if j > 0 {
                        assert(rest[j - 1] == members[j]);
                    }
                }
                if forall|i: int| 0 <= i < members.len() ==> (#[trigger] members[i]).0 != key {
                    assert(members[at + 1].0 != key);
                }
            }
        }
    }
}

impl JsonView {
    /// The member `key` of an object; nothing for any other document.
    pub open spec fn get(self, key: Seq<char>) -> Option<JsonView> {
        match self {
            JsonView::Object(members) => lookup(members, key),
            _ => None,
        }
    }

    /// The items of an array; nothing for any other document.
    pub open spec fn as_array(self) -> Option<Seq<JsonView>> {
        match self {
            JsonView::Array(items) => Some(items),
            _ => None,
        }
    }

    /// The characters of a string; nothing for any other document.
    pub open spec fn as_str(self) -> Option<Seq<char>> {
        match self {
            JsonView::String(text) => Some(text),
            _ => None,
        }
    }

    /// The value of a number that is an integer in the range of `i64`;
    /// nothing for any other document.
    pub open spec fn as_i64(self) -> Option<i64> {
        match self {
            JsonView::Number(n) => n,
            _ => None,
        }
    }

    /// The document reached from `self` by one more member name, if `self`
    /// was reached at all.
    pub open spec fn then_get(from: Option<JsonView>, key: Seq<char>) -> Option<JsonView> {
        match from {
            Some(doc) => doc.get(key),
            None => None,
        }
    }
}

/// `serde_json::Value`, carried as it is from the reader to the copy.
#[verifier::external_type_specification]
#[verifier::external_body]
pub struct ExValue(serde_json::Value);

/// `serde_json::Error`, of which nothing is read.
#[verifier::external_type_specification]
#[verifier::external_body]
pub struct ExError(serde_json::Error);

/// The document that `serde_json::from_str` reads out of a text; nothing for
/// a text that it refuses.
pub uninterp spec fn json_of_text(text: Seq<char>) -> Option<JsonView>;

/// The document that a `serde_json::Value` holds, as `lift` copies it.
pub uninterp spec fn value_tree(value: serde_json::Value) -> JsonView;

/// `serde_json::from_str` for a `Value`. The contract claims only that what
/// comes back depends on the text alone: the document read, or the refusal,
/// is the one that `json_of_text` names for this text.
#[verifier::external_body]
fn read_value(text: &str) -> (read: Result<serde_json::Value, serde_json::Error>)
    ensures
        match read {
            Ok(value) => json_of_text(text@) == Some(value_tree(value)),
            Err(_) => json_of_text(text@) is None,
        },
{
    serde_json::from_str::<serde_json::Value>(text)
}

/// Copies a `serde_json::Value` into a [`Json`], variant by variant: a
/// number through `Number::as_i64`, the items of an array in their order,
/// the members of an object in the order in which `Map::iter` hands them
/// out. The contract claims only that the copy depends on the value alone.
#[verifier::external_body]
fn lift(value: &serde_json::Value) -> (json: Json)
    ensures
        json@ == value_tree(*value),
{
    match value {
        serde_json::Value::Null => Json::Null,
        serde_json::Value::Bool(b) => Json::Bool(*b),
        serde_json::Value::Number(n) => Json::Number(n.as_i64()),
        serde_json::Value::String(s) => Json::String(s.clone()),
        serde_json::Value::Array(items) => Json::Array(items.iter().map(lift).collect()),
        serde_json::Value::Object(map) => Json::Object(
            map.iter().map(|(key, member)| (key.clone(), lift(member))).collect(),
        ),
    }
}

/// `==` on `str`: true exactly where both hold the same characters.
#[verifier::external_body]
fn same_text(a: &str, b: &str) -> (same: bool)
    ensures
        same == (a@ == b@),
{
    a == b
}

/// Reads a JSON text into a document; `None` for a text that is not one
/// JSON document from end to end.
pub fn decode(text: &str) -> (document: Option<Json>)
    ensures
        match document {
            Some(json) => json_of_text(text@) == Some(json@),
            None => json_of_text(text@) is None,
        },
{
    match read_value(text) {
        Ok(value) => Some(lift(&value)),
        Err(_) => None,
    }
}

impl Json {
    /// The member `key` of an object; `None` for a missing member and for
    /// any document that is not an object.
    pub fn get(&self, key: &str) -> (found: Option<&Json>)
        ensures
            match found {
                Some(value) => self@.get(key@) == Some(value@),
                None => self@.get(key@) is None,
            },
    {
        match self {
            Json::Object(members) => {
                let ghost all = object_view(members@);
                let mut i: usize = 0;
                proof {
                    assert(all.skip(0) == all);
                }
                while i < members.len()
                    invariant
                        i <= members@.len(),
                        all == object_view(members@),
                        self@ == JsonView::Object(all),
                        lookup(all, key@) == lookup(all.skip(i as int), key@),
                    decreases members@.len() - i,
                {
                    proof {
                        assert(all.skip(i as int).drop_first() == all.skip(i + 1));
                        assert(all.skip(i as int)[0] == (members@[i as int].0@, members@[i as int].1@));
                    }
                    if same_text(members[i].0.as_str(), key) {
                        return Some(&members[i].1);
                    }
                    i += 1;
                }
                None
            },
            _ => None,
        }
    }

    /// The items of an array; `None` for any other document.
    pub fn as_array(&self) -> (items: Option<&Vec<Json>>)
        ensures
            match items {
                Some(list) => self@.as_array() == Some(array_view(list@)),
                None => self@.as_array() is None,
            },
    {
        match self {
            Json::Array(items) => Some(items),
            _ => None,
        }
    }

    /// The text of a string; `None` for any other document.
    pub fn as_str(&self) -> (text: Option<&str>)
        ensures
            match text {
                Some(t) => self@.as_str() == Some(t@),
                None => self@.as_str() is None,
            },
    {
        match self {
            Json::String(text) => Some(text.as_str()),
            _ => None,
        }
    }

    /// The value of a number that is an integer in the range of `i64`;
    /// `None` for any other document.
    pub fn as_i64(&self) -> (n: Option<i64>)
        ensures
            n == self@.as_i64(),
    {
        match self {
            Json::Number(n) => *n,
            _ => None,
        }
    }
}

} // verus!
