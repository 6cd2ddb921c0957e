//! The JSON documents that the device answers with: a tree type of the
//! library's own, the parser behind it, and the lookups the decoders need.

use crate::text::same_text;
use vstd::prelude::*;

verus! {

/// The mathematical content of a JSON document. A number carries no value:
/// nothing in this library reads one.
pub enum JsonTree {
    Null,
    Bool(bool),
    Number,
    Text(Seq<char>),
    Array(Seq<JsonTree>),
    Object(Seq<(Seq<char>, JsonTree)>),
}

/// A JSON document held in memory.
#[derive(Debug)]
pub enum Json {
    Null,
    Bool(bool),
    Number,
    Text(String),
    Array(Vec<Json>),
    Object(Vec<(String, Json)>),
}

impl Json {
    /// The tree that this document holds.
    pub open spec fn tree(self) -> JsonTree
        decreases self,
    {
        match self {
            Json::Null => JsonTree::Null,
            Json::Bool(b) => JsonTree::Bool(b),
            Json::Number => JsonTree::Number,
            Json::Text(text) => JsonTree::Text(text@),
            Json::Array(items) => JsonTree::Array(
                Seq::new(
                    items.len() as nat,
                    |i: int|
                        if 0 <= i < items.len() {
                            items[i].tree()
                        } else {
                            JsonTree::Null
                        },
                ),
            ),
            Json::Object(members) => JsonTree::Object(
                Seq::new(
                    members.len() as nat,
                    |i: int|
                        if 0 <= i < members.len() {
                            (members[i].0@, members[i].1.tree())
                        } else {
                            (Seq::empty(), JsonTree::Null)
                        },
                ),
            ),
        }
    }
}

impl View for Json {
    type V = JsonTree;

    open spec fn view(&self) -> JsonTree {
        self.tree()
    }
}

/// The value of the first member of `members` whose key is `key`.
pub open spec fn first_member(members: Seq<(Seq<char>, JsonTree)>, key: Seq<char>) -> Option<
    JsonTree,
>
    decreases members.len(),
{
    if members.len() == 0 {
        None
    } else if members.first().0 == key {
        Some(members.first().1)
    } else {
        first_member(members.drop_first(), key)
    }
}

impl JsonTree {
    /// The member `key` of an object; `None` for anything but an object, and
    /// for an object without that member.
    pub open spec fn member(self, key: Seq<char>) -> Option<JsonTree> {
        match self {
            JsonTree::Object(members) => first_member(members, key),
            _ => None,
        }
    }

    /// The characters of a text value; `None` for anything else.
    pub open spec fn text(self) -> Option<Seq<char>> {
        match self {
            JsonTree::Text(text) => Some(text),
            _ => None,
        }
    }

    /// The members of an object, in order; `None` for anything else.
    pub open spec fn members(self) -> Option<Seq<(Seq<char>, JsonTree)>> {
        match self {
            JsonTree::Object(members) => Some(members),
            _ => None,
        }
    }
}

/// Makes `serde_json::Value` known as a type; nothing of what a value holds
/// is visible but through `value_tree`.
#[verifier::external_type_specification]
#[verifier::external_body]
pub struct ExValue(serde_json::Value);

/// What `serde_json` reads `text` as: the document, or `None` where it
/// rejects the text.
pub uninterp spec fn json_document(text: Seq<char>) -> Option<JsonTree>;

/// The tree that a `serde_json::Value` holds.
pub uninterp spec fn value_tree(value: serde_json::Value) -> JsonTree;

/// Calls `serde_json::from_str` for a `serde_json::Value`. The contract
/// gives the outcome a name and claims only that it depends on `text` alone:
/// the value holds `json_document(text)`, and an error means there is none.
#[verifier::external_body]
fn parse_value(text: &str) -> (parsed: Option<serde_json::Value>)
    ensures
        match parsed {
            Some(value) => json_document(text@) == Some(value_tree(value)),
            None => json_document(text@) is None,
        },
{
    serde_json::from_str::<serde_json::Value>(text).ok()
}

/// Moves a `serde_json::Value` into a `Json`, variant by variant; an
/// object's members come in the order in which `serde_json::Map` hands them
/// out, and a number is kept without its value. The contract claims that the
/// result holds the tree of `value`. It is called on parsed values only, and
/// `serde_json` nests those no deeper than its recursion limit.
#[verifier::external_body]
fn lift(value: serde_json::Value) -> (json: Json)
    ensures
        json@ == value_tree(value),
{
    match value {
        serde_json::Value::Null => Json::Null,
        serde_json::Value::Bool(b) => Json::Bool(b),
        serde_json::Value::Number(_) => Json::Number,
        serde_json::Value::String(text) => Json::Text(text),
        serde_json::Value::Array(items) => Json::Array(items.into_iter().map(lift).collect()),
        serde_json::Value::Object(members) => Json::Object(
            members.into_iter().map(|(key, value)| (key, lift(value))).collect(),
        ),
    }
}

/// Parses `text` as one JSON document.
pub fn parse_json(text: &str) -> (doc: Option<Json>)
    ensures
        doc is Some <==> json_document(text@) is Some,
        doc is Some ==> doc->0@ == json_document(text@)->0,
{
    match parse_value(text) {
        Some(value) => Some(lift(value)),
        None => None,
    }
}

impl Json {
    /// The member `key` of an object.
    pub fn member(&self, key: &str) -> (found: Option<&Json>)
        ensures
            found is Some <==> self@.member(key@) is Some,
            found is Some ==> found->0@ == self@.member(key@)->0,
    {
        match self {
            Json::Object(members) => {
                let ghost all = self@->Object_0;
                let mut i: usize = 0;
                proof {
                    assert(all.skip(0) =~= all);
                }
                while i < members.len()
                    invariant
                        i <= members.len(),
                        self@ == JsonTree::Object(all),
                        all.len() == members.len(),
                        forall|k: int|
                            0 <= k < members.len() ==> #[trigger] all[k] == (
                                members[k].0@,
                                members[k].1@,
                            ),
                        first_member(all, key@) == first_member(all.skip(i as int), key@),
                    decreases members.len() - i,
                {
                    let ghost rest = all.skip(i as int);
                    proof {
                        assert(rest.len() > 0);
                        assert(rest.first() == all[i as int]);
                        assert(rest.drop_first() =~= all.skip(i + 1));
                    }
                    if same_text(members[i].0.as_str(), key) {
                        return Some(&members[i].1);
                    }
                    i += 1;
                }
                proof {
                    assert(all.skip(i as int).len() == 0);
                }
                None
            },
            _ => None,
        }
    }

    /// The members of an object, in order.
    pub fn as_members(&self) -> (found: Option<&Vec<(String, Json)>>)
        ensures
            found is Some <==> self@.members() is Some,
            found is Some ==> {
                &&& found->0.len() == self@.members()->0.len()
                &&& forall|k: int|
                    0 <= k < found->0.len() ==> #[trigger] self@.members()->0[k] == (
                        found->0[k].0@,
                        found->0[k].1@,
                    )
            },
    {
        match self {
            Json::Object(members) => Some(members),
            _ => None,
        }
    }

    /// The characters of a text value.
    pub fn as_text(&self) -> (found: Option<&str>)
        ensures
            found is Some <==> self@.text() is Some,
            found is Some ==> found->0@ == self@.text()->0,
    {
        match self {
            Json::Text(text) => Some(text.as_str()),
            _ => None,
        }
    }
}

} // verus!
