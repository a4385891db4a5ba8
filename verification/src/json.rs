//! JSON documents as trees, and the parser that produces them.

use vstd::prelude::*;

use crate::text::str_eq;

verus! {

/// A JSON value.
#[derive(Debug)]
pub enum Json {
    Null,
    Bool(bool),
    /// A number. The payload is its value when it is an integer in
    /// `0..=u64::MAX` written without fraction or exponent, and `None` for
    /// every other number.
    Number(Option<u64>),
    Text(String),
    Array(Vec<Json>),
    /// The members of an object, in the order in which they are kept. The
    /// parser gives each key once.
    Object(Vec<(String, Json)>),
}

/// A JSON value as a mathematical tree.
pub enum JsonView {
    Null,
    Bool(bool),
    Number(Option<u64>),
    Text(Seq<char>),
    Array(Seq<JsonView>),
    Object(Seq<(Seq<char>, JsonView)>),
}

/// What one level of a `serde_json::Value` holds, with the values under it
/// left as they are.
enum Shape<'a> {
    Null,
    Bool(bool),
    Number(Option<u64>),
    Text(&'a String),
    Array(&'a Vec<serde_json::Value>),
    Object(Vec<(&'a String, &'a serde_json::Value)>),
}

/// `serde_json::Value`, a parsed document. It is copied into a `Json` as soon
/// as it is there.
#[verifier::external_type_specification]
#[verifier::external_body]
pub struct ExValue(serde_json::Value);

/// `serde_json::Error`, the reason why a text is no document.
#[verifier::external_type_specification]
#[verifier::external_body]
pub struct ExJsonError(serde_json::Error);

/// The tree that a `serde_json::Value` holds.
pub uninterp spec fn json_model(v: serde_json::Value) -> JsonView;

/// The document that a text spells, `None` where the text is not JSON.
pub uninterp spec fn json_text(text: Seq<char>) -> Option<JsonView>;

/// `serde_json::from_str` at type `serde_json::Value`: parses one JSON
/// document that fills the whole text. The result depends on the text alone.
#[verifier::external_body]
fn parse_value(text: &str) -> (r: Result<serde_json::Value, serde_json::Error>)
    ensures
        match r {
            Ok(v) => json_text(text@) == Some(json_model(v)),
            Err(_) => json_text(text@) is None,
        },
{
    serde_json::from_str::<serde_json::Value>(text)
}

/// The models of the values in a list.
spec fn models_of(items: Seq<serde_json::Value>) -> Seq<JsonView> {
    Seq::new(items.len(), |i: int| json_model(items[i]))
}

/// The models of the members of an object.
spec fn member_models(members: Seq<(&String, &serde_json::Value)>) -> Seq<
    (Seq<char>, JsonView),
> {
    Seq::new(members.len(), |i: int| (members[i].0@, json_model(*members[i].1)))
}

/// Opens one level of a `serde_json::Value`: tells its six variants apart
/// and hands out what each holds. A number is read with
/// `serde_json::Number::as_u64`, which gives the value of an integer in
/// `0..=u64::MAX` and `None` for every other number; the members of an
/// object come as `serde_json::Map::iter` gives them.
#[verifier::external_body]
fn shape_of(v: &serde_json::Value) -> (s: Shape<'_>)
    ensures
        json_model(*v) == match s {
            Shape::Null => JsonView::Null,
            Shape::Bool(b) => JsonView::Bool(b),
            Shape::Number(n) => JsonView::Number(n),
            Shape::Text(t) => JsonView::Text(t@),
            Shape::Array(items) => JsonView::Array(models_of(items@)),
            Shape::Object(members) => JsonView::Object(member_models(members@)),
        },
{
    match v {
        serde_json::Value::Null => Shape::Null,
        serde_json::Value::Bool(b) => Shape::Bool(*b),
        serde_json::Value::Number(n) => Shape::Number(n.as_u64()),
        serde_json::Value::String(t) => Shape::Text(t),
        serde_json::Value::Array(items) => Shape::Array(items),
        serde_json::Value::Object(members) => Shape::Object(members.iter().collect()),
    }
}

/// The value that the first member named `key` holds.
pub open spec fn lookup(members: Seq<(Seq<char>, JsonView)>, key: Seq<char>) -> Option<JsonView>
    decreases members.len(),
{
    if members.len() == 0 {
        None
    } else if members[0].0 == key {
        Some(members[0].1)
    } else {
        lookup(members.drop_first(), key)
    }
}

impl JsonView {
    /// The member `key` of an object; `None` for other values and where the
    /// object has no such member.
    pub open spec fn member(self, key: Seq<char>) -> Option<JsonView> {
        match self {
            JsonView::Object(members) => lookup(members, key),
            _ => None,
        }
    }
}

impl View for Json {
    type V = JsonView;

    open spec fn view(&self) -> JsonView
        decreases self,
    {
        match self {
            Json::Null => JsonView::Null,
            Json::Bool(b) => JsonView::Bool(*b),
            Json::Number(n) => JsonView::Number(*n),
            Json::Text(t) => JsonView::Text(t@),
            Json::Array(items) => JsonView::Array(
                Seq::new(
                    items@.len(),
                    |i: int|
                        if 0 <= i < items@.len() {
                            items@[i].view()
                        } else {
                            JsonView::Null
                        },
                ),
            ),
            Json::Object(members) => JsonView::Object(
                Seq::new(
                    members@.len(),
                    |i: int|
                        if 0 <= i < members@.len() {
                            (members@[i].0@, members@[i].1.view())
                        } else {
                            (Seq::empty(), JsonView::Null)
                        },
                ),
            ),
        }
    }
}

/// The views of the items of a list.
pub open spec fn views_of(items: Seq<Json>) -> Seq<JsonView> {
    Seq::new(items.len(), |i: int| items[i]@)
}

/// The views of the members of an object.
pub open spec fn member_views(members: Seq<(String, Json)>) -> Seq<(Seq<char>, JsonView)> {
    Seq::new(members.len(), |i: int| (members[i].0@, members[i].1@))
}

/// The view of a list is the list of the views of its items.
pub proof fn lemma_view_of_array(items: Vec<Json>)
    ensures
        Json::Array(items)@ == JsonView::Array(views_of(items@)),
{
    reveal_with_fuel(<Json as View>::view, 2);
    assert(Json::Array(items)@->Array_0 =~= views_of(items@));
}

/// The view of an object is the list of its members, each with the view of
/// its value.
pub proof fn lemma_view_of_object(members: Vec<(String, Json)>)
    ensures
        Json::Object(members)@ == JsonView::Object(member_views(members@)),
{
    reveal_with_fuel(<Json as View>::view, 2);
    assert(Json::Object(members)@->Object_0 =~= member_views(members@));
}

/// Copies a parsed document into a tree.
fn tree_of(v: &serde_json::Value) -> (t: Json)
    ensures
        t@ == json_model(*v),
    decreases json_model(*v),
{
    match shape_of(v) {
        Shape::Null => Json::Null,
        Shape::Bool(b) => Json::Bool(b),
        Shape::Number(n) => Json::Number(n),
        Shape::Text(t) => Json::Text(t.clone()),
        Shape::Array(items) => {
            let mut out: Vec<Json> = Vec::new();
            let mut i: usize = 0;
            while i < items.len()
                invariant
                    i <= items@.len(),
                    out@.len() == i,
                    json_model(*v) == JsonView::Array(models_of(items@)),
                    forall|k: int| 0 <= k < i ==> (#[trigger] out@[k])@ == json_model(items@[k]),
                decreases items@.len() - i,
            {
                proof {
                    let models = models_of(items@);
                    assert(models[i as int] == json_model(items@[i as int]));
                    vstd::seq::axiom_seq_index_decreases(models, i as int);
                    let whole = json_model(*v);
                    assert(decreases_to!(whole => whole->Array_0));
                }
                out.push(tree_of(&items[i]));
                i += 1;
            }
            proof {
                lemma_view_of_array(out);
                assert(views_of(out@) =~= models_of(items@));
            }
            Json::Array(out)
        },
        Shape::Object(members) => {
            let mut out: Vec<(String, Json)> = Vec::new();
            let mut i: usize = 0;
            while i < members.len()
                invariant
                    i <= members@.len(),
                    out@.len() == i,
                    json_model(*v) == JsonView::Object(member_models(members@)),
                    forall|k: int|
                        0 <= k < i ==> (#[trigger] out@[k]).0@ == members@[k].0@ && out@[k].1@
                            == json_model(*members@[k].1),
                decreases members@.len() - i,
            {
                proof {
                    let models = member_models(members@);
                    assert(models[i as int].1 == json_model(*members@[i as int].1));
                    vstd::seq::axiom_seq_index_decreases(models, i as int);
                    let whole = json_model(*v);
                    assert(decreases_to!(whole => whole->Object_0));
                    assert(decreases_to!(models[i as int] => models[i as int].1));
                }
                out.push((members[i].0.clone(), tree_of(members[i].1)));
                i += 1;
            }
            proof {
                lemma_view_of_object(out);
                assert(member_views(out@) =~= member_models(members@));
            }
            Json::Object(out)
        },
    }
}

impl Json {
    /// Looks up the member `key` of an object.
    pub fn get(&self, key: &str) -> (r: Option<&Json>)
        ensures
            match r {
                Some(x) => self@.member(key@) == Some(x@) && decreases_to!(*self => *x),
                None => self@.member(key@) is None,
            },
    {
        match self {
            Json::Object(members) => {
                let ghost views = member_views(members@);
                let mut i: usize = 0;
                proof {
                    lemma_view_of_object(*members);
                    assert(views.skip(0) =~= views);
                }
                while i < members.len()
                    invariant
                        i <= members@.len(),
                        *self == Json::Object(*members),
                        views == member_views(members@),
                        self@.member(key@) == lookup(views.skip(i as int), key@),
                    decreases members@.len() - i,
                {
                    assert(views.skip(i as int)[0] == views[i as int]);
                    if str_eq(members[i].0.as_str(), key) {
                        proof {
                            broadcast use vstd::std_specs::vec::axiom_vec_index_decreases;
                            assert(decreases_to!(*members => members[i as int]));
                            assert(decreases_to!(members[i as int] => members[i as int].1));
                        }
                        return Some(&members[i].1);
                    }
                    assert(views.skip(i as int).drop_first() =~= views.skip(i + 1));
                    i += 1;
                }
                None
            },
            _ => None,
        }
    }

    /// Parses a text as one JSON document.
    pub fn parse(text: &str) -> (r: Option<Json>)
        ensures
            match r {
                Some(tree) => json_text(text@) == Some(tree@),
                None => json_text(text@) is None,
            },
    {
        match parse_value(text) {
            Ok(v) => Some(tree_of(&v)),
            Err(_) => None,
        }
    }
}

} // verus!
