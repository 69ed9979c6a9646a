//! JSON values: the shape of every message, event and reply that passes through the gateway.

use crate::strings::same;
use vstd::prelude::*;

verus! {

/// A JSON value.
///
/// A number is held by its shape: `Uint` for one that is not negative and has no fraction, `Int`
/// for a negative one without a fraction, `Float` for any other, by its decimal text. The fields
/// of an object stand in the order of their names.
#[derive(Debug, PartialEq)]
pub enum Json {
    Null,
    Bool(bool),
    Uint(u64),
    Int(i64),
    Float(String),
    Text(String),
    Array(Vec<Json>),
    Object(Vec<(String, Json)>),
}

/// What a JSON value is, over sequences.
#[verifier::ext_equal]
pub enum JsonView {
    Null,
    Bool(bool),
    Uint(u64),
    Int(i64),
    Float(Seq<char>),
    Text(Seq<char>),
    Array(Seq<JsonView>),
    Object(Seq<(Seq<char>, JsonView)>),
}

impl Json {
    /// The value that this JSON value stands for.
    pub open spec fn model(&self) -> JsonView
        decreases self,
    {
        match self {
            Json::Null => JsonView::Null,
            Json::Bool(b) => JsonView::Bool(*b),
            Json::Uint(n) => JsonView::Uint(*n),
            Json::Int(n) => JsonView::Int(*n),
            Json::Float(t) => JsonView::Float(t@),
            Json::Text(t) => JsonView::Text(t@),
            Json::Array(items) => JsonView::Array(
                Seq::new(
                    items@.len(),
                    |i: int| if 0 <= i < items@.len() { items@[i].model() } else { JsonView::Null },
                ),
            ),
            Json::Object(fields) => JsonView::Object(
                Seq::new(
                    fields@.len(),
                    |i: int|
                        if 0 <= i < fields@.len() {
                            (fields@[i].0@, fields@[i].1.model())
                        } else {
                            (Seq::empty(), JsonView::Null)
                        },
                ),
            ),
        }
    }
}

impl View for Json {
    type V = JsonView;

    open spec fn view(&self) -> JsonView {
        self.model()
    }
}

/// The values of a list.
pub open spec fn items_view(items: Seq<Json>) -> Seq<JsonView> {
    Seq::new(items.len(), |i: int| items[i]@)
}

/// The names and values of a list of fields.
pub open spec fn fields_view(fields: Seq<(String, Json)>) -> Seq<(Seq<char>, JsonView)> {
    Seq::new(fields.len(), |i: int| (fields[i].0@, fields[i].1@))
}

/// One more value in a list is one more view.
pub broadcast proof fn lemma_items_push(items: Seq<Json>, v: Json)
    ensures
        #[trigger] items_view(items.push(v)) == items_view(items).push(v@),
{
    assert(items_view(items.push(v)) =~= items_view(items).push(v@));
}

/// The view of an array is the views of its items.
pub broadcast proof fn lemma_array_view(items: Vec<Json>)
    ensures
        (#[trigger] Json::Array(items).model()) == JsonView::Array(items_view(items@)),
{
    let j = Json::Array(items);
    assert(j.model()->Array_0 =~= items_view(items@));
}

/// The view of an object is the views of its fields.
pub broadcast proof fn lemma_object_view(fields: Vec<(String, Json)>)
    ensures
        (#[trigger] Json::Object(fields).model()) == JsonView::Object(fields_view(fields@)),
{
    let j = Json::Object(fields);
    assert(j.model()->Object_0 =~= fields_view(fields@));
}

/// A copy of a list of values.
pub fn copy_items(items: &Vec<Json>) -> (r: Vec<Json>)
    ensures
        items_view(r@) == items_view(items@),
    decreases items,
{
    let mut out: Vec<Json> = Vec::new();
    let mut i: usize = 0;
    while i < items.len()
        invariant
            i <= items.len(),
            out@.len() == i,
            forall|k: int| 0 <= k < i ==> out@[k]@ == #[trigger] items@[k]@,
        decreases items.len() - i,
    {
        out.push(items[i].copy());
        i += 1;
    }
    assert(items_view(out@) =~= items_view(items@));
    out
}

/// A copy of a list of fields.
fn copy_fields(fields: &Vec<(String, Json)>) -> (r: Vec<(String, Json)>)
    ensures
        fields_view(r@) == fields_view(fields@),
    decreases fields,
{
    let mut out: Vec<(String, Json)> = Vec::new();
    let mut i: usize = 0;
    while i < fields.len()
        invariant
            i <= fields.len(),
            out@.len() == i,
            forall|k: int|
                0 <= k < i ==> out@[k].0@ == fields@[k].0@ && out@[k].1@ == (
                #[trigger] fields@[k]).1@,
        decreases fields.len() - i,
    {
        assert(decreases_to!(fields => fields@[i as int]));
        assert(decreases_to!(fields@[i as int] => fields@[i as int].1));
        out.push((fields[i].0.clone(), fields[i].1.copy()));
        i += 1;
    }
    assert(fields_view(out@) =~= fields_view(fields@));
    out
}

impl Json {
    /// A copy of this value.
    pub fn copy(&self) -> (r: Json)
        ensures
            r@ == self@,
        decreases self,
    {
        broadcast use {lemma_array_view, lemma_object_view};
        match self {
            Json::Null => Json::Null,
            Json::Bool(b) => Json::Bool(*b),
            Json::Uint(n) => Json::Uint(*n),
            Json::Int(n) => Json::Int(*n),
            Json::Float(t) => Json::Float(t.clone()),
            Json::Text(t) => Json::Text(t.clone()),
            Json::Array(items) => Json::Array(copy_items(items)),
            Json::Object(fields) => Json::Object(copy_fields(fields)),
        }
    }
}


/// What an optional reference to a value holds.
pub open spec fn opt_view(v: Option<&Json>) -> Option<JsonView> {
    match v {
        Some(j) => Some(j@),
        None => None,
    }
}

/// The value of the first field with the name `key`.
pub open spec fn lookup(fields: Seq<(Seq<char>, JsonView)>, key: Seq<char>) -> Option<JsonView>
    decreases fields.len(),
{
    if fields.len() == 0 {
        None
    } else if fields[0].0 == key {
        Some(fields[0].1)
    } else {
        lookup(fields.drop_first(), key)
    }
}

impl JsonView {
    /// The field `key` of an object; nothing where this is no object or has no such field.
    pub open spec fn get(self, key: Seq<char>) -> Option<JsonView> {
        match self {
            JsonView::Object(fields) => lookup(fields, key),
            _ => None,
        }
    }

    /// The field `key` of an object, `Null` where there is none.
    pub open spec fn at(self, key: Seq<char>) -> JsonView {
        match self.get(key) {
            Some(v) => v,
            None => JsonView::Null,
        }
    }

    /// The characters of a text.
    pub open spec fn as_text(self) -> Option<Seq<char>> {
        match self {
            JsonView::Text(t) => Some(t),
            _ => None,
        }
    }

    /// The characters of a text, `default` where this is no text.
    pub open spec fn text_or(self, default: Seq<char>) -> Seq<char> {
        match self {
            JsonView::Text(t) => t,
            _ => default,
        }
    }

    /// The items of an array.
    pub open spec fn as_array(self) -> Option<Seq<JsonView>> {
        match self {
            JsonView::Array(items) => Some(items),
            _ => None,
        }
    }

    /// The first item of an array that is not empty.
    pub open spec fn first(self) -> Option<JsonView> {
        match self {
            JsonView::Array(items) => if items.len() > 0 {
                Some(items[0])
            } else {
                None
            },
            _ => None,
        }
    }
}

/// An array of the given items.
pub fn array(items: Vec<Json>) -> (r: Json)
    ensures
        r@ == JsonView::Array(items_view(items@)),
{
    broadcast use lemma_array_view;

    Json::Array(items)
}

/// An array of one item.
pub fn array1(item: Json) -> (r: Json)
    ensures
        r@ == JsonView::Array(seq![item@]),
{
    let items = vec![item];
    assert(items_view(items@) =~= seq![item@]);
    array(items)
}

/// An object without fields.
pub fn object0() -> (r: Json)
    ensures
        r@ == JsonView::Object(Seq::empty()),
{
    broadcast use lemma_object_view;

    let fields: Vec<(String, Json)> = Vec::new();
    assert(fields_view(fields@) =~= Seq::empty());
    Json::Object(fields)
}

/// An object of one field.
pub fn object1(k1: &str, v1: Json) -> (r: Json)
    ensures
        r@ == JsonView::Object(seq![(k1@, v1@)]),
{
    broadcast use lemma_object_view;

    let fields = vec![(k1.to_owned(), v1)];
    assert(fields_view(fields@) =~= seq![(k1@, v1@)]);
    Json::Object(fields)
}

/// An object of two fields.
pub fn object2(k1: &str, v1: Json, k2: &str, v2: Json) -> (r: Json)
    ensures
        r@ == JsonView::Object(seq![(k1@, v1@), (k2@, v2@)]),
{
    broadcast use lemma_object_view;

    let fields = vec![(k1.to_owned(), v1), (k2.to_owned(), v2)];
    assert(fields_view(fields@) =~= seq![(k1@, v1@), (k2@, v2@)]);
    Json::Object(fields)
}

/// An object of three fields.
pub fn object3(
    k1: &str,
    v1: Json,
    k2: &str,
    v2: Json,
    k3: &str,
    v3: Json,
) -> (r: Json)
    ensures
        r@ == JsonView::Object(seq![(k1@, v1@), (k2@, v2@), (k3@, v3@)]),
{
    broadcast use lemma_object_view;

    let fields = vec![
        (k1.to_owned(), v1),
        (k2.to_owned(), v2),
        (k3.to_owned(), v3),
    ];
    assert(fields_view(fields@) =~= seq![(k1@, v1@), (k2@, v2@), (k3@, v3@)]);
    Json::Object(fields)
}

/// An object of four fields.
pub fn object4(
    k1: &str,
    v1: Json,
    k2: &str,
    v2: Json,
    k3: &str,
    v3: Json,
    k4: &str,
    v4: Json,
) -> (r: Json)
    ensures
        r@ == JsonView::Object(seq![(k1@, v1@), (k2@, v2@), (k3@, v3@), (k4@, v4@)]),
{
    broadcast use lemma_object_view;

    let fields = vec![
        (k1.to_owned(), v1),
        (k2.to_owned(), v2),
        (k3.to_owned(), v3),
        (k4.to_owned(), v4),
    ];
    assert(fields_view(fields@) =~= seq![(k1@, v1@), (k2@, v2@), (k3@, v3@), (k4@, v4@)]);
    Json::Object(fields)
}

/// An object of five fields.
pub fn object5(
    k1: &str,
    v1: Json,
    k2: &str,
    v2: Json,
    k3: &str,
    v3: Json,
    k4: &str,
    v4: Json,
    k5: &str,
    v5: Json,
) -> (r: Json)
    ensures
        r@ == JsonView::Object(seq![(k1@, v1@), (k2@, v2@), (k3@, v3@), (k4@, v4@), (k5@, v5@)]),
{
    broadcast use lemma_object_view;

    let fields = vec![
        (k1.to_owned(), v1),
        (k2.to_owned(), v2),
        (k3.to_owned(), v3),
        (k4.to_owned(), v4),
        (k5.to_owned(), v5),
    ];
    assert(fields_view(fields@) =~= seq![(k1@, v1@), (k2@, v2@), (k3@, v3@), (k4@, v4@), (k5@, v5@)]);
    Json::Object(fields)
}

/// A text value.
pub fn text(t: &str) -> (r: Json)
    ensures
        r@ == JsonView::Text(t@),
{
    Json::Text(t.to_owned())
}

impl Json {
    /// The field `key` of an object; nothing where this is no object or has no such field.
    pub fn get(&self, key: &str) -> (r: Option<&Json>)
        ensures
            opt_view(r) == self@.get(key@),
    {
        broadcast use lemma_object_view;

        match self {
            Json::Object(fields) => {
                let mut i: usize = 0;
                assert(fields_view(fields@).skip(0) =~= fields_view(fields@));
                while i < fields.len()
                    invariant
                        i <= fields@.len(),
                        lookup(fields_view(fields@), key@) == lookup(
                            fields_view(fields@).skip(i as int),
                            key@,
                        ),
                        self@ == JsonView::Object(fields_view(fields@)),
                    decreases fields@.len() - i,
                {
                    if same(fields[i].0.as_str(), key) {
                        return Some(&fields[i].1);
                    }
                    assert(fields_view(fields@).skip(i as int).drop_first() =~= fields_view(
                        fields@,
                    ).skip(i + 1));
                    i += 1;
                }
                None
            },
            _ => None,
        }
    }

    /// The text in the field `key`, `default` where there is no such field or it holds no text.
    pub fn text_at(&self, key: &str, default: &str) -> (r: String)
        ensures
            r@ == self@.at(key@).text_or(default@),
    {
        match self.get(key) {
            Some(Json::Text(t)) => t.clone(),
            _ => default.to_owned(),
        }
    }

    /// The text in the field `key`.
    pub fn opt_text_at(&self, key: &str) -> (r: Option<String>)
        ensures
            match r {
                Some(t) => self@.at(key@).as_text() == Some(t@),
                None => self@.at(key@).as_text() is None,
            },
    {
        match self.get(key) {
            Some(Json::Text(t)) => Some(t.clone()),
            _ => None,
        }
    }

    /// A copy of the field `key`, `Null` where there is none.
    pub fn copy_at(&self, key: &str) -> (r: Json)
        ensures
            r@ == self@.at(key@),
    {
        match self.get(key) {
            Some(v) => v.copy(),
            None => Json::Null,
        }
    }

    /// The items of the array in the field `key`.
    pub fn array_at(&self, key: &str) -> (r: Option<&Vec<Json>>)
        ensures
            match r {
                Some(items) => self@.at(key@).as_array() == Some(items_view(items@)),
                None => self@.at(key@).as_array() is None,
            },
    {
        broadcast use lemma_array_view;

        match self.get(key) {
            Some(Json::Array(items)) => Some(items),
            _ => None,
        }
    }
}

/// A field is found by its name: the first of that name counts, and without one there is nothing.
pub proof fn law_fields_go_by_name(fields: Seq<(Seq<char>, JsonView)>, key: Seq<char>)
    ensures
        forall|i: int|
            0 <= i < fields.len() && (#[trigger] fields[i]).0 == key && (forall|j: int|
                0 <= j < i ==> (#[trigger] fields[j]).0 != key) ==> JsonView::Object(fields).get(key)
                == Some(fields[i].1) && JsonView::Object(fields).at(key) == fields[i].1,
        (forall|j: int| 0 <= j < fields.len() ==> (#[trigger] fields[j]).0 != key)
            ==> JsonView::Object(fields).get(key) is None && JsonView::Object(fields).at(key) is Null,
    decreases fields.len(),
{
    if fields.len() > 0 {
        let rest = fields.drop_first();
        law_fields_go_by_name(rest, key);
        assert forall|i: int|
            0 <= i < fields.len() && (#[trigger] fields[i]).0 == key && (forall|j: int|
                0 <= j < i ==> (#[trigger] fields[j]).0 != key) implies JsonView::Object(fields).get(
            key,
        ) == Some(fields[i].1) by {
            if i > 0 {
                assert(fields[0].0 != key);
                assert(rest[i - 1] == fields[i]);
                assert forall|j: int| 0 <= j < i - 1 implies (#[trigger] rest[j]).0 != key by {
                    assert(rest[j] == fields[j + 1]);
                }
            }
        }
        if forall|j: int| 0 <= j < fields.len() ==> (#[trigger] fields[j]).0 != key {
            assert(fields[0].0 != key);
            assert forall|j: int| 0 <= j < rest.len() implies (#[trigger] rest[j]).0 != key by {
                assert(rest[j] == fields[j + 1]);
            }
        }
    }
}

/// What is no object has no field, and what is no text or array is not taken for one.
pub proof fn law_shapes_are_told_apart(v: JsonView, key: Seq<char>, default: Seq<char>)
    ensures
        !(v is Object) ==> v.get(key) is None && v.at(key) is Null,
        v.as_text() is Some <==> v is Text,
        v.as_array() is Some <==> v is Array,
        v matches JsonView::Text(t) ==> v.as_text() == Some(t) && v.text_or(default) == t,
        !(v is Text) ==> v.text_or(default) == default,
        v matches JsonView::Array(items) ==> v.as_array() == Some(items) && v.first() == (
        if items.len() > 0 {
            Some(items[0])
        } else {
            None
        }),
        !(v is Array) ==> v.first() is None,
{
}

} // verus!
