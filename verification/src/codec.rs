//! The text and byte forms of JSON values, and checksums over bytes.
//!
//! The forms themselves come from `serde_json`, `rmp_serde` and `crc32fast`. Their results are
//! named by spec functions, so that a contract can say exactly what was handed to them and what
//! became of what they returned.

use crate::json::{items_view, lemma_array_view, lookup, Json, JsonView};
use vstd::prelude::*;
use vstd::utf8::encode_utf8;

verus! {

/// The value type of `serde_json`.
#[verifier::external_type_specification]
#[verifier::external_body]
pub struct ExValue(serde_json::Value);

/// What a `serde_json::Value` holds.
pub uninterp spec fn value_view(v: serde_json::Value) -> JsonView;

/// What a `serde_json::Value` holds that was built from `v`: a field's name occurs once, with the
/// value it had last, and the fields stand in the order of their names.
pub uninterp spec fn value_of(v: JsonView) -> JsonView;

/// The value that `serde_json` reads from `text`; where `text` is not JSON, what `serde_json` says
/// about it.
pub uninterp spec fn json_read(text: Seq<char>) -> Result<JsonView, Seq<char>>;

/// The value that `serde_json` reads from `bytes`; nothing where `bytes` are not JSON.
pub uninterp spec fn json_bytes_parsed(bytes: Seq<u8>) -> Option<JsonView>;

/// The compact JSON text that `serde_json` writes for a value.
pub uninterp spec fn json_text(v: JsonView) -> Seq<char>;

/// The value that `rmp_serde` reads from the front of `bytes`; nothing where no MessagePack value
/// that JSON can hold stands there.
pub uninterp spec fn msgpack_parsed(bytes: Seq<u8>) -> Option<JsonView>;

/// The list of values that `rmp_serde` reads from the front of `bytes`; nothing where no MessagePack
/// list of values that JSON can hold stands there.
pub uninterp spec fn msgpack_list(bytes: Seq<u8>) -> Option<Seq<JsonView>>;

/// The MessagePack bytes that `rmp_serde` writes for a value.
pub uninterp spec fn msgpack_bytes(v: JsonView) -> Seq<u8>;

/// The CRC-32 checksum of `bytes`, as `crc32fast` computes it.
pub uninterp spec fn crc32_of(bytes: Seq<u8>) -> u32;

/// The value that `serde_json` reads from `text`; nothing where `text` is not JSON.
pub open spec fn json_parsed(text: Seq<char>) -> Option<JsonView> {
    match json_read(text) {
        Ok(v) => Some(v),
        Err(_) => None,
    }
}

/// `a` comes before `b` in the order of characters.
pub open spec fn text_before(a: Seq<char>, b: Seq<char>) -> bool
    decreases a.len(),
{
    if b.len() == 0 {
        false
    } else if a.len() == 0 {
        true
    } else if a[0] == b[0] {
        text_before(a.drop_first(), b.drop_first())
    } else {
        a[0] < b[0]
    }
}

/// `v` is written the one way that a `serde_json::Value` has for it: negative numbers alone are
/// `Int`, a `Float` has the text that `serde_json` gives the number, and the names of an object's
/// fields ascend.
pub open spec fn canonical(v: JsonView) -> bool
    decreases v,
{
    match v {
        JsonView::Int(n) => n < 0,
        JsonView::Float(t) => value_of(JsonView::Float(t)) == JsonView::Float(t),
        JsonView::Array(items) => forall|i: int|
            0 <= i < items.len() ==> canonical(#[trigger] items[i]),
        JsonView::Object(fields) => {
            &&& forall|i: int|
                0 <= i < fields.len() ==> canonical((#[trigger] fields[i]).1)
            &&& forall|i: int, j: int|
                0 <= i < j < fields.len() ==> text_before(
                    (#[trigger] fields[i]).0,
                    (#[trigger] fields[j]).0,
                )
        },
        _ => true,
    }
}

/// The name of a field that `serde_json` keeps for itself: an object that begins with it is read as
/// the JSON text that the field holds.
pub open spec fn reserved_name() -> Seq<char> {
    "$serde_json::private::RawValue"@
}

/// An object with these fields begins with the name that `serde_json` keeps for itself.
pub open spec fn begins_reserved(fields: Seq<(Seq<char>, JsonView)>) -> bool {
    fields.len() > 0 && fields[0].0 == reserved_name()
}

/// `v` nests at most `levels` deep, the length of every text, array and object in it can be written
/// in a MessagePack length field, and no object in it begins with the name that `serde_json` keeps
/// for itself.
pub open spec fn fits(v: JsonView, levels: nat) -> bool
    decreases levels,
{
    match v {
        JsonView::Text(t) => encode_utf8(t).len() <= u32::MAX,
        JsonView::Array(items) => {
            &&& levels > 0
            &&& items.len() <= u32::MAX
            &&& forall|i: int|
                0 <= i < items.len() ==> fits(#[trigger] items[i], (levels - 1) as nat)
        },
        JsonView::Object(fields) => {
            &&& levels > 0
            &&& fields.len() <= u32::MAX
            &&& !begins_reserved(fields)
            &&& forall|i: int|
                0 <= i < fields.len() ==> encode_utf8((#[trigger] fields[i]).0).len() <= u32::MAX
                    && fits(fields[i].1, (levels - 1) as nat)
        },
        _ => true,
    }
}

/// `v` is canonical but for its floats.
pub open spec fn ordered(v: JsonView) -> bool
    decreases v,
{
    match v {
        JsonView::Int(n) => n < 0,
        JsonView::Array(items) => forall|i: int|
            0 <= i < items.len() ==> ordered(#[trigger] items[i]),
        JsonView::Object(fields) => {
            &&& forall|i: int|
                0 <= i < fields.len() ==> ordered((#[trigger] fields[i]).1)
            &&& forall|i: int, j: int|
                0 <= i < j < fields.len() ==> text_before(
                    (#[trigger] fields[i]).0,
                    (#[trigger] fields[j]).0,
                )
        },
        _ => true,
    }
}

/// `b` is `a`, but that a float in it can be another float, or nothing.
pub open spec fn alike(a: JsonView, b: JsonView) -> bool
    decreases a,
{
    match a {
        JsonView::Float(_) => b is Float || b is Null,
        JsonView::Array(items) => match b {
            JsonView::Array(others) => items.len() == others.len() && forall|i: int|
                0 <= i < items.len() ==> alike(#[trigger] items[i], others[i]),
            _ => false,
        },
        JsonView::Object(fields) => match b {
            JsonView::Object(others) => fields.len() == others.len() && forall|i: int|
                0 <= i < fields.len() ==> (#[trigger] fields[i]).0 == others[i].0 && alike(
                    fields[i].1,
                    others[i].1,
                ),
            _ => false,
        },
        _ => a == b,
    }
}

/// `v` nests at most `levels` deep, and no object in it begins with the name that `serde_json` keeps
/// for itself.
pub open spec fn readable(v: JsonView, levels: nat) -> bool
    decreases levels,
{
    match v {
        JsonView::Array(items) => {
            &&& levels > 0
            &&& forall|i: int|
                0 <= i < items.len() ==> readable(#[trigger] items[i], (levels - 1) as nat)
        },
        JsonView::Object(fields) => {
            &&& levels > 0
            &&& !begins_reserved(fields)
            &&& forall|i: int|
                0 <= i < fields.len() ==> readable((#[trigger] fields[i]).1, (levels - 1) as nat)
        },
        _ => true,
    }
}

/// The field of a canonical object is canonical.
pub proof fn lemma_canonical_field(v: JsonView, key: Seq<char>)
    requires
        canonical(v),
    ensures
        v.get(key) matches Some(x) ==> canonical(x),
{
    if let JsonView::Object(fields) = v {
        lemma_canonical_lookup(fields, key);
    }
}

/// What is found among canonical values is canonical.
proof fn lemma_canonical_lookup(fields: Seq<(Seq<char>, JsonView)>, key: Seq<char>)
    requires
        forall|i: int| 0 <= i < fields.len() ==> canonical((#[trigger] fields[i]).1),
    ensures
        lookup(fields, key) matches Some(x) ==> canonical(x),
    decreases fields.len(),
{
    if fields.len() > 0 && fields[0].0 != key {
        let rest = fields.drop_first();
        assert forall|i: int| 0 <= i < rest.len() implies canonical((#[trigger] rest[i]).1) by {
            assert(rest[i] == fields[i + 1]);
        }
        lemma_canonical_lookup(rest, key);
    }
}

/// How deep a value may nest for `rmp_serde` to read back what it wrote.
pub const MAX_LEVELS: u16 = 1023;

/// How deep a value may nest for `serde_json` to read back what it wrote.
pub const MAX_TEXT_LEVELS: u16 = 127;

/// Takes a `serde_json::Value` apart. It claims that the JSON value built from the parts is what
/// `value_view` says the value holds, written the one way there is for it.
#[verifier::external_body]
fn from_value(v: serde_json::Value) -> (r: Json)
    ensures
        r@ == value_view(v),
        canonical(r@),
{
    match v {
        serde_json::Value::Null => Json::Null,
        serde_json::Value::Bool(b) => Json::Bool(b),
        serde_json::Value::Number(n) => match (n.as_u64(), n.as_i64()) {
            (Some(u), _) => Json::Uint(u),
            (_, Some(i)) => Json::Int(i),
            _ => Json::Float(n.to_string()),
        },
        serde_json::Value::String(s) => Json::Text(s),
        serde_json::Value::Array(a) => Json::Array(a.into_iter().map(from_value).collect()),
        serde_json::Value::Object(o) => {
            Json::Object(o.into_iter().map(|(k, x)| (k, from_value(x))).collect())
        },
    }
}

/// Builds a `serde_json::Value`. It claims that the value holds what `value_of` says, that a
/// canonical value is held as it stands, and one that is canonical but for its floats is held as it
/// stands but for these: a text that is no finite number is held as nothing.
#[verifier::external_body]
fn to_value(v: &Json) -> (r: serde_json::Value)
    ensures
        value_view(r) == value_of(v@),
        canonical(v@) ==> value_view(r) == v@,
        ordered(v@) ==> alike(v@, value_view(r)),
{
    match v {
        Json::Null => serde_json::Value::Null,
        Json::Bool(b) => serde_json::Value::Bool(*b),
        Json::Uint(n) => serde_json::Value::from(*n),
        Json::Int(n) => serde_json::Value::from(*n),
        Json::Float(t) => serde_json::Value::from(
            t.parse().ok().and_then(serde_json::Number::from_f64),
        ),
        Json::Text(t) => serde_json::Value::String(t.clone()),
        Json::Array(a) => serde_json::Value::Array(a.iter().map(to_value).collect()),
        Json::Object(o) => {
            serde_json::Value::Object(o.iter().map(|f| (f.0.clone(), to_value(&f.1))).collect())
        },
    }
}

/// Calls `serde_json::from_str`. It claims that the outcome, the words of the error among it,
/// depends on the text alone and names it `json_read`.
#[verifier::external_body]
fn read_json(text: &str) -> (r: Result<serde_json::Value, String>)
    ensures
        match r {
            Ok(v) => json_read(text@) == Ok::<JsonView, Seq<char>>(value_view(v)),
            Err(e) => json_read(text@) == Err::<JsonView, Seq<char>>(e@),
        },
{
    serde_json::from_str(text).map_err(|e: serde_json::Error| e.to_string())
}

/// Calls `serde_json::from_slice`. It claims that the outcome depends on the bytes alone and names
/// it `json_bytes_parsed`.
#[verifier::external_body]
fn read_json_bytes(bytes: &[u8]) -> (r: Option<serde_json::Value>)
    ensures
        match r {
            Some(v) => json_bytes_parsed(bytes@) == Some(value_view(v)),
            None => json_bytes_parsed(bytes@) is None,
        },
{
    serde_json::from_slice(bytes).ok()
}

/// Calls `serde_json::to_string`. It claims that the text depends on what the value holds alone and
/// names it `json_text`, and that reading the text of a readable value gives the value back but for
/// its floats, which `serde_json` does not read to the last bit. No float is refused: its text has at
/// most seventeen digits, and what is read for the largest of them is still finite.
#[verifier::external_body]
fn write_json(v: &serde_json::Value) -> (r: String)
    ensures
        r@ == json_text(value_view(*v)),
        readable(value_view(*v), MAX_TEXT_LEVELS as nat) ==> json_read(r@) is Ok && alike(
            value_view(*v),
            json_read(r@)->Ok_0,
        ),
{
    serde_json::to_string(v).unwrap_or_default()
}

/// Calls `rmp_serde::from_slice`. It claims that the outcome depends on the bytes alone and names
/// it `msgpack_parsed`.
#[verifier::external_body]
fn read_msgpack(bytes: &[u8]) -> (r: Option<serde_json::Value>)
    ensures
        match r {
            Some(v) => msgpack_parsed(bytes@) == Some(value_view(v)),
            None => msgpack_parsed(bytes@) is None,
        },
{
    rmp_serde::from_slice(bytes).ok()
}

/// Calls `rmp_serde::from_slice` for a list of values. It claims that the outcome depends on the
/// bytes alone and names it `msgpack_list`.
#[verifier::external_body]
fn read_msgpack_list(bytes: &[u8]) -> (r: Option<serde_json::Value>)
    ensures
        match r {
            Some(v) => value_view(v) matches JsonView::Array(items) && msgpack_list(bytes@) == Some(
                items,
            ),
            None => msgpack_list(bytes@) is None,
        },
{
    rmp_serde::from_slice(bytes).ok().map(serde_json::Value::Array)
}

/// Calls `rmp_serde::to_vec`. It claims that the bytes, where they are written, depend on what the
/// value holds alone, and that reading them, as a value or as a list, gives the value back where it
/// nests at most `MAX_LEVELS` deep, every length in it can be written, and no object begins with the
/// name that `serde_json` keeps for itself. That they are written is not claimed: the call fails where memory
/// runs out, and nothing is claimed of the words it fails with.
#[verifier::external_body]
fn write_msgpack(v: &serde_json::Value) -> (r: Result<Vec<u8>, String>)
    ensures
        match r {
            Ok(bytes) => {
                &&& bytes@ == msgpack_bytes(value_view(*v))
                &&& fits(value_view(*v), MAX_LEVELS as nat) ==> msgpack_parsed(bytes@) == Some(
                    value_view(*v),
                )
                &&& fits(value_view(*v), MAX_LEVELS as nat) && value_view(*v) is Array
                    ==> msgpack_list(bytes@) == value_view(*v).as_array()
            },
            Err(_) => true,
        },
{
    rmp_serde::to_vec(v).map_err(|e| e.to_string())
}

/// Calls `crc32fast::hash`. It claims that the checksum depends on the bytes alone and names it
/// `crc32_of`.
#[verifier::external_body]
pub(crate) fn crc32(bytes: &[u8]) -> (r: u32)
    ensures
        r == crc32_of(bytes@),
{
    crc32fast::hash(bytes)
}

/// Reads a JSON text.
pub fn parse_json(text: &str) -> (r: Option<Json>)
    ensures
        match r {
            Some(v) => json_parsed(text@) == Some(v@) && canonical(v@),
            None => json_parsed(text@) is None,
        },
{
    match read_json(text) {
        Ok(v) => Some(from_value(v)),
        Err(_) => None,
    }
}

/// Reads a JSON text, and tells what is wrong with it where it is none.
pub fn try_parse_json(text: &str) -> (r: Result<Json, String>)
    ensures
        match r {
            Ok(v) => json_read(text@) == Ok::<JsonView, Seq<char>>(v@) && canonical(v@),
            Err(e) => json_read(text@) == Err::<JsonView, Seq<char>>(e@),
        },
{
    match read_json(text) {
        Ok(v) => Ok(from_value(v)),
        Err(e) => Err(e),
    }
}

/// Reads a JSON text given by its bytes.
pub fn parse_json_bytes(bytes: &[u8]) -> (r: Option<Json>)
    ensures
        match r {
            Some(v) => json_bytes_parsed(bytes@) == Some(v@) && canonical(v@),
            None => json_bytes_parsed(bytes@) is None,
        },
{
    match read_json_bytes(bytes) {
        Some(v) => Some(from_value(v)),
        None => None,
    }
}

/// The compact JSON text of a value.
pub fn render_json(v: &Json) -> (r: String)
    ensures
        r@ == json_text(value_of(v@)),
        canonical(v@) ==> r@ == json_text(v@),
        ordered(v@) ==> alike(v@, value_of(v@)),
        readable(value_of(v@), MAX_TEXT_LEVELS as nat) ==> json_read(r@) is Ok && alike(
            value_of(v@),
            json_read(r@)->Ok_0,
        ),
{
    write_json(&to_value(v))
}

/// The JSON text of a text.
pub fn quote_json(t: &str) -> (r: String)
    ensures
        r@ == json_text(JsonView::Text(t@)),
{
    render_json(&Json::Text(t.to_owned()))
}

/// Reads the MessagePack value at the front of `bytes`.
pub fn decode_msgpack(bytes: &[u8]) -> (r: Option<Json>)
    ensures
        match r {
            Some(v) => msgpack_parsed(bytes@) == Some(v@) && canonical(v@),
            None => msgpack_parsed(bytes@) is None,
        },
{
    match read_msgpack(bytes) {
        Some(v) => Some(from_value(v)),
        None => None,
    }
}

/// Reads the MessagePack list at the front of `bytes`.
pub fn decode_msgpack_list(bytes: &[u8]) -> (r: Option<Vec<Json>>)
    ensures
        match r {
            Some(items) => {
                &&& msgpack_list(bytes@) == Some(items_view(items@))
                &&& forall|i: int| 0 <= i < items@.len() ==> canonical(#[trigger] items@[i]@)
            },
            None => msgpack_list(bytes@) is None,
        },
{
    broadcast use lemma_array_view;

    match read_msgpack_list(bytes) {
        Some(v) => match from_value(v) {
            Json::Array(items) => {
                assert(canonical(Json::Array(items)@));
                assert forall|i: int| 0 <= i < items@.len() implies canonical(
                    #[trigger] items@[i]@,
                ) by {
                    assert(items_view(items@)[i] == items@[i]@);
                }
                Some(items)
            },
            _ => None,
        },
        None => None,
    }
}

/// The MessagePack bytes of a value; what went wrong where the memory for them cannot be had.
pub fn encode_msgpack(v: &Json) -> (r: Result<Vec<u8>, String>)
    ensures
        match r {
            Ok(bytes) => {
                &&& bytes@ == msgpack_bytes(value_of(v@))
                &&& canonical(v@) ==> bytes@ == msgpack_bytes(v@)
                &&& canonical(v@) && fits(v@, MAX_LEVELS as nat) ==> msgpack_parsed(bytes@)
                    == Some(v@)
                &&& canonical(v@) && fits(v@, MAX_LEVELS as nat) && v@ is Array ==> msgpack_list(
                    bytes@,
                ) == v@.as_array()
            },
            Err(_) => true,
        },
{
    write_msgpack(&to_value(v))
}

/// The first character in which two texts differ decides which comes first, and the shorter comes
/// first where there is none.
pub proof fn law_first_difference_decides(
    front: Seq<char>,
    x: char,
    y: char,
    a: Seq<char>,
    b: Seq<char>,
)
    ensures
        x < y ==> text_before(front + seq![x] + a, front + seq![y] + b) && !text_before(
            front + seq![y] + b,
            front + seq![x] + a,
        ),
        text_before(front, front + seq![x] + a) && !text_before(front + seq![x] + a, front),
        !text_before(front, front),
    decreases front.len(),
{
    let p = front + seq![x] + a;
    let q = front + seq![y] + b;
    if front.len() > 0 {
        law_first_difference_decides(front.drop_first(), x, y, a, b);
        assert(p.drop_first() =~= front.drop_first() + seq![x] + a);
        assert(q.drop_first() =~= front.drop_first() + seq![y] + b);
        assert(p[0] == front[0] && q[0] == front[0]);
    } else {
        assert(p[0] == x && q[0] == y);
    }
}

} // verus!
