//! The library's generic value representation.
//!
//! The vector index stores each record as a map from field names to loosely
//! typed values, and several record kinds arrive as JSON documents.  Both are
//! modelled by [`JsonValue`], a tree of plain values that contracts can speak
//! about directly.  Parsing JSON text is delegated to an outside parser
//! behind trusted wrappers; everything that reads or builds a `JsonValue`
//! afterwards is verified.

use vstd::prelude::*;
use crate::strutil::{chars_of, push_char, string_from};

verus! {

/// A JSON-like value: the generic field representation used by the payload
/// codec and the structured-record decoders.
///
/// Numbers that fit an `i64` are held as `Num`; any other number keeps its
/// decimal text in `BigNum`.
#[derive(Debug)]
pub enum JsonValue {
    Null,
    Bool(bool),
    Num(i64),
    BigNum(String),
    Str(String),
    Arr(Vec<JsonValue>),
    Obj(Vec<(String, JsonValue)>),
}

#[verifier::external_type_specification]
#[verifier::external_body]
pub struct ExSerdeValue(serde_json::Value);

/// The value that parsing `s` as a JSON document yields, or `None` when `s`
/// is not valid JSON.  Parsing is a function of the input text alone.
pub uninterp spec fn json_of(s: Seq<char>) -> Option<JsonValue>;

/// The [`JsonValue`] that a parsed outside tree stands for.
pub uninterp spec fn value_model(v: serde_json::Value) -> JsonValue;

/// Relies on `serde_json::from_str::<serde_json::Value>`: parses a JSON
/// document; the result depends on the input text alone.
#[verifier::external_body]
fn parse_value(s: &str) -> (r: Option<serde_json::Value>)
    ensures
        r matches Some(v) ==> json_of(s@) == Some(value_model(v)),
        r is None ==> json_of(s@) is None,
{
    serde_json::from_str::<serde_json::Value>(s).ok()
}

/// Relies on `serde_json::Value` and `serde_json::Number::as_i64`: converts
/// the outside tree into the library's own values, one arm per variant.
#[verifier::external_body]
fn value_to_json(v: serde_json::Value) -> (r: JsonValue)
    ensures
        r == value_model(v),
{
    match v {
        serde_json::Value::Null => JsonValue::Null,
        serde_json::Value::Bool(b) => JsonValue::Bool(b),
        serde_json::Value::Number(n) => match n.as_i64() {
            Some(i) => JsonValue::Num(i),
            None => JsonValue::BigNum(n.to_string()),
        },
        serde_json::Value::String(s) => JsonValue::Str(s),
        serde_json::Value::Array(items) => JsonValue::Arr(items.into_iter().map(value_to_json).collect()),
        serde_json::Value::Object(fields) => JsonValue::Obj(fields.into_iter().map(|(k, f)| (k, value_to_json(f))).collect()),
    }
}

/// Parses a JSON document into the library's value representation.
pub fn parse_json(s: &str) -> (r: Option<JsonValue>)
    ensures
        r == json_of(s@),
{
    match parse_value(s) {
        Some(v) => Some(value_to_json(v)),
        None => None,
    }
}

/// The mathematical shape of a [`JsonValue`]: the same tree over sequences,
/// which contracts and spec functions work with.
pub ghost enum JsonData {
    Null,
    Bool(bool),
    Num(i64),
    BigNum(Seq<char>),
    Str(Seq<char>),
    Arr(Seq<JsonData>),
    Obj(Seq<(Seq<char>, JsonData)>),
}

/// The [`JsonData`] a [`JsonValue`] stands for.
pub open spec fn json_view(v: JsonValue) -> JsonData
    decreases v,
{
    match v {
        JsonValue::Null => JsonData::Null,
        JsonValue::Bool(b) => JsonData::Bool(b),
        JsonValue::Num(n) => JsonData::Num(n),
        JsonValue::BigNum(s) => JsonData::BigNum(s@),
        JsonValue::Str(s) => JsonData::Str(s@),
        JsonValue::Arr(items) => JsonData::Arr(
            // The guard only serves the termination check: `Seq::new` reads
            // the closure at indices inside the vector alone.
            Seq::new(
                items@.len(),
                |i: int|
                    if 0 <= i < items@.len() {
                        json_view(items@[i])
                    } else {
                        JsonData::Null
                    },
            ),
        ),
        JsonValue::Obj(fields) => JsonData::Obj(
            Seq::new(
                fields@.len(),
                |i: int|
                    if 0 <= i < fields@.len() {
                        (fields@[i].0@, json_view(fields@[i].1))
                    } else {
                        (Seq::empty(), JsonData::Null)
                    },
            ),
        ),
    }
}

impl View for JsonValue {
    type V = JsonData;

    open spec fn view(&self) -> JsonData {
        json_view(*self)
    }
}

/// An object value's view is the view of its fields.
pub proof fn lemma_view_obj(v: JsonValue)
    requires
        v is Obj,
    ensures
        json_view(v) == JsonData::Obj(obj_view(v->Obj_0@)),
{
    assert(json_view(v)->Obj_0 =~= obj_view(v->Obj_0@));
}

/// The shape of the fields of an object value.
pub open spec fn obj_view(fields: Seq<(String, JsonValue)>) -> Seq<(Seq<char>, JsonData)> {
    Seq::new(fields.len(), |i: int| (fields[i].0@, json_view(fields[i].1)))
}

/// The value that parsing yields, viewed as [`JsonData`].
pub open spec fn json_data_of(s: Seq<char>) -> Option<JsonData> {
    match json_of(s) {
        Some(v) => Some(json_view(v)),
        None => None,
    }
}

/// The value of the first field named `key`, if any.  Objects that came
/// through the parser have unique keys, so this is the value of `key`.
pub open spec fn spec_obj_get(fields: Seq<(Seq<char>, JsonData)>, key: Seq<char>) -> Option<
    JsonData,
>
    decreases fields.len(),
{
    if fields.len() == 0 {
        None
    } else if fields[0].0 == key {
        Some(fields[0].1)
    } else {
        spec_obj_get(fields.skip(1), key)
    }
}

/// Looks a field up by name.
pub fn obj_get<'a>(fields: &'a Vec<(String, JsonValue)>, key: &str) -> (r: Option<&'a JsonValue>)
    ensures
        r matches Some(v) ==> spec_obj_get(obj_view(fields@), key@) == Some(json_view(*v)),
        r is None ==> spec_obj_get(obj_view(fields@), key@) is None,
{
    let ghost m = obj_view(fields@);
    let mut i: usize = 0;
    assert(m.skip(0) =~= m);
    while i < fields.len()
        invariant
            m == obj_view(fields@),
            i <= fields@.len(),
            spec_obj_get(m, key@) == spec_obj_get(m.skip(i as int), key@),
        decreases fields@.len() - i,
    {
        assert(m.skip(i as int)[0] == m[i as int]);
        if crate::strutil::string_eq_str(&fields[i].0, key) {
            return Some(&fields[i].1);
        }
        assert(m.skip(i as int).skip(1) =~= m.skip(i + 1));
        i = i + 1;
    }
    None
}

/// The string content of a `Str` value.
pub open spec fn spec_as_str(v: Option<JsonData>) -> Option<Seq<char>> {
    match v {
        Some(JsonData::Str(s)) => Some(s),
        _ => None,
    }
}

/// The string field named `key`, if present with a string value.
pub fn obj_get_str(fields: &Vec<(String, JsonValue)>, key: &str) -> (r: Option<String>)
    ensures
        r matches Some(s) ==> spec_as_str(spec_obj_get(obj_view(fields@), key@)) == Some(s@),
        r is None ==> spec_as_str(spec_obj_get(obj_view(fields@), key@)) is None,
{
    match obj_get(fields, key) {
        Some(JsonValue::Str(s)) => Some(s.clone()),
        _ => None,
    }
}

/// The number content of a `Num` value.
pub open spec fn spec_as_num(v: Option<JsonData>) -> Option<i64> {
    match v {
        Some(JsonData::Num(n)) => Some(n),
        _ => None,
    }
}

/// The number field named `key`, if present with an `i64` value.
pub fn obj_get_num(fields: &Vec<(String, JsonValue)>, key: &str) -> (r: Option<i64>)
    ensures
        r == spec_as_num(spec_obj_get(obj_view(fields@), key@)),
{
    match obj_get(fields, key) {
        Some(JsonValue::Num(n)) => Some(*n),
        _ => None,
    }
}

/// One character escaped for inclusion in a JSON string literal, as the
/// outside serializers write it: quote, backslash and the named control
/// characters get a two-character escape, other control characters the
/// `\u00XX` form, and everything else stands for itself.
pub open spec fn spec_escape_char(c: char) -> Seq<char> {
    if c == '"' {
        seq!['\\', '"']
    } else if c == '\\' {
        seq!['\\', '\\']
    } else if c == '\n' {
        seq!['\\', 'n']
    } else if c == '\r' {
        seq!['\\', 'r']
    } else if c == '\t' {
        seq!['\\', 't']
    } else if c == (8u8 as char) {
        seq!['\\', 'b']
    } else if c == (12u8 as char) {
        seq!['\\', 'f']
    } else if c < (32u8 as char) {
        seq!['\\', 'u', '0', '0', spec_hex_digit(c as int / 16), spec_hex_digit(c as int % 16)]
    } else {
        seq![c]
    }
}

/// The lower-case hexadecimal digit for `d`.
pub open spec fn spec_hex_digit(d: int) -> char {
    if d < 10 {
        ((48 + d) as u8) as char
    } else {
        ((87 + d) as u8) as char
    }
}

/// `s` escaped character by character.
pub open spec fn spec_escape(s: Seq<char>) -> Seq<char>
    decreases s.len(),
{
    if s.len() == 0 {
        s
    } else {
        spec_escape_char(s[0]) + spec_escape(s.skip(1))
    }
}

fn hex_digit(d: u8) -> (r: char)
    requires
        d < 16,
    ensures
        r == spec_hex_digit(d as int),
{
    if d < 10 {
        ((48 + d) as char)
    } else {
        ((87 + d) as char)
    }
}

fn escape_char_into(out: &mut Vec<char>, c: char)
    ensures
        final(out)@ == old(out)@ + spec_escape_char(c),
{
    if c == '"' {
        out.push('\\');
        out.push('"');
    } else if c == '\\' {
        out.push('\\');
        out.push('\\');
    } else if c == '\n' {
        out.push('\\');
        out.push('n');
    } else if c == '\r' {
        out.push('\\');
        out.push('r');
    } else if c == '\t' {
        out.push('\\');
        out.push('t');
    } else if c == (8u8 as char) {
        out.push('\\');
        out.push('b');
    } else if c == (12u8 as char) {
        out.push('\\');
        out.push('f');
    } else if c < (32u8 as char) {
        out.push('\\');
        out.push('u');
        out.push('0');
        out.push('0');
        let code: u8 = c as u8;
        out.push(hex_digit(code / 16));
        out.push(hex_digit(code % 16));
    } else {
        out.push(c);
    }
    assert(final(out)@ =~= old(out)@ + spec_escape_char(c));
}

/// A JSON string literal holding `s`: quotes around the escaped characters.
pub open spec fn spec_quote(s: Seq<char>) -> Seq<char> {
    seq!['"'] + spec_escape(s) + seq!['"']
}

pub fn quote_str(s: &str) -> (r: String)
    ensures
        r@ == spec_quote(s@),
{
    let cs = chars_of(s);
    let mut out: Vec<char> = Vec::new();
    out.push('"');
    let mut i: usize = 0;
    while i < cs.len()
        invariant
            cs@ == s@,
            i <= s@.len(),
            out@ == seq!['"'] + spec_escape(s@.subrange(0, i as int)),
        decreases cs@.len() - i,
    {
        proof {
            lemma_escape_snoc(s@, i as int);
        }
        escape_char_into(&mut out, cs[i]);
        i = i + 1;
    }
    assert(s@.subrange(0, s@.len() as int) =~= s@);
    out.push('"');
    assert(out@ =~= spec_quote(s@));
    string_from(&out)
}

proof fn lemma_escape_snoc(s: Seq<char>, i: int)
    requires
        0 <= i < s.len(),
    ensures
        spec_escape(s.subrange(0, i + 1)) == spec_escape(s.subrange(0, i)) + spec_escape_char(
            s[i],
        ),
    decreases i + 1,
{
    if i == 0 {
        assert(s.subrange(0, 1).skip(1) =~= Seq::<char>::empty());
        assert(spec_escape(Seq::<char>::empty()) =~= Seq::<char>::empty());
        assert(s.subrange(0, 1)[0] == s[0]);
        assert(s.subrange(0, 0).len() == 0);
        assert(spec_escape(s.subrange(0, 1)) =~= spec_escape_char(s[0]));
        assert(spec_escape(s.subrange(0, 0)) + spec_escape_char(s[0]) =~= spec_escape_char(s[0]));
    } else {
        lemma_escape_snoc(s.skip(1), i - 1);
        assert(s.skip(1).subrange(0, i) =~= s.subrange(0, i + 1).skip(1));
        assert(s.skip(1).subrange(0, i - 1) =~= s.subrange(0, i).skip(1));
        assert(s.skip(1)[i - 1] == s[i]);
        assert(s.subrange(0, i + 1)[0] == s[0]);
        assert(s.subrange(0, i)[0] == s[0]);
        assert(spec_escape(s.subrange(0, i + 1)) == spec_escape_char(s[0]) + spec_escape(
            s.subrange(0, i + 1).skip(1),
        ));
        assert(spec_escape(s.subrange(0, i)) == spec_escape_char(s[0]) + spec_escape(
            s.subrange(0, i).skip(1),
        ));
        assert(spec_escape_char(s[0]) + (spec_escape(s.subrange(0, i).skip(1))
            + spec_escape_char(s[i])) =~= (spec_escape_char(s[0]) + spec_escape(
            s.subrange(0, i).skip(1),
        )) + spec_escape_char(s[i]));
    }
}

/// The JSON text of an object whose fields are all strings, written in field
/// order with no spaces, as the outside serializers lay it out.
pub open spec fn spec_str_object_text(fields: Seq<(Seq<char>, Seq<char>)>) -> Seq<char>
    decreases fields.len(),
{
    if fields.len() == 0 {
        seq!['{', '}']
    } else {
        seq!['{'] + spec_str_object_inner(fields) + seq!['}']
    }
}

/// The comma-separated `"key":"value"` parts.
pub open spec fn spec_str_object_inner(fields: Seq<(Seq<char>, Seq<char>)>) -> Seq<char>
    decreases fields.len(),
{
    if fields.len() == 0 {
        Seq::empty()
    } else if fields.len() == 1 {
        spec_quote(fields[0].0) + seq![':'] + spec_quote(fields[0].1)
    } else {
        spec_quote(fields[0].0) + seq![':'] + spec_quote(fields[0].1) + seq![',']
            + spec_str_object_inner(fields.skip(1))
    }
}

/// Writes an all-string object as one line of JSON.
pub fn str_object_text(fields: &Vec<(String, String)>) -> (r: String)
    ensures
        r@ == spec_str_object_text(
            fields@.map_values(|f: (String, String)| (f.0@, f.1@)),
        ),
{
    let ghost m = fields@.map_values(|f: (String, String)| (f.0@, f.1@));
    let mut out = String::new();
    push_char(&mut out, '{');
    let mut i: usize = 0;
    while i < fields.len()
        invariant
            i <= fields@.len(),
            m == fields@.map_values(|f: (String, String)| (f.0@, f.1@)),
            i == 0 ==> out@ == seq!['{'],
            i > 0 ==> seq!['{'] + spec_str_object_inner(m) =~= out@ + build_rest(m, i as int),
            i > 0 && i < fields@.len() ==> out@.last() == ',',
            i > 0 && i == fields@.len() ==> seq!['{'] + spec_str_object_inner(m) =~= out@,
        decreases fields@.len() - i,
    {
        let k = quote_str(fields[i].0.as_str());
        let v = quote_str(fields[i].1.as_str());
        vstd::string::StringExecFns::append(&mut out, k.as_str());
        push_char(&mut out, ':');
        vstd::string::StringExecFns::append(&mut out, v.as_str());
        if i + 1 < fields.len() {
            push_char(&mut out, ',');
        }
        proof {
            lemma_object_inner_step(m, i as int);
        }
        i = i + 1;
    }
    push_char(&mut out, '}');
    proof {
        if fields@.len() == 0 {
            assert(out@ =~= spec_str_object_text(m));
        } else {
            assert(out@ =~= seq!['{'] + spec_str_object_inner(m) + seq!['}']);
            assert(out@ =~= spec_str_object_text(m));
        }
    }
    out
}

/// What remains to be written after the first `i` fields.
pub open spec fn build_rest(m: Seq<(Seq<char>, Seq<char>)>, i: int) -> Seq<char> {
    if i >= m.len() {
        Seq::empty()
    } else {
        spec_str_object_inner(m.skip(i))
    }
}

proof fn lemma_object_inner_step(m: Seq<(Seq<char>, Seq<char>)>, i: int)
    requires
        0 <= i < m.len(),
    ensures
        i + 1 < m.len() ==> spec_str_object_inner(m.skip(i)) =~= spec_quote(m[i].0) + seq![':']
            + spec_quote(m[i].1) + seq![','] + spec_str_object_inner(m.skip(i + 1)),
        i + 1 == m.len() ==> spec_str_object_inner(m.skip(i)) =~= spec_quote(m[i].0) + seq![':']
            + spec_quote(m[i].1),
{
    assert(m.skip(i)[0] == m[i]);
    if i + 1 < m.len() {
        assert(m.skip(i).skip(1) =~= m.skip(i + 1));
    } else {
        assert(m.skip(i).len() == 1);
    }
}

} // verus!

verus! {

/// The views of the items of an array value.
pub open spec fn vals_view(items: Seq<JsonValue>) -> Seq<JsonData> {
    Seq::new(
        items.len(),
        |i: int|
            if 0 <= i < items.len() {
                json_view(items[i])
            } else {
                JsonData::Null
            },
    )
}

/// An array value's view is the view of its items.
pub proof fn lemma_view_arr(v: JsonValue)
    requires
        v is Arr,
    ensures
        json_view(v) == JsonData::Arr(vals_view(v->Arr_0@)),
{
    assert(json_view(v)->Arr_0 =~= vals_view(v->Arr_0@));
}

/// Whether a tree can be walked within `fuel` levels.
pub open spec fn spec_copy_ok(d: JsonData, fuel: nat) -> bool
    decreases fuel, 0int,
{
    if fuel == 0 {
        false
    } else {
        match d {
            JsonData::Arr(items) => spec_copy_items_ok(items, (fuel - 1) as nat),
            JsonData::Obj(fields) => spec_copy_fields_ok(fields, (fuel - 1) as nat),
            _ => true,
        }
    }
}

/// Every item can be walked within `fuel` levels.
pub open spec fn spec_copy_items_ok(items: Seq<JsonData>, fuel: nat) -> bool
    decreases fuel, items.len(),
{
    if items.len() == 0 {
        true
    } else {
        spec_copy_ok(items[0], fuel) && spec_copy_items_ok(items.skip(1), fuel)
    }
}

/// Every field value can be walked within `fuel` levels.
pub open spec fn spec_copy_fields_ok(fields: Seq<(Seq<char>, JsonData)>, fuel: nat) -> bool
    decreases fuel, fields.len(),
{
    if fields.len() == 0 {
        true
    } else {
        spec_copy_ok(fields[0].1, fuel) && spec_copy_fields_ok(fields.skip(1), fuel)
    }
}

proof fn lemma_copy_items_iff(items: Seq<JsonData>, fuel: nat)
    ensures
        spec_copy_items_ok(items, fuel) <==> forall|j: int|
            0 <= j < items.len() ==> spec_copy_ok(#[trigger] items[j], fuel),
    decreases items.len(),
{
    if items.len() > 0 {
        lemma_copy_items_iff(items.skip(1), fuel);
        assert forall|j: int| 0 <= j < items.skip(1).len() implies items.skip(1)[j] == items[j
            + 1] by {
        }
        if spec_copy_ok(items[0], fuel) && (forall|j: int|
            0 <= j < items.skip(1).len() ==> spec_copy_ok(#[trigger] items.skip(1)[j], fuel)) {
            assert forall|j: int| 0 <= j < items.len() implies spec_copy_ok(
                #[trigger] items[j],
                fuel,
            ) by {
                if j > 0 {
                    assert(items[j] == items.skip(1)[j - 1]);
                }
            }
        }
    }
}

proof fn lemma_copy_fields_iff(fields: Seq<(Seq<char>, JsonData)>, fuel: nat)
    ensures
        spec_copy_fields_ok(fields, fuel) <==> forall|j: int|
            0 <= j < fields.len() ==> spec_copy_ok((#[trigger] fields[j]).1, fuel),
    decreases fields.len(),
{
    if fields.len() > 0 {
        lemma_copy_fields_iff(fields.skip(1), fuel);
        assert forall|j: int| 0 <= j < fields.skip(1).len() implies fields.skip(1)[j] == fields[j
            + 1] by {
        }
        if spec_copy_ok(fields[0].1, fuel) && (forall|j: int|
            0 <= j < fields.skip(1).len() ==> spec_copy_ok(
                (#[trigger] fields.skip(1)[j]).1,
                fuel,
            )) {
            assert forall|j: int| 0 <= j < fields.len() implies spec_copy_ok(
                (#[trigger] fields[j]).1,
                fuel,
            ) by {
                if j > 0 {
                    assert(fields[j] == fields.skip(1)[j - 1]);
                }
            }
        }
    }
}

/// A deep copy of a value, within a nesting budget.
pub fn json_copy(v: &JsonValue, fuel: u32) -> (r: Option<JsonValue>)
    ensures
        r matches Some(c) ==> json_view(c) == json_view(*v),
        r is Some <==> spec_copy_ok(json_view(*v), fuel as nat),
    decreases fuel,
{
    if fuel == 0 {
        return None;
    }
    match v {
        JsonValue::Null => Some(JsonValue::Null),
        JsonValue::Bool(b) => Some(JsonValue::Bool(*b)),
        JsonValue::Num(n) => Some(JsonValue::Num(*n)),
        JsonValue::BigNum(s) => Some(JsonValue::BigNum(s.clone())),
        JsonValue::Str(s) => Some(JsonValue::Str(s.clone())),
        JsonValue::Arr(items) => {
            proof {
                lemma_view_arr(*v);
                lemma_copy_items_iff(vals_view(items@), (fuel - 1) as nat);
            }
            let ghost m = vals_view(items@);
            let mut out: Vec<JsonValue> = Vec::new();
            let mut i: usize = 0;
            while i < items.len()
                invariant
                    fuel > 0,
                    m == vals_view(items@),
                    json_view(*v) == JsonData::Arr(m),
                    i <= items@.len(),
                    out@.len() == i,
                    forall|j: int|
                        0 <= j < i ==> json_view(#[trigger] out@[j]) == json_view(items@[j]),
                    forall|j: int|
                        0 <= j < i ==> spec_copy_ok(json_view(#[trigger] items@[j]), (fuel
                            - 1) as nat),
                decreases items@.len() - i,
            {
                match json_copy(&items[i], fuel - 1) {
                    Some(c) => {
                        out.push(c);
                    },
                    None => {
                        proof {
                            assert(m[i as int] == json_view(items@[i as int]));
                            assert(!spec_copy_ok(json_view(items@[i as int]), (fuel - 1) as nat));
                            assert(!spec_copy_ok(m[i as int], (fuel - 1) as nat));
                            lemma_copy_items_iff(m, (fuel - 1) as nat);
                            assert(!spec_copy_items_ok(m, (fuel - 1) as nat));
                            assert(!spec_copy_ok(json_view(*v), fuel as nat));
                        }
                        return None;
                    },
                }
                i = i + 1;
            }
            proof {
                assert forall|j: int| 0 <= j < m.len() implies spec_copy_ok(
                    #[trigger] m[j],
                    (fuel - 1) as nat,
                ) by {
                    assert(m[j] == json_view(items@[j]));
                }
                assert(vals_view(out@) =~= m);
            }
            let c = JsonValue::Arr(out);
            proof {
                lemma_view_arr(c);
            }
            Some(c)
        },
        JsonValue::Obj(fields) => {
            proof {
                lemma_view_obj(*v);
                lemma_copy_fields_iff(obj_view(fields@), (fuel - 1) as nat);
            }
            let ghost m = obj_view(fields@);
            let mut out: Vec<(String, JsonValue)> = Vec::new();
            let mut i: usize = 0;
            while i < fields.len()
                invariant
                    fuel > 0,
                    m == obj_view(fields@),
                    json_view(*v) == JsonData::Obj(m),
                    i <= fields@.len(),
                    out@.len() == i,
                    forall|j: int|
                        0 <= j < i ==> (#[trigger] out@[j]).0@ == fields@[j].0@ && json_view(
                            out@[j].1,
                        ) == json_view(fields@[j].1),
                    forall|j: int|
                        0 <= j < i ==> spec_copy_ok(json_view((#[trigger] fields@[j]).1), (fuel
                            - 1) as nat),
                decreases fields@.len() - i,
            {
                match json_copy(&fields[i].1, fuel - 1) {
                    Some(c) => {
                        out.push((fields[i].0.clone(), c));
                    },
                    None => {
                        proof {
                            assert(m[i as int].1 == json_view(fields@[i as int].1));
                            assert(!spec_copy_ok(json_view(fields@[i as int].1), (fuel - 1) as nat));
                            assert(!spec_copy_ok(m[i as int].1, (fuel - 1) as nat));
                            lemma_copy_fields_iff(m, (fuel - 1) as nat);
                            assert(!spec_copy_fields_ok(m, (fuel - 1) as nat));
                            assert(!spec_copy_ok(json_view(*v), fuel as nat));
                        }
                        return None;
                    },
                }
                i = i + 1;
            }
            proof {
                assert forall|j: int| 0 <= j < m.len() implies spec_copy_ok(
                    (#[trigger] m[j]).1,
                    (fuel - 1) as nat,
                ) by {
                    assert(m[j].1 == json_view(fields@[j].1));
                }
                assert(obj_view(out@) =~= m);
            }
            let c = JsonValue::Obj(out);
            proof {
                lemma_view_obj(c);
            }
            Some(c)
        },
    }
}

} // verus!
