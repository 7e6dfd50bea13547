//! The JSON boundary: reading structured messages and backend bodies.
//!
//! Parsed JSON crosses the boundary once, as a value of the plain
//! `JsonVal` model below; the parse itself is a named function of the
//! text. Every decision after that — which fields to read, defaults,
//! range checks, fallbacks — is verified logic over the model, and each
//! decoder's contract pins its result to the parse.

use vstd::prelude::*;

use serde_json::Value;

use crate::command::{kind_of_word, spec_kind_of, ParsedCommand};
use crate::descriptor::{InputDecl, ModelDescriptor};
use crate::render::{append_i64, append_u64, spec_dec_digits, spec_dec_i64};
use crate::summary::spec_views;
use crate::tensor::TensorData;

verus! {

/// A JSON value as plain data. Integers keep their numeric value, split
/// by sign the way serde_json's accessors split them; any other number
/// keeps its literal text; object fields keep the parser's (key-sorted)
/// order.
pub enum JsonVal {
    Null,
    Bool(bool),
    /// A number `as_u64` yields: a non-negative integer.
    UInt(u64),
    /// A number only `as_i64` yields: a negative integer.
    Int(i64),
    /// Any other number, as its literal text.
    NumText(String),
    Str(String),
    Arr(Vec<JsonVal>),
    Obj(Vec<(String, JsonVal)>),
}

#[verifier::external_type_specification]
#[verifier::external_body]
pub struct ExValue(Value);

/// The parse of the text as JSON, when it is valid: a fixed function of
/// the text alone.
pub uninterp spec fn spec_json_of(s: Seq<char>) -> Option<JsonVal>;

/// Relies on serde_json's Value accessors: carries one parsed value into
/// the plain model, variant for variant — integers through
/// as_u64/as_i64, other numbers as their literal text, object entries in
/// map order.
#[verifier::external_body]
fn value_to_model(v: &Value) -> JsonVal {
    match v {
        Value::Null => JsonVal::Null,
        Value::Bool(b) => JsonVal::Bool(*b),
        Value::Number(n) => match (n.as_u64(), n.as_i64()) {
            (Some(u), _) => JsonVal::UInt(u),
            (None, Some(i)) => JsonVal::Int(i),
            (None, None) => JsonVal::NumText(n.to_string()),
        },
        Value::String(s) => JsonVal::Str(s.clone()),
        Value::Array(items) => JsonVal::Arr(items.iter().map(value_to_model).collect()),
        Value::Object(m) => JsonVal::Obj(
            m.iter().map(|(k, x)| (k.clone(), value_to_model(x))).collect(),
        ),
    }
}

/// Relies on serde_json::from_str: `None` exactly on invalid JSON; the
/// parse is a function of the text alone, carried over by the converter
/// above.
#[verifier::external_body]
fn parse_json(s: &str) -> (r: Option<JsonVal>)
    ensures
        r == spec_json_of(s@),
{
    serde_json::from_str::<Value>(s).ok().map(|v| value_to_model(&v))
}

/// The first field named `key` of an object's field list.
pub open spec fn spec_obj_get(fields: Seq<(String, JsonVal)>, key: Seq<char>) -> Option<JsonVal>
    decreases fields.len(),
{
    if fields.len() == 0 {
        None
    } else if fields.first().0@ == key {
        Some(fields.first().1)
    } else {
        spec_obj_get(fields.drop_first(), key)
    }
}

/// The signed value of a number, as `as_i64` reads it.
pub open spec fn spec_as_i64(j: JsonVal) -> Option<i64> {
    match j {
        JsonVal::UInt(u) => if u <= i64::MAX as u64 {
            Some(u as i64)
        } else {
            None
        },
        JsonVal::Int(i) => Some(i),
        _ => None,
    }
}

/// The unsigned value of a number, as `as_u64` reads it.
pub open spec fn spec_as_u64(j: JsonVal) -> Option<u64> {
    match j {
        JsonVal::UInt(u) => Some(u),
        _ => None,
    }
}

/// A number's literal text: integers in decimal, others verbatim.
pub open spec fn spec_num_text(j: JsonVal) -> Option<Seq<char>> {
    match j {
        JsonVal::UInt(u) => Some(spec_dec_digits(u as nat)),
        JsonVal::Int(i) => Some(spec_dec_i64(i as int)),
        JsonVal::NumText(s) => Some(s@),
        _ => None,
    }
}

/// The string field named `key`, when the object has one.
pub open spec fn spec_str_field(fields: Seq<(String, JsonVal)>, key: Seq<char>) -> Option<
    Seq<char>,
> {
    match spec_obj_get(fields, key) {
        Some(JsonVal::Str(s)) => Some(s@),
        _ => None,
    }
}

/// The unsigned field named `key`, when the object has one.
pub open spec fn spec_u64_field(fields: Seq<(String, JsonVal)>, key: Seq<char>) -> Option<u64> {
    match spec_obj_get(fields, key) {
        Some(j) => spec_as_u64(j),
        None => None,
    }
}

fn obj_get<'a>(fields: &'a Vec<(String, JsonVal)>, key: &str) -> (r: Option<&'a JsonVal>)
    ensures
        match r {
            Some(j) => spec_obj_get(fields@, key@) == Some(*j),
            None => spec_obj_get(fields@, key@) is None,
        },
{
    let mut i: usize = 0;
    proof {
        assert(fields@.skip(0) =~= fields@);
    }
    while i < fields.len()
        invariant
            i <= fields@.len(),
            spec_obj_get(fields@, key@) == spec_obj_get(fields@.skip(i as int), key@),
        decreases fields@.len() - i,
    {
        proof {
            assert(fields@.skip(i as int).first() == fields@[i as int]);
            assert(fields@.skip(i as int).drop_first() =~= fields@.skip(i + 1));
        }
        if crate::tensor::str_eq(fields[i].0.as_str(), key) {
            return Some(&fields[i].1);
        }
        i = i + 1;
    }
    proof {
        assert(fields@.skip(i as int) =~= Seq::<(String, JsonVal)>::empty());
    }
    None
}

fn str_field(fields: &Vec<(String, JsonVal)>, key: &str) -> (r: Option<String>)
    ensures
        match r {
            Some(s) => spec_str_field(fields@, key@) == Some(s@),
            None => spec_str_field(fields@, key@) is None,
        },
{
    match obj_get(fields, key) {
        Some(JsonVal::Str(s)) => Some(s.clone()),
        _ => None,
    }
}

fn u64_field(fields: &Vec<(String, JsonVal)>, key: &str) -> (r: Option<u64>)
    ensures
        r == spec_u64_field(fields@, key@),
{
    match obj_get(fields, key) {
        Some(JsonVal::UInt(u)) => Some(*u),
        _ => None,
    }
}

fn decode_num_texts(items: &Vec<JsonVal>) -> (r: Option<Vec<String>>)
    ensures
        match r {
            Some(texts) => texts@.len() == items@.len() && forall|i: int|
                0 <= i < items@.len() ==> spec_num_text(#[trigger] items@[i]) == Some(texts@[i]@),
            None => exists|i: int|
                0 <= i < items@.len() && spec_num_text(#[trigger] items@[i]) is None,
        },
{
    let mut out: Vec<String> = Vec::new();
    let mut i: usize = 0;
    while i < items.len()
        invariant
            i <= items@.len(),
            out@.len() == i,
            forall|j: int|
                0 <= j < i ==> spec_num_text(#[trigger] items@[j]) == Some(out@[j]@),
        decreases items@.len() - i,
    {
        let t = match &items[i] {
            JsonVal::UInt(u) => {
                let mut s = String::new();
                append_u64(&mut s, *u);
                s
            },
            JsonVal::Int(n) => {
                let mut s = String::new();
                append_i64(&mut s, *n);
                s
            },
            JsonVal::NumText(s) => s.clone(),
            _ => {
                return None;
            },
        };
        out.push(t);
        i = i + 1;
    }
    Some(out)
}

fn decode_i64s(items: &Vec<JsonVal>) -> (r: Option<Vec<i64>>)
    ensures
        match r {
            Some(v) => v@.len() == items@.len() && forall|i: int|
                0 <= i < items@.len() ==> spec_as_i64(#[trigger] items@[i]) == Some(v@[i]),
            None => exists|i: int|
                0 <= i < items@.len() && spec_as_i64(#[trigger] items@[i]) is None,
        },
{
    let mut out: Vec<i64> = Vec::new();
    let mut i: usize = 0;
    while i < items.len()
        invariant
            i <= items@.len(),
            out@.len() == i,
            forall|j: int| 0 <= j < i ==> spec_as_i64(#[trigger] items@[j]) == Some(out@[j]),
        decreases items@.len() - i,
    {
        match &items[i] {
            JsonVal::UInt(u) => {
                if *u <= i64::MAX as u64 {
                    out.push(*u as i64);
                } else {
                    return None;
                }
            },
            JsonVal::Int(n) => {
                out.push(*n);
            },
            _ => {
                return None;
            },
        }
        i = i + 1;
    }
    Some(out)
}

/// The 32-bit value of a number, when it fits.
pub open spec fn spec_as_i32(j: JsonVal) -> Option<i32> {
    match spec_as_i64(j) {
        Some(x) => if i32::MIN as i64 <= x <= i32::MAX as i64 {
            Some(x as i32)
        } else {
            None
        },
        None => None,
    }
}

/// The byte value of a number, when it fits.
pub open spec fn spec_as_u8(j: JsonVal) -> Option<u8> {
    match spec_as_u64(j) {
        Some(u) => if u <= u8::MAX as u64 {
            Some(u as u8)
        } else {
            None
        },
        None => None,
    }
}

/// The boolean a value holds.
pub open spec fn spec_as_bool(j: JsonVal) -> Option<bool> {
    match j {
        JsonVal::Bool(b) => Some(b),
        _ => None,
    }
}

/// The string a value holds.
pub open spec fn spec_as_str(j: JsonVal) -> Option<Seq<char>> {
    match j {
        JsonVal::Str(s) => Some(s@),
        _ => None,
    }
}

fn decode_i32s(items: &Vec<JsonVal>) -> (r: Option<Vec<i32>>)
    ensures
        match r {
            Some(v) => v@.len() == items@.len() && forall|i: int|
                0 <= i < items@.len() ==> spec_as_i32(#[trigger] items@[i]) == Some(v@[i]),
            None => exists|i: int|
                0 <= i < items@.len() && spec_as_i32(#[trigger] items@[i]) is None,
        },
{
    let mut out: Vec<i32> = Vec::new();
    let mut i: usize = 0;
    while i < items.len()
        invariant
            i <= items@.len(),
            out@.len() == i,
            forall|j: int| 0 <= j < i ==> spec_as_i32(#[trigger] items@[j]) == Some(out@[j]),
        decreases items@.len() - i,
    {
        match &items[i] {
            JsonVal::UInt(u) => {
                if *u <= i32::MAX as u64 {
                    out.push(*u as i32);
                } else {
                    return None;
                }
            },
            JsonVal::Int(n) => {
                if i32::MIN as i64 <= *n && *n <= i32::MAX as i64 {
                    out.push(*n as i32);
                } else {
                    return None;
                }
            },
            _ => {
                return None;
            },
        }
        i = i + 1;
    }
    Some(out)
}

fn decode_u8s(items: &Vec<JsonVal>) -> (r: Option<Vec<u8>>)
    ensures
        match r {
            Some(v) => v@.len() == items@.len() && forall|i: int|
                0 <= i < items@.len() ==> spec_as_u8(#[trigger] items@[i]) == Some(v@[i]),
            None => exists|i: int|
                0 <= i < items@.len() && spec_as_u8(#[trigger] items@[i]) is None,
        },
{
    let mut out: Vec<u8> = Vec::new();
    let mut i: usize = 0;
    while i < items.len()
        invariant
            i <= items@.len(),
            out@.len() == i,
            forall|j: int| 0 <= j < i ==> spec_as_u8(#[trigger] items@[j]) == Some(out@[j]),
        decreases items@.len() - i,
    {
        match &items[i] {
            JsonVal::UInt(u) => {
                if *u <= u8::MAX as u64 {
                    out.push(*u as u8);
                } else {
                    return None;
                }
            },
            _ => {
                return None;
            },
        }
        i = i + 1;
    }
    Some(out)
}

fn decode_bools(items: &Vec<JsonVal>) -> (r: Option<Vec<bool>>)
    ensures
        match r {
            Some(v) => v@.len() == items@.len() && forall|i: int|
                0 <= i < items@.len() ==> spec_as_bool(#[trigger] items@[i]) == Some(v@[i]),
            None => exists|i: int|
                0 <= i < items@.len() && spec_as_bool(#[trigger] items@[i]) is None,
        },
{
    let mut out: Vec<bool> = Vec::new();
    let mut i: usize = 0;
    while i < items.len()
        invariant
            i <= items@.len(),
            out@.len() == i,
            forall|j: int| 0 <= j < i ==> spec_as_bool(#[trigger] items@[j]) == Some(out@[j]),
        decreases items@.len() - i,
    {
        match &items[i] {
            JsonVal::Bool(b) => {
                out.push(*b);
            },
            _ => {
                return None;
            },
        }
        i = i + 1;
    }
    Some(out)
}

fn decode_strs(items: &Vec<JsonVal>) -> (r: Option<Vec<String>>)
    ensures
        match r {
            Some(v) => v@.len() == items@.len() && forall|i: int|
                0 <= i < items@.len() ==> spec_as_str(#[trigger] items@[i]) == Some(v@[i]@),
            None => exists|i: int|
                0 <= i < items@.len() && spec_as_str(#[trigger] items@[i]) is None,
        },
{
    let mut out: Vec<String> = Vec::new();
    let mut i: usize = 0;
    while i < items.len()
        invariant
            i <= items@.len(),
            out@.len() == i,
            forall|j: int| 0 <= j < i ==> spec_as_str(#[trigger] items@[j]) == Some(out@[j]@),
        decreases items@.len() - i,
    {
        match &items[i] {
            JsonVal::Str(s) => {
                out.push(s.clone());
            },
            _ => {
                return None;
            },
        }
        i = i + 1;
    }
    Some(out)
}

/// The decoded tensor a tagged object denotes: the first matching variant
/// key, in the fixed order, with every element read as that variant.
pub open spec fn spec_tensor_rel(fields: Seq<(String, JsonVal)>, t: TensorData) -> bool {
    if spec_obj_get(fields, "F32"@) is Some {
        match (spec_obj_get(fields, "F32"@), t) {
            (Some(JsonVal::Arr(items)), TensorData::F32(texts)) => texts@.len() == items@.len()
                && forall|i: int|
                0 <= i < items@.len() ==> spec_num_text(#[trigger] items@[i]) == Some(texts@[i]@),
            _ => false,
        }
    } else if spec_obj_get(fields, "I32"@) is Some {
        match (spec_obj_get(fields, "I32"@), t) {
            (Some(JsonVal::Arr(items)), TensorData::I32(v)) => v@.len() == items@.len() && forall|
                i: int,
            |
                0 <= i < items@.len() ==> spec_as_i32(#[trigger] items@[i]) == Some(v@[i]),
            _ => false,
        }
    } else if spec_obj_get(fields, "I64"@) is Some {
        match (spec_obj_get(fields, "I64"@), t) {
            (Some(JsonVal::Arr(items)), TensorData::I64(v)) => v@.len() == items@.len() && forall|
                i: int,
            |
                0 <= i < items@.len() ==> spec_as_i64(#[trigger] items@[i]) == Some(v@[i]),
            _ => false,
        }
    } else if spec_obj_get(fields, "U8"@) is Some {
        match (spec_obj_get(fields, "U8"@), t) {
            (Some(JsonVal::Arr(items)), TensorData::U8(v)) => v@.len() == items@.len() && forall|
                i: int,
            |
                0 <= i < items@.len() ==> spec_as_u8(#[trigger] items@[i]) == Some(v@[i]),
            _ => false,
        }
    } else if spec_obj_get(fields, "Bool"@) is Some {
        match (spec_obj_get(fields, "Bool"@), t) {
            (Some(JsonVal::Arr(items)), TensorData::Bool(v)) => v@.len() == items@.len() && forall|
                i: int,
            |
                0 <= i < items@.len() ==> spec_as_bool(#[trigger] items@[i]) == Some(v@[i]),
            _ => false,
        }
    } else if spec_obj_get(fields, "Str"@) is Some {
        match (spec_obj_get(fields, "Str"@), t) {
            (Some(JsonVal::Arr(items)), TensorData::Str(v)) => v@.len() == items@.len() && forall|
                i: int,
            |
                0 <= i < items@.len() ==> spec_as_str(#[trigger] items@[i]) == Some(v@[i]@),
            _ => false,
        }
    } else {
        false
    }
}

/// The tagged object decodes: its first matching variant key holds an
/// array whose every element reads as that variant.
pub open spec fn spec_tensor_decodable(fields: Seq<(String, JsonVal)>) -> bool {
    if spec_obj_get(fields, "F32"@) is Some {
        match spec_obj_get(fields, "F32"@) {
            Some(JsonVal::Arr(items)) => forall|i: int|
                0 <= i < items@.len() ==> spec_num_text(#[trigger] items@[i]) is Some,
            _ => false,
        }
    } else if spec_obj_get(fields, "I32"@) is Some {
        match spec_obj_get(fields, "I32"@) {
            Some(JsonVal::Arr(items)) => forall|i: int|
                0 <= i < items@.len() ==> spec_as_i32(#[trigger] items@[i]) is Some,
            _ => false,
        }
    } else if spec_obj_get(fields, "I64"@) is Some {
        match spec_obj_get(fields, "I64"@) {
            Some(JsonVal::Arr(items)) => forall|i: int|
                0 <= i < items@.len() ==> spec_as_i64(#[trigger] items@[i]) is Some,
            _ => false,
        }
    } else if spec_obj_get(fields, "U8"@) is Some {
        match spec_obj_get(fields, "U8"@) {
            Some(JsonVal::Arr(items)) => forall|i: int|
                0 <= i < items@.len() ==> spec_as_u8(#[trigger] items@[i]) is Some,
            _ => false,
        }
    } else if spec_obj_get(fields, "Bool"@) is Some {
        match spec_obj_get(fields, "Bool"@) {
            Some(JsonVal::Arr(items)) => forall|i: int|
                0 <= i < items@.len() ==> spec_as_bool(#[trigger] items@[i]) is Some,
            _ => false,
        }
    } else if spec_obj_get(fields, "Str"@) is Some {
        match spec_obj_get(fields, "Str"@) {
            Some(JsonVal::Arr(items)) => forall|i: int|
                0 <= i < items@.len() ==> spec_as_str(#[trigger] items@[i]) is Some,
            _ => false,
        }
    } else {
        false
    }
}

/// Decode one tensor's element data from its tagged form.
fn decode_tensor_data(fields: &Vec<(String, JsonVal)>) -> (r: Option<TensorData>)
    ensures
        match r {
            Some(t) => spec_tensor_rel(fields@, t) && spec_tensor_decodable(fields@),
            None => !spec_tensor_decodable(fields@),
        },
{
    if let Some(j) = obj_get(fields, "F32") {
        return match j {
            JsonVal::Arr(items) => match decode_num_texts(items) {
                Some(texts) => Some(TensorData::F32(texts)),
                None => None,
            },
            _ => None,
        };
    }
    if let Some(j) = obj_get(fields, "I32") {
        return match j {
            JsonVal::Arr(items) => match decode_i32s(items) {
                Some(v) => Some(TensorData::I32(v)),
                None => None,
            },
            _ => None,
        };
    }
    if let Some(j) = obj_get(fields, "I64") {
        return match j {
            JsonVal::Arr(items) => match decode_i64s(items) {
                Some(v) => Some(TensorData::I64(v)),
                None => None,
            },
            _ => None,
        };
    }
    if let Some(j) = obj_get(fields, "U8") {
        return match j {
            JsonVal::Arr(items) => match decode_u8s(items) {
                Some(v) => Some(TensorData::U8(v)),
                None => None,
            },
            _ => None,
        };
    }
    if let Some(j) = obj_get(fields, "Bool") {
        return match j {
            JsonVal::Arr(items) => match decode_bools(items) {
                Some(v) => Some(TensorData::Bool(v)),
                None => None,
            },
            _ => None,
        };
    }
    if let Some(j) = obj_get(fields, "Str") {
        return match j {
            JsonVal::Arr(items) => match decode_strs(items) {
                Some(v) => Some(TensorData::Str(v)),
                None => None,
            },
            _ => None,
        };
    }
    None
}

/// One caller input decodes from a `[tagged data, shape]` pair: the
/// decoded tensor is the pair's first element read as a tagged object.
pub open spec fn spec_pair_tensor_rel(j: JsonVal, t: TensorData) -> bool {
    match j {
        JsonVal::Arr(pair) => pair@.len() >= 1 && match pair@[0] {
            JsonVal::Obj(tf) => spec_tensor_rel(tf@, t),
            _ => false,
        },
        _ => false,
    }
}

/// The pair decodes at all.
pub open spec fn spec_pair_decodable(j: JsonVal) -> bool {
    match j {
        JsonVal::Arr(pair) => pair@.len() >= 1 && match pair@[0] {
            JsonVal::Obj(tf) => spec_tensor_decodable(tf@),
            _ => false,
        },
        _ => false,
    }
}

/// The decoded input list matches the object's entries, name for name and
/// tensor for tensor, in order.
pub open spec fn spec_inputs_rel(
    entries: Seq<(String, JsonVal)>,
    out: Seq<(String, TensorData)>,
) -> bool {
    &&& out.len() == entries.len()
    &&& forall|i: int|
        0 <= i < entries.len() ==> (#[trigger] out[i]).0@ == entries[i].0@ && spec_pair_tensor_rel(
            entries[i].1,
            out[i].1,
        )
}

/// Every entry of the inputs object decodes.
pub open spec fn spec_inputs_decodable(entries: Seq<(String, JsonVal)>) -> bool {
    forall|i: int| 0 <= i < entries.len() ==> spec_pair_decodable((#[trigger] entries[i]).1)
}

/// Decode the caller's `inputs` object: each key names a tensor, each
/// value is the pair of tagged element data and a shape; the shape is
/// ignored here, since alignment resolves shapes from the descriptor.
fn decode_inputs(entries: &Vec<(String, JsonVal)>) -> (r: Option<Vec<(String, TensorData)>>)
    ensures
        match r {
            Some(out) => spec_inputs_rel(entries@, out@) && spec_inputs_decodable(entries@),
            None => !spec_inputs_decodable(entries@),
        },
{
    let mut out: Vec<(String, TensorData)> = Vec::new();
    let mut i: usize = 0;
    while i < entries.len()
        invariant
            i <= entries@.len(),
            out@.len() == i,
            forall|j: int|
                0 <= j < i ==> (#[trigger] out@[j]).0@ == entries@[j].0@ && spec_pair_tensor_rel(
                    entries@[j].1,
                    out@[j].1,
                ),
            forall|j: int| 0 <= j < i ==> spec_pair_decodable((#[trigger] entries@[j]).1),
        decreases entries@.len() - i,
    {
        let data = match &entries[i].1 {
            JsonVal::Arr(pair) => {
                if pair.len() < 1 {
                    return None;
                }
                match &pair[0] {
                    JsonVal::Obj(tf) => match decode_tensor_data(tf) {
                        Some(t) => t,
                        None => {
                            return None;
                        },
                    },
                    _ => {
                        return None;
                    },
                }
            },
            _ => {
                return None;
            },
        };
        out.push((entries[i].0.clone(), data));
        i = i + 1;
    }
    Some(out)
}

/// The command word of a structured message: its `command` string field,
/// or `"infer"` when absent or not a string.
pub open spec fn spec_cmd_word(fields: Seq<(String, JsonVal)>) -> Seq<char> {
    match spec_str_field(fields, "command"@) {
        Some(w) => w,
        None => "infer"@,
    }
}

/// The prompt of a structured message: the top-level `prompt` string, or
/// the one nested in the `inputs` object.
pub open spec fn spec_prompt_of(fields: Seq<(String, JsonVal)>) -> Option<Seq<char>> {
    match spec_str_field(fields, "prompt"@) {
        Some(p) => Some(p),
        None => match spec_obj_get(fields, "inputs"@) {
            Some(JsonVal::Obj(inner)) => spec_str_field(inner@, "prompt"@),
            _ => None,
        },
    }
}

/// The token budget of a structured message: the top-level `max_len`, or
/// the one nested in the `inputs` object.
pub open spec fn spec_max_len_of(fields: Seq<(String, JsonVal)>) -> Option<u64> {
    match spec_u64_field(fields, "max_len"@) {
        Some(m) => Some(m),
        None => match spec_obj_get(fields, "inputs"@) {
            Some(JsonVal::Obj(inner)) => spec_u64_field(inner@, "max_len"@),
            _ => None,
        },
    }
}

/// What a structured message parses to: the command word (defaulting to
/// inference), the model name, prompt and budget, and the decoded tensors
/// when the `inputs` object decodes.
pub open spec fn spec_structured_cmd(fields: Seq<(String, JsonVal)>, c: ParsedCommand) -> bool {
    &&& c.word@ == spec_cmd_word(fields)
    &&& c.kind == spec_kind_of(c.word@)
    &&& match spec_str_field(fields, "model_name"@) {
        Some(m) => c.model_name matches Some(x) && x@ == m,
        None => c.model_name is None,
    }
    &&& match spec_prompt_of(fields) {
        Some(p) => c.prompt matches Some(x) && x@ == p,
        None => c.prompt is None,
    }
    &&& c.max_len == spec_max_len_of(fields)
    &&& match spec_obj_get(fields, "inputs"@) {
        Some(JsonVal::Obj(entries)) => if spec_inputs_decodable(entries@) {
            c.inputs matches Some(ins) && spec_inputs_rel(entries@, ins@)
        } else {
            c.inputs is None
        },
        _ => c.inputs is None,
    }
}

/// Decode a structured message: `None` exactly when the text is not a
/// JSON object; otherwise the parsed command, with every field pinned to
/// the message's parse.
pub fn decode_structured(msg: &str) -> (r: Option<ParsedCommand>)
    ensures
        match spec_json_of(msg@) {
            Some(j) => match j {
                JsonVal::Obj(fields) => r matches Some(c) && spec_structured_cmd(fields@, c),
                _ => r is None,
            },
            None => r is None,
        },
{
    let v = match parse_json(msg) {
        Some(v) => v,
        None => {
            return None;
        },
    };
    let fields = match v {
        JsonVal::Obj(fs) => fs,
        _ => {
            return None;
        },
    };
    let word = match str_field(&fields, "command") {
        Some(w) => w,
        None => String::from_str("infer"),
    };
    let model_name = str_field(&fields, "model_name");
    let mut prompt = str_field(&fields, "prompt");
    let mut max_len = u64_field(&fields, "max_len");
    let mut inputs: Option<Vec<(String, TensorData)>> = None;
    match obj_get(&fields, "inputs") {
        Some(iv) => match iv {
            JsonVal::Obj(entries) => {
                inputs = decode_inputs(entries);
                if prompt.is_none() {
                    prompt = str_field(entries, "prompt");
                }
                if max_len.is_none() {
                    max_len = u64_field(entries, "max_len");
                }
            },
            _ => {},
        },
        None => {},
    }
    let kind = kind_of_word(word.as_str());
    Some(ParsedCommand { kind, word, model_name, inputs, prompt, max_len })
}

/// One declared input decodes from a metadata entry: its `name`, `shape`
/// and `datatype` fields, the shape elements read as signed integers.
pub open spec fn spec_decl_rel(j: JsonVal, d: InputDecl) -> bool {
    match j {
        JsonVal::Obj(fs) => {
            &&& spec_str_field(fs@, "name"@) == Some(d.name@)
            &&& spec_str_field(fs@, "datatype"@) == Some(d.datatype@)
            &&& match spec_obj_get(fs@, "shape"@) {
                Some(JsonVal::Arr(items)) => d.shape@.len() == items@.len() && forall|i: int|
                    0 <= i < items@.len() ==> spec_as_i64(#[trigger] items@[i]) == Some(
                        d.shape@[i],
                    ),
                _ => false,
            }
        },
        _ => false,
    }
}

/// The metadata entry decodes at all.
pub open spec fn spec_decl_decodable(j: JsonVal) -> bool {
    match j {
        JsonVal::Obj(fs) => {
            &&& spec_str_field(fs@, "name"@) is Some
            &&& spec_str_field(fs@, "datatype"@) is Some
            &&& match spec_obj_get(fs@, "shape"@) {
                Some(JsonVal::Arr(items)) => forall|i: int|
                    0 <= i < items@.len() ==> spec_as_i64(#[trigger] items@[i]) is Some,
                _ => false,
            }
        },
        _ => false,
    }
}

/// Decode the backend's model metadata into a typed descriptor: the
/// `inputs` array of name, shape and datatype, resolved once here. `None`
/// exactly when the text is not an object carrying a decodable `inputs`
/// array.
#[verifier::rlimit(30)]
pub fn decode_descriptor(metadata_text: &str, fallback_name: &str) -> (r: Option<ModelDescriptor>)
    ensures
        match spec_json_of(metadata_text@) {
            Some(j) => match j {
                JsonVal::Obj(fields) => match spec_obj_get(fields@, "inputs"@) {
                    Some(JsonVal::Arr(items)) => {
                        &&& (r is Some <==> forall|i: int|
                            0 <= i < items@.len() ==> spec_decl_decodable(#[trigger] items@[i]))
                        &&& match r {
                            Some(desc) => {
                                &&& desc.inputs@.len() == items@.len()
                                &&& forall|i: int|
                                    0 <= i < items@.len() ==> spec_decl_rel(
                                        #[trigger] items@[i],
                                        desc.inputs@[i],
                                    )
                                &&& desc.name@ == match spec_str_field(fields@, "name"@) {
                                    Some(n) => n,
                                    None => fallback_name@,
                                }
                            },
                            None => true,
                        }
                    },
                    _ => r is None,
                },
                _ => r is None,
            },
            None => r is None,
        },
{
    let v = match parse_json(metadata_text) {
        Some(v) => v,
        None => {
            return None;
        },
    };
    let fields = match v {
        JsonVal::Obj(fs) => fs,
        _ => {
            return None;
        },
    };
    let name = match str_field(&fields, "name") {
        Some(n) => n,
        None => String::from_str(fallback_name),
    };
    let items = match obj_get(&fields, "inputs") {
        Some(JsonVal::Arr(items)) => items,
        _ => {
            return None;
        },
    };
    let mut inputs: Vec<InputDecl> = Vec::new();
    let mut i: usize = 0;
    while i < items.len()
        invariant
            i <= items@.len(),
            inputs@.len() == i,
            spec_json_of(metadata_text@) == Some(JsonVal::Obj(fields)),
            spec_obj_get(fields@, "inputs"@) == Some(JsonVal::Arr(*items)),
            forall|j: int|
                0 <= j < i ==> spec_decl_rel(#[trigger] items@[j], inputs@[j]),
            forall|j: int| 0 <= j < i ==> spec_decl_decodable(#[trigger] items@[j]),
        decreases items@.len() - i,
    {
        let fs = match &items[i] {
            JsonVal::Obj(fs) => fs,
            _ => {
                proof {
                    assert(!spec_decl_decodable(items@[i as int]));
                    assert(!(forall|q: int|
                        0 <= q < items@.len() ==> spec_decl_decodable(#[trigger] items@[q])));
                    assert(spec_json_of(metadata_text@) == Some(JsonVal::Obj(fields)));
                    let ghost got = spec_obj_get(fields@, "inputs"@).unwrap();
                    assert(got == JsonVal::Arr(*items));
                    assert(match got {
                        JsonVal::Arr(it2) => !(forall|q: int|
                            0 <= q < it2@.len() ==> spec_decl_decodable(#[trigger] it2@[q])),
                        _ => false,
                    });
                }
                return None;
            },
        };
        let input_name = match str_field(fs, "name") {
            Some(n) => n,
            None => {
                proof {
                    assert(items@[i as int] == JsonVal::Obj(*fs));
                    assert(!spec_decl_decodable(items@[i as int]));
                    assert(!(forall|q: int|
                        0 <= q < items@.len() ==> spec_decl_decodable(#[trigger] items@[q])));
                    assert(spec_json_of(metadata_text@) == Some(JsonVal::Obj(fields)));
                    let ghost got = spec_obj_get(fields@, "inputs"@).unwrap();
                    assert(got == JsonVal::Arr(*items));
                    assert(match got {
                        JsonVal::Arr(it2) => !(forall|q: int|
                            0 <= q < it2@.len() ==> spec_decl_decodable(#[trigger] it2@[q])),
                        _ => false,
                    });
                }
                return None;
            },
        };
        let datatype = match str_field(fs, "datatype") {
            Some(d) => d,
            None => {
                proof {
                    assert(items@[i as int] == JsonVal::Obj(*fs));
                    assert(!spec_decl_decodable(items@[i as int]));
                    assert(!(forall|q: int|
                        0 <= q < items@.len() ==> spec_decl_decodable(#[trigger] items@[q])));
                    assert(spec_json_of(metadata_text@) == Some(JsonVal::Obj(fields)));
                    let ghost got = spec_obj_get(fields@, "inputs"@).unwrap();
                    assert(got == JsonVal::Arr(*items));
                    assert(match got {
                        JsonVal::Arr(it2) => !(forall|q: int|
                            0 <= q < it2@.len() ==> spec_decl_decodable(#[trigger] it2@[q])),
                        _ => false,
                    });
                }
                return None;
            },
        };
        let shape = match obj_get(fs, "shape") {
            Some(JsonVal::Arr(dims)) => match decode_i64s(dims) {
                Some(s) => s,
                None => {
                    proof {
                        assert(items@[i as int] == JsonVal::Obj(*fs));
                        assert(!spec_decl_decodable(items@[i as int]));
                    assert(!(forall|q: int|
                        0 <= q < items@.len() ==> spec_decl_decodable(#[trigger] items@[q])));
                    assert(spec_json_of(metadata_text@) == Some(JsonVal::Obj(fields)));
                    let ghost got = spec_obj_get(fields@, "inputs"@).unwrap();
                    assert(got == JsonVal::Arr(*items));
                    assert(match got {
                        JsonVal::Arr(it2) => !(forall|q: int|
                            0 <= q < it2@.len() ==> spec_decl_decodable(#[trigger] it2@[q])),
                        _ => false,
                    });
                    }
                    return None;
                },
            },
            _ => {
                proof {
                    assert(items@[i as int] == JsonVal::Obj(*fs));
                    assert(!spec_decl_decodable(items@[i as int]));
                    assert(!(forall|q: int|
                        0 <= q < items@.len() ==> spec_decl_decodable(#[trigger] items@[q])));
                    assert(spec_json_of(metadata_text@) == Some(JsonVal::Obj(fields)));
                    let ghost got = spec_obj_get(fields@, "inputs"@).unwrap();
                    assert(got == JsonVal::Arr(*items));
                    assert(match got {
                        JsonVal::Arr(it2) => !(forall|q: int|
                            0 <= q < it2@.len() ==> spec_decl_decodable(#[trigger] it2@[q])),
                        _ => false,
                    });
                }
                return None;
            },
        };
        inputs.push(InputDecl { name: input_name, shape, datatype });
        i = i + 1;
    }
    Some(ModelDescriptor { name, inputs })
}

/// The `name` string field of a repository index entry.
pub open spec fn spec_name_of_entry(j: JsonVal) -> Option<Seq<char>> {
    match j {
        JsonVal::Obj(fs) => spec_str_field(fs@, "name"@),
        _ => None,
    }
}

/// The names of the index entries, in order, entries without a string
/// name skipped.
pub open spec fn spec_names_of(items: Seq<JsonVal>) -> Seq<Seq<char>>
    decreases items.len(),
{
    if items.len() == 0 {
        Seq::empty()
    } else {
        spec_names_of(items.drop_last()) + match spec_name_of_entry(items.last()) {
            Some(n) => seq![n],
            None => Seq::empty(),
        }
    }
}

/// The name of the first model the repository index lists.
pub fn first_model_name(body: &str) -> (r: Option<String>)
    ensures
        match spec_json_of(body@) {
            Some(j) => match j {
                JsonVal::Arr(items) => if items@.len() == 0 {
                    r is None
                } else {
                    match spec_name_of_entry(items@[0]) {
                        Some(n) => r matches Some(s) && s@ == n,
                        None => r is None,
                    }
                },
                _ => r is None,
            },
            None => r is None,
        },
{
    let v = match parse_json(body) {
        Some(v) => v,
        None => {
            return None;
        },
    };
    let items = match &v {
        JsonVal::Arr(items) => items,
        _ => {
            return None;
        },
    };
    if items.len() == 0 {
        return None;
    }
    match &items[0] {
        JsonVal::Obj(fs) => str_field(fs, "name"),
        _ => None,
    }
}

/// Every model name the repository index lists, in order, entries without
/// a string name skipped.
pub fn model_names(body: &str) -> (r: Option<Vec<String>>)
    ensures
        match spec_json_of(body@) {
            Some(j) => match j {
                JsonVal::Arr(items) => r matches Some(names) && spec_views(names@)
                    == spec_names_of(items@),
                _ => r is None,
            },
            None => r is None,
        },
{
    let v = match parse_json(body) {
        Some(v) => v,
        None => {
            return None;
        },
    };
    let items = match &v {
        JsonVal::Arr(items) => items,
        _ => {
            return None;
        },
    };
    let mut out: Vec<String> = Vec::new();
    let mut i: usize = 0;
    proof {
        assert(spec_views(out@) =~= spec_names_of(items@.take(0)));
    }
    while i < items.len()
        invariant
            i <= items@.len(),
            spec_views(out@) == spec_names_of(items@.take(i as int)),
        decreases items@.len() - i,
    {
        let ghost out0 = out@;
        match &items[i] {
            JsonVal::Obj(fs) => match str_field(fs, "name") {
                Some(n) => out.push(n),
                None => {},
            },
            _ => {},
        }
        proof {
            assert(items@.take(i + 1).drop_last() =~= items@.take(i as int));
            assert(items@.take(i + 1).last() == items@[i as int]);
            if out@.len() > out0.len() {
                assert(spec_views(out@) =~= spec_views(out0) + seq![out@[out0.len() as int]@]);
            } else {
                assert(spec_views(out@) =~= spec_views(out0));
            }
        }
        i = i + 1;
    }
    proof {
        assert(items@.take(items@.len() as int) =~= items@);
    }
    Some(out)
}

/// The `data` array of the first output tensor of an inference reply.
pub open spec fn spec_first_output_data(j: JsonVal) -> Option<Seq<JsonVal>> {
    match j {
        JsonVal::Obj(fs) => match spec_obj_get(fs@, "outputs"@) {
            Some(JsonVal::Arr(outs)) => if outs@.len() == 0 {
                None
            } else {
                match outs@[0] {
                    JsonVal::Obj(ofs) => match spec_obj_get(ofs@, "data"@) {
                        Some(JsonVal::Arr(d)) => Some(d@),
                        _ => None,
                    },
                    _ => None,
                }
            },
            _ => None,
        },
        _ => None,
    }
}

/// The signed integers among the elements, in order, others skipped.
pub open spec fn spec_i64s_of(items: Seq<JsonVal>) -> Seq<i64>
    decreases items.len(),
{
    if items.len() == 0 {
        Seq::empty()
    } else {
        spec_i64s_of(items.drop_last()) + match spec_as_i64(items.last()) {
            Some(x) => seq![x],
            None => Seq::empty(),
        }
    }
}

/// The number texts among the elements, in order, others skipped.
pub open spec fn spec_num_texts_of(items: Seq<JsonVal>) -> Seq<Seq<char>>
    decreases items.len(),
{
    if items.len() == 0 {
        Seq::empty()
    } else {
        spec_num_texts_of(items.drop_last()) + match spec_num_text(items.last()) {
            Some(t) => seq![t],
            None => Seq::empty(),
        }
    }
}

/// The integer elements of the first output tensor of an inference reply,
/// non-integers skipped.
pub fn first_output_i64(body: &str) -> (r: Option<Vec<i64>>)
    ensures
        match spec_json_of(body@) {
            Some(j) => match spec_first_output_data(j) {
                Some(data) => r matches Some(v) && v@ == spec_i64s_of(data),
                None => r is None,
            },
            None => r is None,
        },
{
    let v = match parse_json(body) {
        Some(v) => v,
        None => {
            return None;
        },
    };
    let data = match &v {
        JsonVal::Obj(fs) => match obj_get(fs, "outputs") {
            Some(JsonVal::Arr(outs)) => {
                if outs.len() == 0 {
                    return None;
                }
                match &outs[0] {
                    JsonVal::Obj(ofs) => match obj_get(ofs, "data") {
                        Some(JsonVal::Arr(d)) => d,
                        _ => {
                            return None;
                        },
                    },
                    _ => {
                        return None;
                    },
                }
            },
            _ => {
                return None;
            },
        },
        _ => {
            return None;
        },
    };
    let mut out: Vec<i64> = Vec::new();
    let mut i: usize = 0;
    proof {
        assert(out@ =~= spec_i64s_of(data@.take(0)));
    }
    while i < data.len()
        invariant
            i <= data@.len(),
            out@ == spec_i64s_of(data@.take(i as int)),
        decreases data@.len() - i,
    {
        let ghost out0 = out@;
        match &data[i] {
            JsonVal::UInt(u) => {
                if *u <= i64::MAX as u64 {
                    out.push(*u as i64);
                }
            },
            JsonVal::Int(n) => {
                out.push(*n);
            },
            _ => {},
        }
        proof {
            assert(data@.take(i + 1).drop_last() =~= data@.take(i as int));
            assert(data@.take(i + 1).last() == data@[i as int]);
            if out@.len() > out0.len() {
                assert(out@ =~= out0 + seq![out@[out0.len() as int]]);
            } else {
                assert(out@ =~= out0);
            }
        }
        i = i + 1;
    }
    proof {
        assert(data@.take(data@.len() as int) =~= data@);
    }
    Some(out)
}

/// The elements of the first output tensor of an inference reply as JSON
/// number texts (the classification scores, for the top-k summary),
/// non-numbers skipped.
pub fn first_output_number_texts(body: &str) -> (r: Option<Vec<String>>)
    ensures
        match spec_json_of(body@) {
            Some(j) => match spec_first_output_data(j) {
                Some(data) => r matches Some(v) && spec_views(v@) == spec_num_texts_of(data),
                None => r is None,
            },
            None => r is None,
        },
{
    let v = match parse_json(body) {
        Some(v) => v,
        None => {
            return None;
        },
    };
    let data = match &v {
        JsonVal::Obj(fs) => match obj_get(fs, "outputs") {
            Some(JsonVal::Arr(outs)) => {
                if outs.len() == 0 {
                    return None;
                }
                match &outs[0] {
                    JsonVal::Obj(ofs) => match obj_get(ofs, "data") {
                        Some(JsonVal::Arr(d)) => d,
                        _ => {
                            return None;
                        },
                    },
                    _ => {
                        return None;
                    },
                }
            },
            _ => {
                return None;
            },
        },
        _ => {
            return None;
        },
    };
    let mut out: Vec<String> = Vec::new();
    let mut i: usize = 0;
    proof {
        assert(spec_views(out@) =~= spec_num_texts_of(data@.take(0)));
    }
    while i < data.len()
        invariant
            i <= data@.len(),
            spec_views(out@) == spec_num_texts_of(data@.take(i as int)),
        decreases data@.len() - i,
    {
        let ghost out0 = out@;
        match &data[i] {
            JsonVal::UInt(u) => {
                let mut s = String::new();
                append_u64(&mut s, *u);
                out.push(s);
            },
            JsonVal::Int(n) => {
                let mut s = String::new();
                append_i64(&mut s, *n);
                out.push(s);
            },
            JsonVal::NumText(s) => {
                out.push(s.clone());
            },
            _ => {},
        }
        proof {
            assert(data@.take(i + 1).drop_last() =~= data@.take(i as int));
            assert(data@.take(i + 1).last() == data@[i as int]);
            if out@.len() > out0.len() {
                assert(spec_views(out@) =~= spec_views(out0) + seq![out@[out0.len() as int]@]);
            } else {
                assert(spec_views(out@) =~= spec_views(out0));
            }
        }
        i = i + 1;
    }
    proof {
        assert(data@.take(data@.len() as int) =~= data@);
    }
    Some(out)
}

} // verus!
