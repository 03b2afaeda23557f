use vstd::prelude::*;

use crate::cast::{bool_word, f64_integral_value, in_i64_range, parse_i64_spec};
use crate::datatypes::{copy_datatype, copy_struct_type, ConcreteDatatype, ListType};
use crate::schema::Schema;
use crate::text::str_eq;
use crate::value::{value_eq, value_has_type, ListValue, StructValue, Value};

verus! {

/// A JSON number as the decoder read it: its value as `i64` and as `u64`
/// where it is an integer that fits, its nearest 64-bit and 32-bit floats
/// (bit patterns; the latter when in range), and its text.
#[derive(Debug)]
pub struct JsonNumber {
    pub int: Option<i64>,
    pub uint: Option<u64>,
    pub float_bits: u64,
    pub float32_bits: Option<u32>,
    pub text: String,
}

/// A parsed JSON document. Object members keep their order.
#[derive(Debug)]
pub enum JsonValue {
    Null,
    Bool(bool),
    Number(JsonNumber),
    String(String),
    Array(Vec<JsonValue>),
    Object(Vec<(String, JsonValue)>),
}

/// The kinds of JSON value, as named in errors.
#[derive(Debug, Clone, Copy, PartialEq, Eq, Structural)]
pub enum JsonKind {
    Null,
    Bool,
    Number,
    String,
    Array,
    Object,
}

/// The datatype kinds, as named in errors.
#[derive(Debug, Clone, Copy, PartialEq, Eq, Structural)]
pub enum TypeKind {
    Null,
    Int8,
    Int16,
    Int32,
    Int64,
    Uint8,
    Uint16,
    Uint32,
    Uint64,
    Float32,
    Float64,
    String,
    Bool,
    Struct,
    List,
}

#[derive(Debug, Clone, Copy, PartialEq, Eq, Structural)]
pub enum JsonError {
    /// The document is not a JSON object.
    InvalidFormat,
    /// A value of this JSON kind cannot be read as this type.
    TypeMismatch { expected: TypeKind, actual: JsonKind },
}

pub open spec fn json_kind(j: JsonValue) -> JsonKind {
    match j {
        JsonValue::Null => JsonKind::Null,
        JsonValue::Bool(_) => JsonKind::Bool,
        JsonValue::Number(_) => JsonKind::Number,
        JsonValue::String(_) => JsonKind::String,
        JsonValue::Array(_) => JsonKind::Array,
        JsonValue::Object(_) => JsonKind::Object,
    }
}

pub open spec fn type_kind(dt: ConcreteDatatype) -> TypeKind {
    match dt {
        ConcreteDatatype::Null => TypeKind::Null,
        ConcreteDatatype::Int8 => TypeKind::Int8,
        ConcreteDatatype::Int16 => TypeKind::Int16,
        ConcreteDatatype::Int32 => TypeKind::Int32,
        ConcreteDatatype::Int64(_) => TypeKind::Int64,
        ConcreteDatatype::Uint8 => TypeKind::Uint8,
        ConcreteDatatype::Uint16 => TypeKind::Uint16,
        ConcreteDatatype::Uint32 => TypeKind::Uint32,
        ConcreteDatatype::Uint64 => TypeKind::Uint64,
        ConcreteDatatype::Float32 => TypeKind::Float32,
        ConcreteDatatype::Float64(_) => TypeKind::Float64,
        ConcreteDatatype::String(_) => TypeKind::String,
        ConcreteDatatype::Bool(_) => TypeKind::Bool,
        ConcreteDatatype::Struct(_) => TypeKind::Struct,
        ConcreteDatatype::List(_) => TypeKind::List,
    }
}

fn kind_of_type(dt: &ConcreteDatatype) -> (r: TypeKind)
    ensures
        r == type_kind(*dt),
{
    match dt {
        ConcreteDatatype::Null => TypeKind::Null,
        ConcreteDatatype::Int8 => TypeKind::Int8,
        ConcreteDatatype::Int16 => TypeKind::Int16,
        ConcreteDatatype::Int32 => TypeKind::Int32,
        ConcreteDatatype::Int64(_) => TypeKind::Int64,
        ConcreteDatatype::Uint8 => TypeKind::Uint8,
        ConcreteDatatype::Uint16 => TypeKind::Uint16,
        ConcreteDatatype::Uint32 => TypeKind::Uint32,
        ConcreteDatatype::Uint64 => TypeKind::Uint64,
        ConcreteDatatype::Float32 => TypeKind::Float32,
        ConcreteDatatype::Float64(_) => TypeKind::Float64,
        ConcreteDatatype::String(_) => TypeKind::String,
        ConcreteDatatype::Bool(_) => TypeKind::Bool,
        ConcreteDatatype::Struct(_) => TypeKind::Struct,
        ConcreteDatatype::List(_) => TypeKind::List,
    }
}

fn kind_of_json(j: &JsonValue) -> (r: JsonKind)
    ensures
        r == json_kind(*j),
{
    match j {
        JsonValue::Null => JsonKind::Null,
        JsonValue::Bool(_) => JsonKind::Bool,
        JsonValue::Number(_) => JsonKind::Number,
        JsonValue::String(_) => JsonKind::String,
        JsonValue::Array(_) => JsonKind::Array,
        JsonValue::Object(_) => JsonKind::Object,
    }
}

pub open spec fn is_scalar_type(dt: ConcreteDatatype) -> bool {
    !(dt is Struct || dt is List)
}

/// The default value of a scalar type other than String: zero, false, or null.
pub open spec fn scalar_default(dt: ConcreteDatatype) -> Value {
    match dt {
        ConcreteDatatype::Int8 => Value::Int8(0),
        ConcreteDatatype::Int16 => Value::Int16(0),
        ConcreteDatatype::Int32 => Value::Int32(0),
        ConcreteDatatype::Int64(_) => Value::Int64(0),
        ConcreteDatatype::Uint8 => Value::Uint8(0),
        ConcreteDatatype::Uint16 => Value::Uint16(0),
        ConcreteDatatype::Uint32 => Value::Uint32(0),
        ConcreteDatatype::Uint64 => Value::Uint64(0),
        ConcreteDatatype::Float32 => Value::Float32(0),
        ConcreteDatatype::Float64(_) => Value::Float64(0),
        ConcreteDatatype::Bool(_) => Value::Bool(false),
        _ => Value::Null,
    }
}

/// Reads the integer `n` as a value of an integer type, when it is one and in range.
pub open spec fn int_as(dt: ConcreteDatatype, n: int) -> Option<Value> {
    match dt {
        ConcreteDatatype::Int8 => if i8::MIN <= n <= i8::MAX { Some(Value::Int8(n as i8)) } else { None },
        ConcreteDatatype::Int16 => if i16::MIN <= n <= i16::MAX { Some(Value::Int16(n as i16)) } else { None },
        ConcreteDatatype::Int32 => if i32::MIN <= n <= i32::MAX { Some(Value::Int32(n as i32)) } else { None },
        ConcreteDatatype::Int64(_) => if i64::MIN <= n <= i64::MAX { Some(Value::Int64(n as i64)) } else { None },
        ConcreteDatatype::Uint8 => if 0 <= n <= u8::MAX { Some(Value::Uint8(n as u8)) } else { None },
        ConcreteDatatype::Uint16 => if 0 <= n <= u16::MAX { Some(Value::Uint16(n as u16)) } else { None },
        ConcreteDatatype::Uint32 => if 0 <= n <= u32::MAX { Some(Value::Uint32(n as u32)) } else { None },
        ConcreteDatatype::Uint64 => if 0 <= n <= u64::MAX { Some(Value::Uint64(n as u64)) } else { None },
        _ => None,
    }
}

pub open spec fn mismatch(dt: ConcreteDatatype, j: JsonValue) -> Result<Value, JsonError> {
    Err(JsonError::TypeMismatch { expected: type_kind(dt), actual: json_kind(j) })
}

/// Reading a JSON value as a value of a scalar type: null gives the
/// type's default; booleans read as 1/0 for numbers and "true"/"false" for
/// strings; numbers read by value (integers in range; floats when they hold
/// an integer in range), or as their text for strings; strings read by the
/// cast rules (`parse_i64_spec`, `bool_word`).
pub open spec fn scalar_from_json(j: JsonValue, dt: ConcreteDatatype) -> Result<Value, JsonError> {
    match j {
        JsonValue::Null => Ok(scalar_default(dt)),
        JsonValue::Bool(b) => match dt {
            ConcreteDatatype::Bool(_) => Ok(Value::Bool(b)),
            ConcreteDatatype::Float64(_) => Ok(Value::Float64(if b { 0x3ff0_0000_0000_0000 } else { 0 })),
            ConcreteDatatype::Float32 => Ok(Value::Float32(if b { 0x3f80_0000 } else { 0 })),
            _ => match int_as(dt, if b { 1 } else { 0 }) {
                Some(v) => Ok(v),
                None => mismatch(dt, j),
            },
        },
        JsonValue::Number(n) => match dt {
            ConcreteDatatype::Float64(_) => Ok(Value::Float64(n.float_bits)),
            ConcreteDatatype::Float32 => match n.float32_bits {
                Some(b) => Ok(Value::Float32(b)),
                None => mismatch(dt, j),
            },
            _ => {
                let as_int: Option<int> = match n.int {
                    Some(i) => Some(i as int),
                    None => match n.uint {
                        Some(u) => Some(u as int),
                        None => match f64_integral_value(n.float_bits) {
                            Some(i) => if in_i64_range(i) {
                                Some(i)
                            } else {
                                None
                            },
                            None => None,
                        },
                    },
                };
                match as_int {
                    Some(i) => match int_as(dt, i) {
                        Some(v) => Ok(v),
                        None => mismatch(dt, j),
                    },
                    None => mismatch(dt, j),
                }
            },
        },
        JsonValue::String(s) => match dt {
            ConcreteDatatype::Bool(_) => match bool_word(s@) {
                Some(b) => Ok(Value::Bool(b)),
                None => mismatch(dt, j),
            },
            _ => match parse_i64_spec(s@) {
                Some(i) => match int_as(dt, i as int) {
                    Some(v) => Ok(v),
                    None => mismatch(dt, j),
                },
                None => mismatch(dt, j),
            },
        },
        _ => mismatch(dt, j),
    }
}

/// The text a JSON value gives when read as a string: empty for null,
/// `true`/`false`, a number's text, or the string itself.
pub open spec fn json_text(j: JsonValue) -> Option<Seq<char>> {
    match j {
        JsonValue::Null => Some(Seq::empty()),
        JsonValue::Bool(b) => Some(if b { "true"@ } else { "false"@ }),
        JsonValue::Number(n) => Some(n.text@),
        JsonValue::String(s) => Some(s@),
        _ => None,
    }
}

/// What reading `j` as a scalar type gives (`json_text` for strings,
/// `scalar_from_json` for the others).
pub open spec fn reads_scalar(r: Result<Value, JsonError>, j: JsonValue, dt: ConcreteDatatype) -> bool {
    if dt is String {
        match json_text(j) {
            Some(t) => r is Ok && r->Ok_0 is String && r->Ok_0->String_0@ == t,
            None => r == mismatch(dt, j),
        }
    } else {
        r == scalar_from_json(j, dt)
    }
}

fn int_value_as(dt: &ConcreteDatatype, n: i128) -> (r: Option<Value>)
    requires
        i64::MIN <= n <= u64::MAX,
    ensures
        r == int_as(*dt, n as int),
{
    match dt {
        ConcreteDatatype::Int8 => if -128 <= n && n <= 127 { Some(Value::Int8(n as i8)) } else { None },
        ConcreteDatatype::Int16 => if -32768 <= n && n <= 32767 { Some(Value::Int16(n as i16)) } else { None },
        ConcreteDatatype::Int32 => if -2147483648 <= n && n <= 2147483647 { Some(Value::Int32(n as i32)) } else { None },
        ConcreteDatatype::Int64(_) => if i64::MIN as i128 <= n && n <= i64::MAX as i128 { Some(Value::Int64(n as i64)) } else { None },
        ConcreteDatatype::Uint8 => if 0 <= n && n <= 255 { Some(Value::Uint8(n as u8)) } else { None },
        ConcreteDatatype::Uint16 => if 0 <= n && n <= 65535 { Some(Value::Uint16(n as u16)) } else { None },
        ConcreteDatatype::Uint32 => if 0 <= n && n <= 4294967295 { Some(Value::Uint32(n as u32)) } else { None },
        ConcreteDatatype::Uint64 => if 0 <= n && n <= u64::MAX as i128 { Some(Value::Uint64(n as u64)) } else { None },
        _ => None,
    }
}

fn mismatch_error(dt: &ConcreteDatatype, j: &JsonValue) -> (r: Result<Value, JsonError>)
    ensures
        r == mismatch(*dt, *j),
{
    Err(JsonError::TypeMismatch { expected: kind_of_type(dt), actual: kind_of_json(j) })
}

/// The default value of a type: `scalar_default` for scalars, an empty
/// list of the element type, or a struct of the fields' defaults.
pub fn default_value_of(dt: &ConcreteDatatype) -> (r: Value)
    ensures
        is_scalar_type(*dt) && !(*dt is String) ==> r == scalar_default(*dt),
        *dt is String ==> r is String && r->String_0@ == Seq::<char>::empty(),
        !is_scalar_type(*dt) ==> value_has_type(r, *dt),
    decreases dt,
{
    match dt {
        ConcreteDatatype::Int8 => Value::Int8(0),
        ConcreteDatatype::Int16 => Value::Int16(0),
        ConcreteDatatype::Int32 => Value::Int32(0),
        ConcreteDatatype::Int64(_) => Value::Int64(0),
        ConcreteDatatype::Uint8 => Value::Uint8(0),
        ConcreteDatatype::Uint16 => Value::Uint16(0),
        ConcreteDatatype::Uint32 => Value::Uint32(0),
        ConcreteDatatype::Uint64 => Value::Uint64(0),
        ConcreteDatatype::Float32 => Value::Float32(0),
        ConcreteDatatype::Float64(_) => Value::Float64(0),
        ConcreteDatatype::String(_) => Value::String(String::new()),
        ConcreteDatatype::Bool(_) => Value::Bool(false),
        ConcreteDatatype::Null => Value::Null,
        ConcreteDatatype::List(lt) => {
            let item = copy_datatype(&lt.item);
            proof {
                crate::datatypes::lemma_datatype_eq_symmetric(item, *lt.item);
            }
            Value::List(ListValue { items: Vec::new(), datatype: Box::new(item) })
        },
        ConcreteDatatype::Struct(st) => {
            let mut items: Vec<Value> = Vec::new();
            let mut i: usize = 0;
            while i < st.fields.len()
                invariant
                    0 <= i <= st.fields@.len(),
                    *dt == ConcreteDatatype::Struct(*st),
                decreases st.fields@.len() - i,
            {
                proof {
                    assert(decreases_to!(*dt => (*dt)->Struct_0));
                    assert(decreases_to!((*dt)->Struct_0 => st.fields));
                    assert(decreases_to!(st.fields => st.fields@));
                    assert(decreases_to!(st.fields@ => st.fields@[i as int]));
                    assert(decreases_to!(st.fields@[i as int] => st.fields@[i as int].datatype));
                }
                items.push(default_value_of(&st.fields[i].datatype));
                i += 1;
            }
            let fields = copy_struct_type(st);
            proof {
                crate::datatypes::lemma_datatype_eq_symmetric(ConcreteDatatype::Struct(fields), *dt);
            }
            Value::Struct(StructValue { items, fields })
        },
    }
}

fn scalar_json_value(j: &JsonValue, dt: &ConcreteDatatype) -> (r: Result<Value, JsonError>)
    requires
        is_scalar_type(*dt),
    ensures
        reads_scalar(r, *j, *dt),
{
    match j {
        JsonValue::Null => Ok(default_value_of(dt)),
        JsonValue::Bool(b) => match dt {
            ConcreteDatatype::Bool(_) => Ok(Value::Bool(*b)),
            ConcreteDatatype::Float64(_) => Ok(Value::Float64(if *b { 0x3ff0_0000_0000_0000 } else { 0 })),
            ConcreteDatatype::Float32 => Ok(Value::Float32(if *b { 0x3f80_0000 } else { 0 })),
            ConcreteDatatype::String(_) => Ok(Value::String(if *b { "true".to_string() } else { "false".to_string() })),
            _ => match int_value_as(dt, if *b { 1 } else { 0 }) {
                Some(v) => Ok(v),
                None => mismatch_error(dt, j),
            },
        },
        JsonValue::Number(n) => match dt {
            ConcreteDatatype::Float64(_) => Ok(Value::Float64(n.float_bits)),
            ConcreteDatatype::Float32 => match n.float32_bits {
                Some(b) => Ok(Value::Float32(b)),
                None => mismatch_error(dt, j),
            },
            ConcreteDatatype::String(_) => Ok(Value::String(n.text.clone())),
            _ => {
                let as_int: Option<i128> = match n.int {
                    Some(i) => Some(i as i128),
                    None => match n.uint {
                        Some(u) => Some(u as i128),
                        None => match crate::cast::f64_bits_to_i64(n.float_bits) {
                            Some(i) => Some(i as i128),
                            None => None,
                        },
                    },
                };
                match as_int {
                    Some(i) => match int_value_as(dt, i) {
                        Some(v) => Ok(v),
                        None => mismatch_error(dt, j),
                    },
                    None => mismatch_error(dt, j),
                }
            },
        },
        JsonValue::String(s) => match dt {
            ConcreteDatatype::String(_) => Ok(Value::String(s.clone())),
            ConcreteDatatype::Bool(_) => match crate::cast::parse_bool_word(s.as_str()) {
                Some(b) => Ok(Value::Bool(b)),
                None => mismatch_error(dt, j),
            },
            _ => match crate::cast::parse_i64(s.as_str()) {
                Some(i) => match int_value_as(dt, i as i128) {
                    Some(v) => Ok(v),
                    None => mismatch_error(dt, j),
                },
                None => mismatch_error(dt, j),
            },
        },
        _ => mismatch_error(dt, j),
    }
}

/// Reads a JSON value as a value of type `dt`: scalars by `reads_scalar`,
/// arrays as lists of the element type, objects as structs field by field
/// (a missing member reads as null, that is, as the field's default).
#[verifier::rlimit(90)]
pub fn json_value_to_value(j: &JsonValue, dt: &ConcreteDatatype) -> (r: Result<Value, JsonError>)
    ensures
        is_scalar_type(*dt) ==> reads_scalar(r, *j, *dt),
        !is_scalar_type(*dt) && r is Ok ==> value_has_type(r->Ok_0, *dt),
        dt is List && !(j is Array || j is Null) ==> r == mismatch(*dt, *j),
        dt is Struct && !(j is Object || j is Null) ==> r == mismatch(*dt, *j),
        dt is List && j is Array && r is Ok ==> r->Ok_0 is List && r->Ok_0->List_0.items@.len()
            == j->Array_0@.len() && forall|i: int|
            0 <= i < j->Array_0@.len() && is_scalar_type(*dt->List_0.item) ==> reads_scalar(
                Ok(#[trigger] r->Ok_0->List_0.items@[i]),
                j->Array_0@[i],
                *dt->List_0.item,
            ),
        dt is List && j is Array && is_scalar_type(*dt->List_0.item) && (forall|i: int|
            0 <= i < j->Array_0@.len() ==> scalar_ok(#[trigger] j->Array_0@[i], *dt->List_0.item)) ==> r is Ok,
        dt is Struct && j is Object && r is Ok ==> r->Ok_0 is Struct && r->Ok_0->Struct_0.items@.len()
            == dt->Struct_0.fields@.len() && forall|f: int|
            0 <= f < dt->Struct_0.fields@.len() && is_scalar_type(dt->Struct_0.fields@[f].datatype) ==> reads_scalar(
                Ok(#[trigger] r->Ok_0->Struct_0.items@[f]),
                member_or_null(j->Object_0@, dt->Struct_0.fields@[f].name@),
                dt->Struct_0.fields@[f].datatype,
            ),
        dt is Struct && j is Object && (forall|f: int|
            0 <= f < dt->Struct_0.fields@.len() ==> is_scalar_type((#[trigger] dt->Struct_0.fields@[f]).datatype)
                && scalar_ok(member_or_null(j->Object_0@, dt->Struct_0.fields@[f].name@), dt->Struct_0.fields@[f].datatype))
            ==> r is Ok,
    decreases j,
{
    match dt {
        ConcreteDatatype::List(lt) => match j {
            JsonValue::Null => Ok(default_value_of(dt)),
            JsonValue::Array(items) => {
                let mut out: Vec<Value> = Vec::new();
                let mut i: usize = 0;
                while i < items.len()
                    invariant
                        0 <= i <= items@.len(),
                        *j == JsonValue::Array(*items),
                        *dt == ConcreteDatatype::List(*lt),
                        out@.len() == i,
                        forall|k: int|
                            0 <= k < i && is_scalar_type(*lt.item) ==> reads_scalar(
                                Ok(#[trigger] out@[k]),
                                items@[k],
                                *lt.item,
                            ),
                    decreases items@.len() - i,
                {
                    proof {
                        assert(decreases_to!(*j => (*j)->Array_0));
                        assert(decreases_to!((*j)->Array_0 => items@));
                        assert(decreases_to!(items@ => items@[i as int]));
                    }
                    match json_value_to_value(&items[i], &lt.item) {
                        Ok(v) => out.push(v),
                        Err(e) => {
                            proof {
                                if is_scalar_type(*lt.item) {
                                    assert(!scalar_ok(items@[i as int], *lt.item));
                                }
                            }
                            return Err(e);
                        },
                    }
                    i += 1;
                }
                let item = copy_datatype(&lt.item);
                proof {
                    crate::datatypes::lemma_datatype_eq_symmetric(item, *lt.item);
                }
                Ok(Value::List(ListValue { items: out, datatype: Box::new(item) }))
            },
            _ => mismatch_error(dt, j),
        },
        ConcreteDatatype::Struct(st) => match j {
            JsonValue::Null => Ok(default_value_of(dt)),
            JsonValue::Object(members) => {
                let mut out: Vec<Value> = Vec::new();
                let mut f: usize = 0;
                while f < st.fields.len()
                    invariant
                        0 <= f <= st.fields@.len(),
                        *j == JsonValue::Object(*members),
                        *dt == ConcreteDatatype::Struct(*st),
                        out@.len() == f,
                        forall|k: int|
                            0 <= k < f && is_scalar_type(st.fields@[k].datatype) ==> reads_scalar(
                                Ok(#[trigger] out@[k]),
                                member_or_null(members@, st.fields@[k].name@),
                                st.fields@[k].datatype,
                            ),
                    decreases st.fields@.len() - f,
                {
                    let field = &st.fields[f];
                    let ghost fd = st.fields@[f as int];
                    let found = find_member(members, field.name.as_str());
                    let v = match found {
                        Some(k) => {
                            proof {
                                assert(decreases_to!(*j => (*j)->Object_0));
                                assert(decreases_to!((*j)->Object_0 => members@));
                                assert(decreases_to!(members@ => members@[k as int]));
                                assert(decreases_to!(members@[k as int] => members@[k as int].1));
                            }
                            match json_value_to_value(&members[k].1, &field.datatype) {
                                Ok(v) => v,
                                Err(e) => {
                                    proof {
                                        if is_scalar_type(field.datatype) {
                                            assert(!scalar_ok(member_or_null(members@, field.name@), field.datatype));
                                        }
                                    }
                                    return Err(e);
                                },
                            }
                        },
                        None => json_value_to_value_default(&field.datatype),
                    };
                    proof {
                        if is_scalar_type(fd.datatype) {
                            assert(reads_scalar(Ok(v), member_or_null(members@, fd.name@), fd.datatype));
                        }
                    }
                    out.push(v);
                    f += 1;
                }
                let fields = copy_struct_type(st);
                proof {
                    crate::datatypes::lemma_datatype_eq_symmetric(ConcreteDatatype::Struct(fields), *dt);
                }
                Ok(Value::Struct(StructValue { items: out, fields }))
            },
            _ => mismatch_error(dt, j),
        },
        _ => scalar_json_value(j, dt),
    }
}

/// The value a missing member reads as: the type's default, which is
/// what reading null gives.
fn json_value_to_value_default(dt: &ConcreteDatatype) -> (r: Value)
    ensures
        is_scalar_type(*dt) ==> reads_scalar(Ok(r), JsonValue::Null, *dt),
{
    default_value_of(dt)
}

/// The first member of an object with this key.
pub open spec fn member(members: Seq<(String, JsonValue)>, key: Seq<char>) -> Option<int> {
    if exists|k: int| 0 <= k < members.len() && (#[trigger] members[k]).0@ == key {
        Some(choose|k: int| 0 <= k < members.len() && (#[trigger] members[k]).0@ == key
            && forall|q: int| 0 <= q < k ==> (#[trigger] members[q]).0@ != key)
    } else {
        None
    }
}

/// The member with this key, or null when there is none.
pub open spec fn member_or_null(members: Seq<(String, JsonValue)>, key: Seq<char>) -> JsonValue {
    match member(members, key) {
        Some(k) => members[k].1,
        None => JsonValue::Null,
    }
}

fn find_member(members: &Vec<(String, JsonValue)>, key: &str) -> (r: Option<usize>)
    ensures
        r matches Some(k) ==> k < members@.len() && member(members@, key@) == Some(k as int),
        r is None ==> member(members@, key@) is None,
{
    let mut i: usize = 0;
    while i < members.len()
        invariant
            0 <= i <= members@.len(),
            forall|q: int| 0 <= q < i ==> (#[trigger] members@[q]).0@ != key@,
        decreases members@.len() - i,
    {
        if str_eq(members[i].0.as_str(), key) {
            proof {
                let k = i as int;
                assert(members@[k].0@ == key@);
                let c = choose|c: int| 0 <= c < members@.len() && (#[trigger] members@[c]).0@ == key@
                    && forall|q: int| 0 <= q < c ==> (#[trigger] members@[q]).0@ != key@;
                if c < k {
                } else if c > k {
                    assert(members@[k].0@ != key@);
                }
            }
            return Some(i);
        }
        i += 1;
    }
    None
}

/// A row read from a JSON object: one value per column of its schema.
#[derive(Debug)]
pub struct Tuple {
    pub schema: Schema,
    pub values: Vec<Value>,
}

/// Reading `j` as a scalar type succeeds.
pub open spec fn scalar_ok(j: JsonValue, dt: ConcreteDatatype) -> bool {
    if dt is String {
        json_text(j) is Some
    } else {
        scalar_from_json(j, dt) is Ok
    }
}

impl Tuple {
    /// Reads one value per schema column from a JSON object, by column
    /// name; a missing or null member gives the column type's default.
    pub fn new_from_json(schema: Schema, json: &JsonValue) -> (r: Result<Tuple, JsonError>)
        ensures
            !(*json is Object) ==> r == Err::<Tuple, JsonError>(JsonError::InvalidFormat),
            r is Ok ==> r->Ok_0.schema == schema && r->Ok_0.values@.len() == schema.column_schemas@.len(),
            r is Ok ==> forall|c: int|
                0 <= c < schema.column_schemas@.len() && is_scalar_type(
                    (#[trigger] schema.column_schemas@[c]).data_type,
                ) ==> reads_scalar(
                    Ok(r->Ok_0.values@[c]),
                    member_or_null(json->Object_0@, schema.column_schemas@[c].name@),
                    schema.column_schemas@[c].data_type,
                ),
            *json is Object && (forall|c: int|
                0 <= c < schema.column_schemas@.len() ==> is_scalar_type(
                    (#[trigger] schema.column_schemas@[c]).data_type,
                ) && scalar_ok(
                    member_or_null(json->Object_0@, schema.column_schemas@[c].name@),
                    schema.column_schemas@[c].data_type,
                )) ==> r is Ok,
    {
        let members = match json {
            JsonValue::Object(m) => m,
            _ => {
                return Err(JsonError::InvalidFormat);
            },
        };
        let mut values: Vec<Value> = Vec::new();
        let mut c: usize = 0;
        while c < schema.column_schemas.len()
            invariant
                0 <= c <= schema.column_schemas@.len(),
                *json == JsonValue::Object(*members),
                values@.len() == c,
                forall|k: int|
                    0 <= k < c && is_scalar_type((#[trigger] schema.column_schemas@[k]).data_type)
                        ==> reads_scalar(
                        Ok(values@[k]),
                        member_or_null(members@, schema.column_schemas@[k].name@),
                        schema.column_schemas@[k].data_type,
                    ),
            decreases schema.column_schemas@.len() - c,
        {
            let col = &schema.column_schemas[c];
            let v = match find_member(members, col.name.as_str()) {
                Some(k) => json_value_to_value(&members[k].1, &col.data_type),
                None => json_value_to_value(&JsonValue::Null, &col.data_type),
            };
            match v {
                Ok(v) => {
                    values.push(v);
                },
                Err(e) => {
                    proof {
                        if is_scalar_type(col.data_type) {
                            assert(!scalar_ok(member_or_null(members@, col.name@), col.data_type));
                        }
                    }
                    return Err(e);
                },
            }
            c += 1;
        }
        Ok(Tuple { schema, values })
    }

    /// A one-row batch: one column per value, named and sourced by its
    /// schema column. A tuple without values, or with more values than its
    /// schema has columns, makes no batch.
    pub fn to_record_batch(self) -> (r: Result<crate::batch::RecordBatch, crate::batch::BatchError>)
        ensures
            self.values@.len() == 0 ==> r == Err::<crate::batch::RecordBatch, crate::batch::BatchError>(
                crate::batch::BatchError::NoColumns,
            ),
            self.values@.len() > self.schema.column_schemas@.len() ==> r is Err,
            0 < self.values@.len() <= self.schema.column_schemas@.len() ==> r is Ok && r->Ok_0.wf()
                && r->Ok_0.columns@.len() == self.values@.len() && forall|c: int|
                0 <= c < self.values@.len() ==> {
                    &&& (#[trigger] r->Ok_0.columns@[c]).name@ == self.schema.column_schemas@[c].name@
                    &&& r->Ok_0.columns@[c].source_name@ == self.schema.column_schemas@[c].source_name@
                    &&& r->Ok_0.columns@[c].values@ == seq![self.values@[c]]
                },
    {
        let Tuple { schema, values } = self;
        if values.len() == 0 {
            return Err(crate::batch::BatchError::NoColumns);
        }
        if values.len() > schema.column_schemas.len() {
            return Err(crate::batch::BatchError::RaggedColumns);
        }
        let ghost orig = values@;
        let ncols = schema.column_schemas.len();
        let mut rest = values;
        let mut columns: Vec<crate::batch::Column> = Vec::new();
        let mut c: usize = 0;
        while rest.len() > 0
            invariant
                ncols == schema.column_schemas@.len(),
                orig.len() <= ncols,
                c + rest@.len() == orig.len(),
                rest@ == orig.subrange(c as int, orig.len() as int),
                columns@.len() == c,
                forall|k: int|
                    0 <= k < c ==> {
                        &&& (#[trigger] columns@[k]).name@ == schema.column_schemas@[k].name@
                        &&& columns@[k].source_name@ == schema.column_schemas@[k].source_name@
                        &&& columns@[k].values@ == seq![orig[k]]
                    },
            decreases rest@.len(),
        {
            let v = rest.remove(0);
            let mut vals: Vec<Value> = Vec::new();
            vals.push(v);
            let col = &schema.column_schemas[c];
            columns.push(
                crate::batch::Column {
                    source_name: col.source_name.clone(),
                    name: col.name.clone(),
                    values: vals,
                },
            );
            proof {
                assert(columns@[c as int].values@ =~= seq![orig[c as int]]);
                assert(rest@ =~= orig.subrange(c + 1, orig.len() as int));
            }
            c += 1;
        }
        assert(crate::batch::columns_uniform(columns@));
        Ok(crate::batch::RecordBatch { columns })
    }

    /// The value of the first column with this name.
    pub fn get_by_name(&self, name: &str) -> (r: Option<&Value>)
        ensures
            r matches Some(v) ==> exists|i: int|
                0 <= i < self.values@.len() && i < self.schema.column_schemas@.len()
                    && self.schema.column_schemas@[i].name@ == name@ && self.values@[i] == *v
                    && forall|k: int| 0 <= k < i ==> (#[trigger] self.schema.column_schemas@[k]).name@ != name@,
    {
        match self.schema.index_of(name) {
            Some(i) => {
                if i < self.values.len() {
                    Some(&self.values[i])
                } else {
                    None
                }
            },
            None => None,
        }
    }

    pub fn len(&self) -> (r: usize)
        ensures
            r == self.values@.len(),
    {
        self.values.len()
    }

    pub fn get(&self, index: usize) -> (r: Option<&Value>)
        ensures
            index < self.values@.len() ==> r == Some(&self.values@[index as int]),
            index >= self.values@.len() ==> r is None,
    {
        if index < self.values.len() {
            Some(&self.values[index])
        } else {
            None
        }
    }
}

/// Positions among the first `n` values that are not null, in order.
pub open spec fn present_positions(values: Seq<Value>, n: nat) -> Seq<int>
    decreases n,
{
    if n == 0 {
        Seq::empty()
    } else {
        let p = present_positions(values, (n - 1) as nat);
        if values[n - 1] is Null {
            p
        } else {
            p.push(n - 1)
        }
    }
}

/// Why a tuple makes no batch.
#[derive(Debug, Clone, Copy, PartialEq, Eq, Structural)]
pub enum TupleBatchError {
    /// Every value is null, or there is none.
    Empty,
}

impl TupleBatchError {
    pub fn message(&self) -> (r: String) {
        "tuple is empty: no value to convert".to_string()
    }
}

/// A one-row batch of the tuple's non-null values, one column each, named
/// and sourced by its schema column; nulls are left out.
pub fn tuple_to_record_batch(tuple: &Tuple) -> (r: Result<crate::batch::RecordBatch, TupleBatchError>)
    ensures
        ({
            let n = if tuple.values@.len() <= tuple.schema.column_schemas@.len() {
                tuple.values@.len()
            } else {
                tuple.schema.column_schemas@.len()
            };
            let pos = present_positions(tuple.values@, n);
            &&& pos.len() == 0 <==> r is Err
            &&& r is Ok ==> r->Ok_0.wf() && r->Ok_0.columns@.len() == pos.len() && forall|k: int|
                0 <= k < pos.len() ==> {
                    &&& (#[trigger] r->Ok_0.columns@[k]).name@ == tuple.schema.column_schemas@[pos[k]].name@
                    &&& r->Ok_0.columns@[k].source_name@ == tuple.schema.column_schemas@[pos[k]].source_name@
                    &&& r->Ok_0.columns@[k].values@.len() == 1
                    &&& value_eq(r->Ok_0.columns@[k].values@[0], tuple.values@[pos[k]])
                }
        }),
{
    let n = if tuple.values.len() <= tuple.schema.column_schemas.len() {
        tuple.values.len()
    } else {
        tuple.schema.column_schemas.len()
    };
    let mut columns: Vec<crate::batch::Column> = Vec::new();
    let mut i: usize = 0;
    while i < n
        invariant
            n <= tuple.values@.len(),
            n <= tuple.schema.column_schemas@.len(),
            0 <= i <= n,
            columns@.len() == present_positions(tuple.values@, i as nat).len(),
            forall|q: int| 0 <= q < present_positions(tuple.values@, i as nat).len()
                ==> 0 <= #[trigger] present_positions(tuple.values@, i as nat)[q] < i,
            forall|k: int|
                0 <= k < columns@.len() ==> {
                    let pk = present_positions(tuple.values@, i as nat)[k];
                    &&& (#[trigger] columns@[k]).name@ == tuple.schema.column_schemas@[pk].name@
                    &&& columns@[k].source_name@ == tuple.schema.column_schemas@[pk].source_name@
                    &&& columns@[k].values@.len() == 1
                    &&& value_eq(columns@[k].values@[0], tuple.values@[pk])
                },
        decreases n - i,
    {
        let v = &tuple.values[i];
        let ghost before = present_positions(tuple.values@, i as nat);
        if !v.is_null() {
            let mut vals: Vec<Value> = Vec::new();
            vals.push(crate::value::copy_value(v));
            let col = &tuple.schema.column_schemas[i];
            columns.push(
                crate::batch::Column {
                    source_name: col.source_name.clone(),
                    name: col.name.clone(),
                    values: vals,
                },
            );
            proof {
                assert(present_positions(tuple.values@, (i + 1) as nat) == before.push(i as int));
            }
        } else {
            proof {
                assert(present_positions(tuple.values@, (i + 1) as nat) == before);
            }
        }
        i += 1;
    }
    if columns.len() == 0 {
        return Err(TupleBatchError::Empty);
    }
    assert(crate::batch::columns_uniform(columns@));
    Ok(crate::batch::RecordBatch { columns })
}

} // verus!
