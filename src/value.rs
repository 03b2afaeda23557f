use vstd::prelude::*;
use vstd::string::StrSliceExecFns;

use crate::datatypes::{
    copy_datatype, copy_struct_type, datatype_eq, datatypes_equal, struct_types_equal,
    BooleanType, ConcreteDatatype, Float64Type, Int64Type, ListType, StringType, StructType,
};

verus! {

/// A list value: its items and the datatype of its elements.
#[derive(Debug)]
pub struct ListValue {
    pub items: Vec<Value>,
    pub datatype: Box<ConcreteDatatype>,
}

/// A struct value: one item per field of its descriptor.
#[derive(Debug)]
pub struct StructValue {
    pub items: Vec<Value>,
    pub fields: StructType,
}

/// A dynamically typed value. Floating point numbers are held as their
/// IEEE-754 bit patterns.
#[derive(Debug)]
pub enum Value {
    Null,
    Float32(u32),
    Float64(u64),
    Int8(i8),
    Int16(i16),
    Int32(i32),
    Int64(i64),
    Uint8(u8),
    Uint16(u16),
    Uint32(u32),
    Uint64(u64),
    String(String),
    Bool(bool),
    Struct(StructValue),
    List(ListValue),
}

pub open spec fn f32_is_nan(b: u32) -> bool {
    b & 0x7f80_0000u32 == 0x7f80_0000u32 && b & 0x007f_ffffu32 != 0
}

pub open spec fn f32_is_zero(b: u32) -> bool {
    b & 0x7fff_ffffu32 == 0
}

pub open spec fn f64_is_nan(b: u64) -> bool {
    b & 0x7ff0_0000_0000_0000u64 == 0x7ff0_0000_0000_0000u64 && b & 0x000f_ffff_ffff_ffffu64 != 0
}

pub open spec fn f64_is_zero(b: u64) -> bool {
    b & 0x7fff_ffff_ffff_ffffu64 == 0
}

/// Float equality with NaN equal to NaN: the IEEE comparison (where
/// +0 equals -0) extended by that one case.
pub open spec fn f32_same(a: u32, b: u32) -> bool {
    a == b || (f32_is_nan(a) && f32_is_nan(b)) || (f32_is_zero(a) && f32_is_zero(b))
}

pub open spec fn f64_same(a: u64, b: u64) -> bool {
    a == b || (f64_is_nan(a) && f64_is_nan(b)) || (f64_is_zero(a) && f64_is_zero(b))
}

/// Bits that a float hashes as: every NaN to one sentinel, both zeros to 0.
pub open spec fn f32_hash_bits(b: u32) -> u32 {
    if f32_is_nan(b) {
        u32::MAX
    } else if f32_is_zero(b) {
        0
    } else {
        b
    }
}

pub open spec fn f64_hash_bits(b: u64) -> u64 {
    if f64_is_nan(b) {
        u64::MAX
    } else if f64_is_zero(b) {
        0
    } else {
        b
    }
}

/// Equality of values: structural, with NaN equal to NaN and +0 equal to -0;
/// the order of list items and struct fields counts.
pub open spec fn value_eq(a: Value, b: Value) -> bool
    decreases a,
{
    match (a, b) {
        (Value::Null, Value::Null) => true,
        (Value::Float32(x), Value::Float32(y)) => f32_same(x, y),
        (Value::Float64(x), Value::Float64(y)) => f64_same(x, y),
        (Value::Int8(x), Value::Int8(y)) => x == y,
        (Value::Int16(x), Value::Int16(y)) => x == y,
        (Value::Int32(x), Value::Int32(y)) => x == y,
        (Value::Int64(x), Value::Int64(y)) => x == y,
        (Value::Uint8(x), Value::Uint8(y)) => x == y,
        (Value::Uint16(x), Value::Uint16(y)) => x == y,
        (Value::Uint32(x), Value::Uint32(y)) => x == y,
        (Value::Uint64(x), Value::Uint64(y)) => x == y,
        (Value::String(x), Value::String(y)) => x@ == y@,
        (Value::Bool(x), Value::Bool(y)) => x == y,
        (Value::Struct(x), Value::Struct(y)) => {
            &&& datatype_eq(ConcreteDatatype::Struct(x.fields), ConcreteDatatype::Struct(y.fields))
            &&& x.items@.len() == y.items@.len()
            &&& forall|i: int|
                #![trigger x.items@[i]]
                0 <= i < x.items@.len() ==> value_eq(x.items@[i], y.items@[i])
        },
        (Value::List(x), Value::List(y)) => {
            &&& datatype_eq(*x.datatype, *y.datatype)
            &&& x.items@.len() == y.items@.len()
            &&& forall|i: int|
                #![trigger x.items@[i]]
                0 <= i < x.items@.len() ==> value_eq(x.items@[i], y.items@[i])
        },
        _ => false,
    }
}

/// Decides `value_eq`.
pub fn values_equal(a: &Value, b: &Value) -> (r: bool)
    ensures
        r == value_eq(*a, *b),
    decreases a,
{
    match (a, b) {
        (Value::Null, Value::Null) => true,
        (Value::Float32(x), Value::Float32(y)) => {
            let nan_x = *x & 0x7f80_0000u32 == 0x7f80_0000u32 && *x & 0x007f_ffffu32 != 0;
            let nan_y = *y & 0x7f80_0000u32 == 0x7f80_0000u32 && *y & 0x007f_ffffu32 != 0;
            *x == *y || (nan_x && nan_y) || (*x & 0x7fff_ffffu32 == 0 && *y & 0x7fff_ffffu32 == 0)
        },
        (Value::Float64(x), Value::Float64(y)) => {
            let nan_x = *x & 0x7ff0_0000_0000_0000u64 == 0x7ff0_0000_0000_0000u64 && *x
                & 0x000f_ffff_ffff_ffffu64 != 0;
            let nan_y = *y & 0x7ff0_0000_0000_0000u64 == 0x7ff0_0000_0000_0000u64 && *y
                & 0x000f_ffff_ffff_ffffu64 != 0;
            *x == *y || (nan_x && nan_y) || (*x & 0x7fff_ffff_ffff_ffffu64 == 0 && *y
                & 0x7fff_ffff_ffff_ffffu64 == 0)
        },
        (Value::Int8(x), Value::Int8(y)) => *x == *y,
        (Value::Int16(x), Value::Int16(y)) => *x == *y,
        (Value::Int32(x), Value::Int32(y)) => *x == *y,
        (Value::Int64(x), Value::Int64(y)) => *x == *y,
        (Value::Uint8(x), Value::Uint8(y)) => *x == *y,
        (Value::Uint16(x), Value::Uint16(y)) => *x == *y,
        (Value::Uint32(x), Value::Uint32(y)) => *x == *y,
        (Value::Uint64(x), Value::Uint64(y)) => *x == *y,
        (Value::String(x), Value::String(y)) => *x == *y,
        (Value::Bool(x), Value::Bool(y)) => *x == *y,
        (Value::Struct(x), Value::Struct(y)) => {
            if !struct_types_equal(&x.fields, &y.fields) {
                return false;
            }
            items_equal(a, b, &x.items, &y.items)
        },
        (Value::List(x), Value::List(y)) => {
            if !datatypes_equal(&x.datatype, &y.datatype) {
                return false;
            }
            items_equal(a, b, &x.items, &y.items)
        },
        _ => false,
    }
}

/// Pairwise `value_eq` of two item vectors that sit directly inside `a` and `b`.
fn items_equal(a: &Value, b: &Value, xs: &Vec<Value>, ys: &Vec<Value>) -> (r: bool)
    requires
        (a is Struct && xs == a->Struct_0.items && b is Struct && ys == b->Struct_0.items) || (
        a is List && xs == a->List_0.items && b is List && ys == b->List_0.items),
    ensures
        r == (xs@.len() == ys@.len() && forall|i: int|
            #![trigger xs@[i]]
            0 <= i < xs@.len() ==> value_eq(xs@[i], ys@[i])),
    decreases a, 0nat,
{
    if xs.len() != ys.len() {
        return false;
    }
    let mut i: usize = 0;
    while i < xs.len()
        invariant
            0 <= i <= xs@.len(),
            xs@.len() == ys@.len(),
            (a is Struct && xs == a->Struct_0.items && b is Struct && ys == b->Struct_0.items) || (
            a is List && xs == a->List_0.items && b is List && ys == b->List_0.items),
            forall|j: int| #![trigger xs@[j]] 0 <= j < i ==> value_eq(xs@[j], ys@[j]),
        decreases xs@.len() - i,
    {
        proof {
            if a is Struct {
                assert(decreases_to!(*a => (*a)->Struct_0));
                assert(decreases_to!((*a)->Struct_0 => (*a)->Struct_0.items));
            } else {
                assert(decreases_to!(*a => (*a)->List_0));
                assert(decreases_to!((*a)->List_0 => (*a)->List_0.items));
            }
            assert(decreases_to!(*xs => xs@));
            assert(decreases_to!(xs@ => xs@[i as int]));
        }
        if !values_equal(&xs[i], &ys[i]) {
            return false;
        }
        i += 1;
    }
    true
}


pub const HASH_SEED: u64 = 0xcbf2_9ce4_8422_2325;

pub const HASH_PRIME: u64 = 0x0000_0100_0000_01b3;

/// One mixing step of the value hash.
pub open spec fn mix(h: u64, x: u64) -> u64 {
    (h ^ x).wrapping_mul(HASH_PRIME)
}

/// Hash of the first `n` characters of `s`.
pub open spec fn chars_hash(s: Seq<char>, n: nat) -> u64
    decreases n,
{
    if n == 0 || n > s.len() {
        HASH_SEED
    } else {
        mix(chars_hash(s, (n - 1) as nat), s[n - 1] as u32 as u64)
    }
}

/// Hash of the first `n` items of `s`.
pub open spec fn items_hash(s: Seq<Value>, n: nat) -> u64
    decreases s, n,
{
    if n == 0 || n > s.len() {
        HASH_SEED
    } else {
        mix(items_hash(s, (n - 1) as nat), value_hash(s[n - 1]))
    }
}

/// The hash of a value: a tag per kind, then the payload. Floats hash by
/// `f32_hash_bits` / `f64_hash_bits`; datatypes of lists and structs do not
/// take part.
pub open spec fn value_hash(v: Value) -> u64
    decreases v, 0nat,
{
    match v {
        Value::Null => mix(HASH_SEED, 0),
        Value::Float32(b) => mix(mix(HASH_SEED, 1), f32_hash_bits(b) as u64),
        Value::Float64(b) => mix(mix(HASH_SEED, 2), f64_hash_bits(b)),
        Value::Int8(x) => mix(mix(HASH_SEED, 3), x as u64),
        Value::Int16(x) => mix(mix(HASH_SEED, 4), x as u64),
        Value::Int32(x) => mix(mix(HASH_SEED, 5), x as u64),
        Value::Int64(x) => mix(mix(HASH_SEED, 6), x as u64),
        Value::Uint8(x) => mix(mix(HASH_SEED, 7), x as u64),
        Value::Uint16(x) => mix(mix(HASH_SEED, 8), x as u64),
        Value::Uint32(x) => mix(mix(HASH_SEED, 9), x as u64),
        Value::Uint64(x) => mix(mix(HASH_SEED, 10), x),
        Value::String(x) => mix(mix(HASH_SEED, 11), chars_hash(x@, x@.len())),
        Value::Bool(x) => mix(mix(HASH_SEED, 12), if x { 1 } else { 0 }),
        Value::Struct(x) => mix(mix(HASH_SEED, 13), items_hash(x.items@, x.items@.len())),
        Value::List(x) => mix(mix(HASH_SEED, 14), items_hash(x.items@, x.items@.len())),
    }
}

proof fn lemma_f32_hash_bits(a: u32, b: u32)
    requires
        f32_same(a, b),
    ensures
        f32_hash_bits(a) == f32_hash_bits(b),
{
    assert(f32_same(a, b) ==> f32_hash_bits(a) == f32_hash_bits(b)) by (bit_vector);
}

proof fn lemma_f64_hash_bits(a: u64, b: u64)
    requires
        f64_same(a, b),
    ensures
        f64_hash_bits(a) == f64_hash_bits(b),
{
    assert(f64_same(a, b) ==> f64_hash_bits(a) == f64_hash_bits(b)) by (bit_vector);
}

/// Equal values hash equally, NaN and signed zeros included.
pub proof fn lemma_hash_respects_eq(a: Value, b: Value)
    requires
        value_eq(a, b),
    ensures
        value_hash(a) == value_hash(b),
    decreases a, 1nat,
{
    match (a, b) {
        (Value::Float32(x), Value::Float32(y)) => lemma_f32_hash_bits(x, y),
        (Value::Float64(x), Value::Float64(y)) => lemma_f64_hash_bits(x, y),
        (Value::Struct(x), Value::Struct(y)) => {
            lemma_items_hash_respects_eq(a, x.items@, y.items@, x.items@.len());
        },
        (Value::List(x), Value::List(y)) => {
            lemma_items_hash_respects_eq(a, x.items@, y.items@, x.items@.len());
        },
        _ => {},
    }
}

proof fn lemma_items_hash_respects_eq(parent: Value, xs: Seq<Value>, ys: Seq<Value>, n: nat)
    requires
        (parent is Struct && xs == parent->Struct_0.items@) || (parent is List && xs
            == parent->List_0.items@),
        xs.len() == ys.len(),
        n <= xs.len(),
        forall|i: int| #![trigger xs[i]] 0 <= i < xs.len() ==> value_eq(xs[i], ys[i]),
    ensures
        items_hash(xs, n) == items_hash(ys, n),
    decreases parent, 0nat, n,
{
    if n > 0 {
        lemma_items_hash_respects_eq(parent, xs, ys, (n - 1) as nat);
        assert(value_eq(xs[n - 1], ys[n - 1]));
        if parent is Struct {
            assert(decreases_to!(parent => parent->Struct_0));
            assert(decreases_to!(parent->Struct_0 => parent->Struct_0.items));
            assert(decreases_to!(parent->Struct_0.items => parent->Struct_0.items@));
        } else {
            assert(decreases_to!(parent => parent->List_0));
            assert(decreases_to!(parent->List_0 => parent->List_0.items));
            assert(decreases_to!(parent->List_0.items => parent->List_0.items@));
        }
        assert(decreases_to!(xs => xs[n - 1]));
        lemma_hash_respects_eq(xs[n - 1], ys[n - 1]);
    }
}

fn hash_chars(s: &str) -> (r: u64)
    ensures
        r == chars_hash(s@, s@.len()),
{
    let n = s.unicode_len();
    let mut h: u64 = HASH_SEED;
    let mut i: usize = 0;
    while i < n
        invariant
            n == s@.len(),
            0 <= i <= n,
            h == chars_hash(s@, i as nat),
        decreases n - i,
    {
        let c = s.get_char(i);
        h = (h ^ (c as u32 as u64)).wrapping_mul(HASH_PRIME);
        i += 1;
    }
    h
}

/// Computes `value_hash`.
pub fn hash_value(v: &Value) -> (r: u64)
    ensures
        r == value_hash(*v),
    decreases v,
{
    let (tag, payload): (u64, u64) = match v {
        Value::Null => {
            return (HASH_SEED ^ 0).wrapping_mul(HASH_PRIME);
        },
        Value::Float32(b) => {
            let bits: u32 = if *b & 0x7f80_0000u32 == 0x7f80_0000u32 && *b & 0x007f_ffffu32 != 0 {
                u32::MAX
            } else if *b & 0x7fff_ffffu32 == 0 {
                0
            } else {
                *b
            };
            (1, bits as u64)
        },
        Value::Float64(b) => {
            let bits: u64 = if *b & 0x7ff0_0000_0000_0000u64 == 0x7ff0_0000_0000_0000u64 && *b
                & 0x000f_ffff_ffff_ffffu64 != 0 {
                u64::MAX
            } else if *b & 0x7fff_ffff_ffff_ffffu64 == 0 {
                0
            } else {
                *b
            };
            (2, bits)
        },
        Value::Int8(x) => (3, *x as u64),
        Value::Int16(x) => (4, *x as u64),
        Value::Int32(x) => (5, *x as u64),
        Value::Int64(x) => (6, *x as u64),
        Value::Uint8(x) => (7, *x as u64),
        Value::Uint16(x) => (8, *x as u64),
        Value::Uint32(x) => (9, *x as u64),
        Value::Uint64(x) => (10, *x),
        Value::String(x) => (11, hash_chars(x.as_str())),
        Value::Bool(x) => (12, if *x { 1 } else { 0 }),
        Value::Struct(x) => (13, hash_items(v, &x.items)),
        Value::List(x) => (14, hash_items(v, &x.items)),
    };
    let h = (HASH_SEED ^ tag).wrapping_mul(HASH_PRIME);
    (h ^ payload).wrapping_mul(HASH_PRIME)
}

fn hash_items(parent: &Value, xs: &Vec<Value>) -> (r: u64)
    requires
        (parent is Struct && xs == parent->Struct_0.items) || (parent is List && xs
            == parent->List_0.items),
    ensures
        r == items_hash(xs@, xs@.len()),
    decreases parent, 0nat,
{
    let mut h: u64 = HASH_SEED;
    let mut i: usize = 0;
    while i < xs.len()
        invariant
            (parent is Struct && xs == parent->Struct_0.items) || (parent is List && xs
                == parent->List_0.items),
            0 <= i <= xs@.len(),
            h == items_hash(xs@, i as nat),
        decreases xs@.len() - i,
    {
        proof {
            if parent is Struct {
                assert(decreases_to!(*parent => (*parent)->Struct_0));
                assert(decreases_to!((*parent)->Struct_0 => (*parent)->Struct_0.items));
            } else {
                assert(decreases_to!(*parent => (*parent)->List_0));
                assert(decreases_to!((*parent)->List_0 => (*parent)->List_0.items));
            }
            assert(decreases_to!(*xs => xs@));
            assert(decreases_to!(xs@ => xs@[i as int]));
        }
        let x = hash_value(&xs[i]);
        h = (h ^ x).wrapping_mul(HASH_PRIME);
        i += 1;
    }
    h
}

/// Whether `v` is a value of datatype `dt`. Null is of type Null only.
pub open spec fn value_has_type(v: Value, dt: ConcreteDatatype) -> bool {
    match v {
        Value::Null => dt is Null,
        Value::Float32(_) => dt is Float32,
        Value::Float64(_) => dt is Float64,
        Value::Int8(_) => dt is Int8,
        Value::Int16(_) => dt is Int16,
        Value::Int32(_) => dt is Int32,
        Value::Int64(_) => dt is Int64,
        Value::Uint8(_) => dt is Uint8,
        Value::Uint16(_) => dt is Uint16,
        Value::Uint32(_) => dt is Uint32,
        Value::Uint64(_) => dt is Uint64,
        Value::String(_) => dt is String,
        Value::Bool(_) => dt is Bool,
        Value::Struct(s) => datatype_eq(dt, ConcreteDatatype::Struct(s.fields)),
        Value::List(l) => dt is List && datatype_eq(*dt->List_0.item, *l.datatype),
    }
}

impl Value {
    pub fn is_null(&self) -> (r: bool)
        ensures
            r == (*self is Null),
    {
        match self {
            Value::Null => true,
            _ => false,
        }
    }

    /// The datatype of this value.
    pub fn datatype(&self) -> (r: ConcreteDatatype)
        ensures
            value_has_type(*self, r),
    {
        match self {
            Value::Null => ConcreteDatatype::Null,
            Value::Float32(_) => ConcreteDatatype::Float32,
            Value::Float64(_) => ConcreteDatatype::Float64(Float64Type),
            Value::Int8(_) => ConcreteDatatype::Int8,
            Value::Int16(_) => ConcreteDatatype::Int16,
            Value::Int32(_) => ConcreteDatatype::Int32,
            Value::Int64(_) => ConcreteDatatype::Int64(Int64Type),
            Value::Uint8(_) => ConcreteDatatype::Uint8,
            Value::Uint16(_) => ConcreteDatatype::Uint16,
            Value::Uint32(_) => ConcreteDatatype::Uint32,
            Value::Uint64(_) => ConcreteDatatype::Uint64,
            Value::String(_) => ConcreteDatatype::String(StringType),
            Value::Bool(_) => ConcreteDatatype::Bool(BooleanType),
            Value::Struct(s) => ConcreteDatatype::Struct(copy_struct_type(&s.fields)),
            Value::List(l) => ConcreteDatatype::List(ListType { item: Box::new(copy_datatype(&l.datatype)) }),
        }
    }
}

impl StructValue {
    /// The item of the first field with this name, if the struct has one.
    pub fn get_field(&self, field_name: &str) -> (r: Option<&Value>)
        ensures
            r matches Some(v) ==> exists|i: int|
                0 <= i < self.fields.fields@.len() && i < self.items@.len()
                    && self.fields.fields@[i].name@ == field_name@ && self.items@[i] == *v && forall|k: int|
                    0 <= k < i ==> (#[trigger] self.fields.fields@[k]).name@ != field_name@,
            r is None ==> forall|i: int|
                0 <= i < self.fields.fields@.len() && i < self.items@.len()
                    ==> (#[trigger] self.fields.fields@[i]).name@ != field_name@ || exists|k: int|
                    0 <= k < i && (#[trigger] self.fields.fields@[k]).name@ == field_name@,
    {
        let mut i: usize = 0;
        while i < self.fields.fields.len()
            invariant
                0 <= i <= self.fields.fields@.len(),
                forall|k: int| 0 <= k < i ==> (#[trigger] self.fields.fields@[k]).name@ != field_name@,
            decreases self.fields.fields@.len() - i,
        {
            if crate::text::str_eq(self.fields.fields[i].name.as_str(), field_name) {
                if i < self.items.len() {
                    return Some(&self.items[i]);
                }
                return None;
            }
            i += 1;
        }
        None
    }
}

/// A copy of a value, equal to it.
pub fn copy_value(v: &Value) -> (r: Value)
    ensures
        value_eq(r, *v),
        !(*v is Struct || *v is List) ==> r == *v,
    decreases v,
{
    match v {
        Value::Null => Value::Null,
        Value::Float32(x) => Value::Float32(*x),
        Value::Float64(x) => Value::Float64(*x),
        Value::Int8(x) => Value::Int8(*x),
        Value::Int16(x) => Value::Int16(*x),
        Value::Int32(x) => Value::Int32(*x),
        Value::Int64(x) => Value::Int64(*x),
        Value::Uint8(x) => Value::Uint8(*x),
        Value::Uint16(x) => Value::Uint16(*x),
        Value::Uint32(x) => Value::Uint32(*x),
        Value::Uint64(x) => Value::Uint64(*x),
        Value::String(x) => Value::String(x.clone()),
        Value::Bool(x) => Value::Bool(*x),
        Value::Struct(x) => {
            let items = copy_items(v, &x.items);
            Value::Struct(StructValue { items, fields: copy_struct_type(&x.fields) })
        },
        Value::List(x) => {
            let items = copy_items(v, &x.items);
            Value::List(ListValue { items, datatype: Box::new(copy_datatype(&x.datatype)) })
        },
    }
}

fn copy_items(parent: &Value, xs: &Vec<Value>) -> (r: Vec<Value>)
    requires
        (parent is Struct && xs == parent->Struct_0.items) || (parent is List && xs
            == parent->List_0.items),
    ensures
        r@.len() == xs@.len(),
        forall|i: int| #![trigger r@[i]] 0 <= i < xs@.len() ==> value_eq(r@[i], xs@[i]),
    decreases parent, 0nat,
{
    let mut out: Vec<Value> = Vec::new();
    let mut i: usize = 0;
    while i < xs.len()
        invariant
            (parent is Struct && xs == parent->Struct_0.items) || (parent is List && xs
                == parent->List_0.items),
            0 <= i <= xs@.len(),
            out@.len() == i,
            forall|j: int| #![trigger out@[j]] 0 <= j < i ==> value_eq(out@[j], xs@[j]),
        decreases xs@.len() - i,
    {
        proof {
            if parent is Struct {
                assert(decreases_to!(*parent => (*parent)->Struct_0));
                assert(decreases_to!((*parent)->Struct_0 => (*parent)->Struct_0.items));
            } else {
                assert(decreases_to!(*parent => (*parent)->List_0));
                assert(decreases_to!((*parent)->List_0 => (*parent)->List_0.items));
            }
            assert(decreases_to!(*xs => xs@));
            assert(decreases_to!(xs@ => xs@[i as int]));
        }
        let c = copy_value(&xs[i]);
        out.push(c);
        i += 1;
    }
    out
}

impl PartialEq for Value {
    fn eq(&self, other: &Value) -> (r: bool) {
        values_equal(self, other)
    }
}

impl vstd::std_specs::cmp::PartialEqSpecImpl for Value {
    open spec fn obeys_eq_spec() -> bool {
        true
    }

    open spec fn eq_spec(&self, other: &Value) -> bool {
        value_eq(*self, *other)
    }
}

} // verus!
