use vstd::prelude::*;

verus! {

/// 64-bit floating point type.
#[derive(Debug, Clone, Copy, PartialEq, Eq, Structural)]
pub struct Float64Type;

/// 64-bit signed integer type.
#[derive(Debug, Clone, Copy, PartialEq, Eq, Structural)]
pub struct Int64Type;

/// UTF-8 string type.
#[derive(Debug, Clone, Copy, PartialEq, Eq, Structural)]
pub struct StringType;

/// Boolean type.
#[derive(Debug, Clone, Copy, PartialEq, Eq, Structural)]
pub struct BooleanType;

/// One named slot of a struct type.
#[derive(Debug)]
pub struct StructField {
    pub name: String,
    pub datatype: ConcreteDatatype,
    pub nullable: bool,
}

/// Ordered field descriptor of a struct value.
#[derive(Debug)]
pub struct StructType {
    pub fields: Vec<StructField>,
}

/// Element type of a list, kept so that empty lists still know their type.
#[derive(Debug)]
pub struct ListType {
    pub item: Box<ConcreteDatatype>,
}

/// The concrete datatype of a column or value.
#[derive(Debug)]
pub enum ConcreteDatatype {
    Null,
    Int8,
    Int16,
    Int32,
    Int64(Int64Type),
    Uint8,
    Uint16,
    Uint32,
    Uint64,
    Float32,
    Float64(Float64Type),
    String(StringType),
    Bool(BooleanType),
    Struct(StructType),
    List(ListType),
}

/// Structural equality of datatypes; field names compare by their characters.
pub open spec fn datatype_eq(a: ConcreteDatatype, b: ConcreteDatatype) -> bool
    decreases a,
{
    match (a, b) {
        (ConcreteDatatype::Struct(x), ConcreteDatatype::Struct(y)) => {
            &&& x.fields@.len() == y.fields@.len()
            &&& forall|i: int|
                #![trigger x.fields@[i]]
                0 <= i < x.fields@.len() ==> {
                    &&& x.fields@[i].name@ == y.fields@[i].name@
                    &&& x.fields@[i].nullable == y.fields@[i].nullable
                    &&& datatype_eq(x.fields@[i].datatype, y.fields@[i].datatype)
                }
        },
        (ConcreteDatatype::List(x), ConcreteDatatype::List(y)) => datatype_eq(*x.item, *y.item),
        (ConcreteDatatype::Struct(_), _) => false,
        (ConcreteDatatype::List(_), _) => false,
        (_, ConcreteDatatype::Struct(_)) => false,
        (_, ConcreteDatatype::List(_)) => false,
        _ => a == b,
    }
}

/// Decides `datatype_eq`.
pub fn datatypes_equal(a: &ConcreteDatatype, b: &ConcreteDatatype) -> (r: bool)
    ensures
        r == datatype_eq(*a, *b),
    decreases a,
{
    match (a, b) {
        (ConcreteDatatype::Struct(x), ConcreteDatatype::Struct(y)) => {
            if x.fields.len() != y.fields.len() {
                return false;
            }
            let mut i: usize = 0;
            while i < x.fields.len()
                invariant
                    0 <= i <= x.fields@.len(),
                    x.fields@.len() == y.fields@.len(),
                    *a == ConcreteDatatype::Struct(*x),
                    *b == ConcreteDatatype::Struct(*y),
                    forall|j: int|
                        #![trigger x.fields@[j]]
                        0 <= j < i ==> {
                            &&& x.fields@[j].name@ == y.fields@[j].name@
                            &&& x.fields@[j].nullable == y.fields@[j].nullable
                            &&& datatype_eq(x.fields@[j].datatype, y.fields@[j].datatype)
                        },
                decreases x.fields@.len() - i,
            {
                let fx = &x.fields[i];
                let fy = &y.fields[i];
                if fx.name != fy.name || fx.nullable != fy.nullable {
                    return false;
                }
                proof {
                    assert(decreases_to!(*a => (*a)->Struct_0));
                    assert(decreases_to!((*a)->Struct_0 => x.fields));
                    assert(decreases_to!(x.fields => x.fields@));
                    assert(decreases_to!(x.fields@ => x.fields@[i as int]));
                    assert(decreases_to!(x.fields@[i as int] => x.fields@[i as int].datatype));
                }
                if !datatypes_equal(&fx.datatype, &fy.datatype) {
                    return false;
                }
                assert(x.fields@[i as int].name@ == y.fields@[i as int].name@);
                i += 1;
            }
            true
        },
        (ConcreteDatatype::List(x), ConcreteDatatype::List(y)) => datatypes_equal(&x.item, &y.item),
        (ConcreteDatatype::Null, ConcreteDatatype::Null) => true,
        (ConcreteDatatype::Int8, ConcreteDatatype::Int8) => true,
        (ConcreteDatatype::Int16, ConcreteDatatype::Int16) => true,
        (ConcreteDatatype::Int32, ConcreteDatatype::Int32) => true,
        (ConcreteDatatype::Int64(_), ConcreteDatatype::Int64(_)) => true,
        (ConcreteDatatype::Uint8, ConcreteDatatype::Uint8) => true,
        (ConcreteDatatype::Uint16, ConcreteDatatype::Uint16) => true,
        (ConcreteDatatype::Uint32, ConcreteDatatype::Uint32) => true,
        (ConcreteDatatype::Uint64, ConcreteDatatype::Uint64) => true,
        (ConcreteDatatype::Float32, ConcreteDatatype::Float32) => true,
        (ConcreteDatatype::Float64(_), ConcreteDatatype::Float64(_)) => true,
        (ConcreteDatatype::String(_), ConcreteDatatype::String(_)) => true,
        (ConcreteDatatype::Bool(_), ConcreteDatatype::Bool(_)) => true,
        _ => false,
    }
}

/// Decides `datatype_eq` on two struct descriptors.
pub fn struct_types_equal(x: &StructType, y: &StructType) -> (r: bool)
    ensures
        r == datatype_eq(ConcreteDatatype::Struct(*x), ConcreteDatatype::Struct(*y)),
{
    if x.fields.len() != y.fields.len() {
        return false;
    }
    let mut i: usize = 0;
    while i < x.fields.len()
        invariant
            0 <= i <= x.fields@.len(),
            x.fields@.len() == y.fields@.len(),
            forall|j: int|
                #![trigger x.fields@[j]]
                0 <= j < i ==> {
                    &&& x.fields@[j].name@ == y.fields@[j].name@
                    &&& x.fields@[j].nullable == y.fields@[j].nullable
                    &&& datatype_eq(x.fields@[j].datatype, y.fields@[j].datatype)
                },
        decreases x.fields@.len() - i,
    {
        let fx = &x.fields[i];
        let fy = &y.fields[i];
        if fx.name != fy.name || fx.nullable != fy.nullable {
            return false;
        }
        if !datatypes_equal(&fx.datatype, &fy.datatype) {
            return false;
        }
        assert(x.fields@[i as int].name@ == y.fields@[i as int].name@);
        i += 1;
    }
    true
}

impl PartialEq for ConcreteDatatype {
    fn eq(&self, other: &ConcreteDatatype) -> (r: bool) {
        datatypes_equal(self, other)
    }
}

impl vstd::std_specs::cmp::PartialEqSpecImpl for ConcreteDatatype {
    open spec fn obeys_eq_spec() -> bool {
        true
    }

    open spec fn eq_spec(&self, other: &ConcreteDatatype) -> bool {
        datatype_eq(*self, *other)
    }
}

/// A copy of a datatype that is `datatype_eq` to it.
pub fn copy_datatype(dt: &ConcreteDatatype) -> (r: ConcreteDatatype)
    ensures
        datatype_eq(r, *dt),
    decreases dt,
{
    match dt {
        ConcreteDatatype::Struct(st) => ConcreteDatatype::Struct(copy_struct_type_inner(dt, st)),
        ConcreteDatatype::List(lt) => {
            proof {
                assert(decreases_to!(*dt => lt.item));
            }
            ConcreteDatatype::List(ListType { item: Box::new(copy_datatype(&lt.item)) })
        },
        ConcreteDatatype::Null => ConcreteDatatype::Null,
        ConcreteDatatype::Int8 => ConcreteDatatype::Int8,
        ConcreteDatatype::Int16 => ConcreteDatatype::Int16,
        ConcreteDatatype::Int32 => ConcreteDatatype::Int32,
        ConcreteDatatype::Int64(_) => ConcreteDatatype::Int64(Int64Type),
        ConcreteDatatype::Uint8 => ConcreteDatatype::Uint8,
        ConcreteDatatype::Uint16 => ConcreteDatatype::Uint16,
        ConcreteDatatype::Uint32 => ConcreteDatatype::Uint32,
        ConcreteDatatype::Uint64 => ConcreteDatatype::Uint64,
        ConcreteDatatype::Float32 => ConcreteDatatype::Float32,
        ConcreteDatatype::Float64(_) => ConcreteDatatype::Float64(Float64Type),
        ConcreteDatatype::String(_) => ConcreteDatatype::String(StringType),
        ConcreteDatatype::Bool(_) => ConcreteDatatype::Bool(BooleanType),
    }
}

fn copy_struct_type_inner(dt: &ConcreteDatatype, st: &StructType) -> (r: StructType)
    requires
        *dt == ConcreteDatatype::Struct(*st),
    ensures
        datatype_eq(ConcreteDatatype::Struct(r), *dt),
    decreases dt, 0nat,
{
    let mut fields: Vec<StructField> = Vec::new();
    let mut i: usize = 0;
    while i < st.fields.len()
        invariant
            0 <= i <= st.fields@.len(),
            *dt == ConcreteDatatype::Struct(*st),
            fields@.len() == i,
            forall|j: int|
                #![trigger fields@[j]]
                0 <= j < i ==> {
                    &&& fields@[j].name@ == st.fields@[j].name@
                    &&& fields@[j].nullable == st.fields@[j].nullable
                    &&& datatype_eq(fields@[j].datatype, st.fields@[j].datatype)
                },
        decreases st.fields@.len() - i,
    {
        let f = &st.fields[i];
        proof {
            assert(decreases_to!(*dt => (*dt)->Struct_0));
            assert(decreases_to!((*dt)->Struct_0 => st.fields));
            assert(decreases_to!(st.fields => st.fields@));
            assert(decreases_to!(st.fields@ => st.fields@[i as int]));
            assert(decreases_to!(st.fields@[i as int] => st.fields@[i as int].datatype));
        }
        let copied = StructField {
            name: f.name.clone(),
            datatype: copy_datatype(&f.datatype),
            nullable: f.nullable,
        };
        fields.push(copied);
        assert(fields@[i as int].name@ == st.fields@[i as int].name@);
        i += 1;
    }
    StructType { fields }
}

/// A copy of a struct descriptor.
pub fn copy_struct_type(st: &StructType) -> (r: StructType)
    ensures
        datatype_eq(ConcreteDatatype::Struct(r), ConcreteDatatype::Struct(*st)),
{
    let mut fields: Vec<StructField> = Vec::new();
    let mut i: usize = 0;
    while i < st.fields.len()
        invariant
            0 <= i <= st.fields@.len(),
            fields@.len() == i,
            forall|j: int|
                #![trigger fields@[j]]
                0 <= j < i ==> {
                    &&& fields@[j].name@ == st.fields@[j].name@
                    &&& fields@[j].nullable == st.fields@[j].nullable
                    &&& datatype_eq(fields@[j].datatype, st.fields@[j].datatype)
                },
        decreases st.fields@.len() - i,
    {
        let f = &st.fields[i];
        fields.push(
            StructField { name: f.name.clone(), datatype: copy_datatype(&f.datatype), nullable: f.nullable },
        );
        assert(fields@[i as int].name@ == st.fields@[i as int].name@);
        i += 1;
    }
    StructType { fields }
}

impl StructType {
    pub fn new(fields: Vec<StructField>) -> (r: StructType)
        ensures
            r.fields == fields,
    {
        StructType { fields }
    }
}

impl StructField {
    pub fn new(name: String, datatype: ConcreteDatatype, nullable: bool) -> (r: StructField)
        ensures
            r.name == name,
            r.datatype == datatype,
            r.nullable == nullable,
    {
        StructField { name, datatype, nullable }
    }
}

/// `datatype_eq` is symmetric.
pub proof fn lemma_datatype_eq_symmetric(a: ConcreteDatatype, b: ConcreteDatatype)
    requires
        datatype_eq(a, b),
    ensures
        datatype_eq(b, a),
    decreases a,
{
    match (a, b) {
        (ConcreteDatatype::Struct(x), ConcreteDatatype::Struct(y)) => {
            assert forall|i: int| #![trigger y.fields@[i]] 0 <= i < y.fields@.len() implies {
                &&& y.fields@[i].name@ == x.fields@[i].name@
                &&& y.fields@[i].nullable == x.fields@[i].nullable
                &&& datatype_eq(y.fields@[i].datatype, x.fields@[i].datatype)
            } by {
                assert(x.fields@[i].name@ == y.fields@[i].name@);
                lemma_datatype_eq_symmetric(x.fields@[i].datatype, y.fields@[i].datatype);
            }
        },
        (ConcreteDatatype::List(x), ConcreteDatatype::List(y)) => {
            lemma_datatype_eq_symmetric(*x.item, *y.item);
        },
        _ => {},
    }
}

} // verus!
