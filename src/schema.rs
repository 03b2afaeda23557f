use vstd::prelude::*;

use crate::datatypes::ConcreteDatatype;
use crate::text::str_eq;

verus! {

/// Schema of one column: the source it belongs to, its name and its type.
#[derive(Debug)]
pub struct ColumnSchema {
    pub source_name: String,
    pub name: String,
    pub data_type: ConcreteDatatype,
}

impl ColumnSchema {
    pub fn new(source_name: String, name: String, data_type: ConcreteDatatype) -> (r: ColumnSchema)
        ensures
            r.source_name == source_name,
            r.name == name,
            r.data_type == data_type,
    {
        ColumnSchema { source_name, name, data_type }
    }

    pub fn source_name(&self) -> (r: &str)
        ensures
            r@ == self.source_name@,
    {
        self.source_name.as_str()
    }

    /// Whether this column belongs to the source `source`.
    pub fn belongs_to(&self, source: &str) -> (r: bool)
        ensures
            r == (self.source_name@ == source@),
    {
        str_eq(self.source_name.as_str(), source)
    }
}

/// An ordered sequence of column schemas. Names need not be unique: lookup
/// by name alone gives the first match, lookup by source and name is exact.
#[derive(Debug)]
pub struct Schema {
    pub column_schemas: Vec<ColumnSchema>,
}

impl Schema {
    pub fn new(column_schemas: Vec<ColumnSchema>) -> (r: Schema)
        ensures
            r.column_schemas == column_schemas,
    {
        Schema { column_schemas }
    }

    /// Index of the first column named `name`.
    pub fn index_of(&self, name: &str) -> (r: Option<usize>)
        ensures
            r matches Some(i) ==> i < self.column_schemas@.len() && self.column_schemas@[i as int].name@
                == name@ && forall|j: int|
                0 <= j < i ==> (#[trigger] self.column_schemas@[j]).name@ != name@,
            r is None ==> forall|j: int|
                0 <= j < self.column_schemas@.len() ==> (
                #[trigger] self.column_schemas@[j]).name@ != name@,
    {
        let mut i: usize = 0;
        while i < self.column_schemas.len()
            invariant
                0 <= i <= self.column_schemas@.len(),
                forall|j: int| 0 <= j < i ==> (#[trigger] self.column_schemas@[j]).name@ != name@,
            decreases self.column_schemas@.len() - i,
        {
            if str_eq(self.column_schemas[i].name.as_str(), name) {
                return Some(i);
            }
            i += 1;
        }
        None
    }

    /// Index of the column with this source and name.
    pub fn index_of_qualified(&self, source: &str, name: &str) -> (r: Option<usize>)
        ensures
            r matches Some(i) ==> i < self.column_schemas@.len() && self.column_schemas@[i as int].name@
                == name@ && self.column_schemas@[i as int].source_name@ == source@ && forall|j: int|
                0 <= j < i ==> !((#[trigger] self.column_schemas@[j]).name@ == name@
                    && self.column_schemas@[j].source_name@ == source@),
            r is None ==> forall|j: int|
                0 <= j < self.column_schemas@.len() ==> !((
                #[trigger] self.column_schemas@[j]).name@ == name@
                    && self.column_schemas@[j].source_name@ == source@),
    {
        let mut i: usize = 0;
        while i < self.column_schemas.len()
            invariant
                0 <= i <= self.column_schemas@.len(),
                forall|j: int|
                    0 <= j < i ==> !((#[trigger] self.column_schemas@[j]).name@ == name@
                        && self.column_schemas@[j].source_name@ == source@),
            decreases self.column_schemas@.len() - i,
        {
            let c = &self.column_schemas[i];
            if str_eq(c.name.as_str(), name) && str_eq(c.source_name.as_str(), source) {
                return Some(i);
            }
            i += 1;
        }
        None
    }

    /// The first column named `name`.
    pub fn column_schema_by_name(&self, name: &str) -> (r: Option<&ColumnSchema>)
        ensures
            r matches Some(c) ==> exists|i: int|
                0 <= i < self.column_schemas@.len() && self.column_schemas@[i] == *c && c.name@ == name@
                    && forall|j: int| 0 <= j < i ==> (#[trigger] self.column_schemas@[j]).name@ != name@,
            r is None ==> forall|j: int|
                0 <= j < self.column_schemas@.len() ==> (
                #[trigger] self.column_schemas@[j]).name@ != name@,
    {
        match self.index_of(name) {
            Some(i) => Some(&self.column_schemas[i]),
            None => None,
        }
    }

    pub fn column_schemas(&self) -> (r: &[ColumnSchema])
        ensures
            r@ == self.column_schemas@,
    {
        self.column_schemas.as_slice()
    }

    pub fn contains_column(&self, name: &str) -> (r: bool)
        ensures
            r == exists|i: int|
                0 <= i < self.column_schemas@.len() && (#[trigger] self.column_schemas@[i]).name@ == name@,
    {
        self.index_of(name).is_some()
    }
}

} // verus!
