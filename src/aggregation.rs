use vstd::prelude::*;

use crate::datatypes::{ConcreteDatatype, Int64Type};
use crate::value::{copy_value, value_eq, values_equal, Value};

verus! {

/// The `ndv` aggregate: the number of distinct non-null values.
#[derive(Debug)]
pub struct NdvFunction;

impl NdvFunction {
    pub fn new() -> (r: NdvFunction) {
        NdvFunction
    }

    pub fn name(&self) -> (r: &'static str)
        ensures
            r@ == "ndv"@,
    {
        "ndv"
    }

    /// `ndv` takes exactly one argument and returns Int64.
    pub fn return_type(&self, input_types: &[ConcreteDatatype]) -> (r: Result<ConcreteDatatype, String>)
        ensures
            input_types@.len() == 1 <==> r is Ok,
            r is Ok ==> r->Ok_0 is Int64,
    {
        if input_types.len() != 1 {
            return Err("NDV expects exactly one argument".to_string());
        }
        Ok(ConcreteDatatype::Int64(Int64Type))
    }

    pub fn create_accumulator(&self) -> (r: NdvAccumulator)
        ensures
            r.distinct@.len() == 0,
    {
        NdvAccumulator { distinct: Vec::new() }
    }
}

/// Whether some value of `s` equals `v`.
pub open spec fn contains_eq(s: Seq<Value>, v: Value) -> bool {
    exists|i: int| 0 <= i < s.len() && value_eq(#[trigger] s[i], v)
}

/// State of one `ndv` aggregation: one representative per distinct value seen.
#[derive(Debug)]
pub struct NdvAccumulator {
    pub distinct: Vec<Value>,
}

impl NdvAccumulator {
    /// Adds the first argument unless it is null or equals a value already seen.
    pub fn update(&mut self, args: &[Value]) -> (r: Result<(), String>)
        ensures
            args@.len() == 0 <==> r is Err,
            args@.len() == 0 || args@[0] is Null || contains_eq(old(self).distinct@, args@[0])
                ==> final(self).distinct@ == old(self).distinct@,
            args@.len() > 0 && !(args@[0] is Null) && !contains_eq(old(self).distinct@, args@[0])
                ==> final(self).distinct@.len() == old(self).distinct@.len() + 1
                && final(self).distinct@.drop_last() == old(self).distinct@ && value_eq(
                final(self).distinct@.last(),
                args@[0],
            ),
    {
        if args.len() == 0 {
            return Err("NDV expects one argument".to_string());
        }
        let v = &args[0];
        if v.is_null() {
            return Ok(());
        }
        let mut i: usize = 0;
        while i < self.distinct.len()
            invariant
                0 <= i <= self.distinct@.len(),
                self.distinct@ == old(self).distinct@,
                args@.len() > 0,
                *v == args@[0],
                forall|j: int| 0 <= j < i ==> !value_eq(#[trigger] self.distinct@[j], *v),
            decreases self.distinct@.len() - i,
        {
            if values_equal(&self.distinct[i], v) {
                assert(contains_eq(old(self).distinct@, args@[0]));
                return Ok(());
            }
            i += 1;
        }
        let c = copy_value(v);
        self.distinct.push(c);
        Ok(())
    }

    /// The number of distinct values seen.
    pub fn finalize(&self) -> (r: Value)
        ensures
            r == Value::Int64(
                if self.distinct@.len() <= i64::MAX {
                    self.distinct@.len() as i64
                } else {
                    i64::MAX
                },
            ),
    {
        let n = self.distinct.len();
        if n as u64 <= i64::MAX as u64 {
            Value::Int64(n as i64)
        } else {
            Value::Int64(i64::MAX)
        }
    }
}

/// Widens a signed integer of any width to Int64.
pub open spec fn as_wide_int(v: Value) -> Option<i64> {
    match v {
        Value::Int8(x) => Some(x as i64),
        Value::Int16(x) => Some(x as i64),
        Value::Int32(x) => Some(x as i64),
        Value::Int64(x) => Some(x),
        _ => None,
    }
}

/// Addition clamped to the range of i64.
pub open spec fn saturating_sum(a: i64, b: i64) -> i64 {
    if a + b > i64::MAX {
        i64::MAX
    } else if a + b < i64::MIN {
        i64::MIN
    } else {
        (a + b) as i64
    }
}

/// State of one `sum` aggregation over signed integers, widened to Int64.
#[derive(Debug, Clone, Copy, PartialEq, Eq, Structural)]
pub struct SumAccumulator {
    pub sum: i64,
    pub seen: bool,
}

impl SumAccumulator {
    pub fn new() -> (r: SumAccumulator)
        ensures
            r.sum == 0 && !r.seen,
    {
        SumAccumulator { sum: 0, seen: false }
    }

    /// Adds the first argument: nulls are skipped, signed integers are
    /// widened to Int64 and added with saturation, anything else is refused.
    pub fn update(&mut self, args: &[Value]) -> (r: Result<(), String>)
        ensures
            r is Ok <==> args@.len() > 0 && (args@[0] is Null || as_wide_int(args@[0]) is Some),
            r is Ok && args@[0] is Null ==> *final(self) == *old(self),
            r is Ok && !(args@[0] is Null) ==> final(self).seen && final(self).sum == saturating_sum(
                old(self).sum,
                as_wide_int(args@[0])->Some_0,
            ),
            r is Err ==> *final(self) == *old(self),
    {
        if args.len() == 0 {
            return Err("sum expects one argument".to_string());
        }
        let x: i64 = match &args[0] {
            Value::Null => {
                return Ok(());
            },
            Value::Int8(x) => *x as i64,
            Value::Int16(x) => *x as i64,
            Value::Int32(x) => *x as i64,
            Value::Int64(x) => *x,
            _ => {
                return Err("sum expects a signed integer argument".to_string());
            },
        };
        let wide: i128 = self.sum as i128 + x as i128;
        self.sum = if wide > i64::MAX as i128 {
            i64::MAX
        } else if wide < i64::MIN as i128 {
            i64::MIN
        } else {
            wide as i64
        };
        self.seen = true;
        Ok(())
    }

    /// The sum, or null when no value was added.
    pub fn finalize(&self) -> (r: Value)
        ensures
            self.seen ==> r == Value::Int64(self.sum),
            !self.seen ==> r == Value::Null,
    {
        if self.seen {
            Value::Int64(self.sum)
        } else {
            Value::Null
        }
    }
}

} // verus!
