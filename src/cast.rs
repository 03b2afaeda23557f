use vstd::arithmetic::power2::{lemma_pow2_adds, lemma_pow2_pos, lemma_pow2_strictly_increases, pow2};
use vstd::bits::{lemma_u64_low_bits_mask_is_mod, lemma_u64_shl_is_mul, lemma_u64_shr_is_div, low_bits_mask};
use vstd::prelude::*;
use vstd::string::StrSliceExecFns;

use crate::datatypes::{BooleanType, ConcreteDatatype, Int64Type};
use crate::value::{f32_is_zero, f64_is_zero, value_has_type, Value};

verus! {

/// Value of a sequence of decimal digits.
pub open spec fn digits_value(s: Seq<char>) -> int
    decreases s.len(),
{
    if s.len() == 0 {
        0
    } else {
        digits_value(s.drop_last()) * 10 + (s.last() as int - '0' as int)
    }
}

pub open spec fn all_digits(s: Seq<char>) -> bool {
    s.len() > 0 && forall|i: int| 0 <= i < s.len() ==> '0' <= #[trigger] s[i] <= '9'
}

/// What `i64::from_str` accepts: an optional `+` or `-`, then at least one
/// decimal digit and nothing else, with the value in range.
pub open spec fn parse_i64_spec(s: Seq<char>) -> Option<i64> {
    let signed = s.len() > 0 && (s[0] == '-' || s[0] == '+');
    let body = if signed {
        s.drop_first()
    } else {
        s
    };
    let v = if signed && s[0] == '-' {
        -digits_value(body)
    } else {
        digits_value(body)
    };
    if all_digits(body) && i64::MIN <= v <= i64::MAX {
        Some(v as i64)
    } else {
        None
    }
}

/// Relies on `str::parse::<i64>` (the `FromStr` impl of `i64`): it accepts
/// exactly an optional sign followed by decimal digits whose value fits.
#[verifier::external_body]
pub(crate) fn parse_i64(s: &str) -> (r: Option<i64>)
    ensures
        r == parse_i64_spec(s@),
{
    s.parse::<i64>().ok()
}

/// The integer that a 64-bit float's bit pattern denotes, when it denotes one:
/// zeros give 0, finite floats without a fractional part give their value,
/// and fractional values, infinities and NaNs give none.
pub open spec fn f64_integral_value(b: u64) -> Option<int> {
    let exp = ((b >> 52u64) & 0x7ffu64) as int;
    let frac = (b & 0x000f_ffff_ffff_ffffu64) as int;
    let negative = (b >> 63u64) == 1u64;
    if exp == 0 && frac == 0 {
        Some(0)
    } else if exp == 0 || exp == 0x7ff {
        None
    } else {
        let m = frac + pow2(52);
        let mag: Option<int> = if exp >= 1075 {
            Some(m * pow2((exp - 1075) as nat))
        } else if m % pow2((1075 - exp) as nat) as int == 0 {
            Some(m / pow2((1075 - exp) as nat) as int)
        } else {
            None
        };
        match mag {
            Some(x) => Some(
                if negative {
                    -x
                } else {
                    x
                },
            ),
            None => None,
        }
    }
}

pub open spec fn in_i64_range(n: int) -> bool {
    i64::MIN <= n <= i64::MAX
}

/// The Int64 cast table: integers of every width when in range, booleans as
/// 0 or 1, floats without a fractional part when in range, strings by
/// `parse_i64_spec`; nothing else.
pub open spec fn int64_cast(v: Value) -> Option<i64> {
    match v {
        Value::Int8(x) => Some(x as i64),
        Value::Int16(x) => Some(x as i64),
        Value::Int32(x) => Some(x as i64),
        Value::Int64(x) => Some(x),
        Value::Uint8(x) => Some(x as i64),
        Value::Uint16(x) => Some(x as i64),
        Value::Uint32(x) => Some(x as i64),
        Value::Uint64(x) => if x <= i64::MAX {
            Some(x as i64)
        } else {
            None
        },
        Value::Bool(b) => Some(
            if b {
                1
            } else {
                0
            },
        ),
        Value::Float64(b) => match f64_integral_value(b) {
            Some(n) => if in_i64_range(n) {
                Some(n as i64)
            } else {
                None
            },
            None => None,
        },
        Value::String(s) => parse_i64_spec(s@),
        _ => None,
    }
}

pub open spec fn ascii_lower(c: char) -> char {
    if 'A' <= c <= 'Z' {
        ((c as u32) + 32) as char
    } else {
        c
    }
}

/// The words read as booleans, compared without regard to ASCII case.
pub open spec fn bool_word(s: Seq<char>) -> Option<bool> {
    let l = s.map_values(|c: char| ascii_lower(c));
    if l == seq!['t', 'r', 'u', 'e'] || l == seq!['1'] || l == seq!['y', 'e', 's'] || l == seq![
        'o',
        'n',
    ] {
        Some(true)
    } else if l == seq!['f', 'a', 'l', 's', 'e'] || l == seq!['0'] || l == seq!['n', 'o'] || l
        == seq!['o', 'f', 'f'] {
        Some(false)
    } else {
        None
    }
}

/// The Bool cast table: booleans as they are, numbers as "not zero", strings
/// by `bool_word`; nothing else.
pub open spec fn bool_cast(v: Value) -> Option<bool> {
    match v {
        Value::Bool(b) => Some(b),
        Value::Int8(x) => Some(x != 0),
        Value::Int16(x) => Some(x != 0),
        Value::Int32(x) => Some(x != 0),
        Value::Int64(x) => Some(x != 0),
        Value::Uint8(x) => Some(x != 0),
        Value::Uint16(x) => Some(x != 0),
        Value::Uint32(x) => Some(x != 0),
        Value::Uint64(x) => Some(x != 0),
        Value::Float32(b) => Some(!f32_is_zero(b)),
        Value::Float64(b) => Some(!f64_is_zero(b)),
        Value::String(s) => bool_word(s@),
        _ => None,
    }
}

pub(crate) fn lowered_chars(s: &str) -> (r: Vec<char>)
    ensures
        r@ == s@.map_values(|c: char| ascii_lower(c)),
{
    let n = s.unicode_len();
    let mut out: Vec<char> = Vec::new();
    let mut i: usize = 0;
    while i < n
        invariant
            n == s@.len(),
            0 <= i <= n,
            out@ == s@.subrange(0, i as int).map_values(|c: char| ascii_lower(c)),
        decreases n - i,
    {
        let c = s.get_char(i);
        let l = if 'A' <= c && c <= 'Z' {
            ((c as u32) + 32) as u8 as char
        } else {
            c
        };
        out.push(l);
        proof {
            assert(s@.subrange(0, i + 1) =~= s@.subrange(0, i as int).push(c));
            assert(out@ =~= s@.subrange(0, i + 1).map_values(|c: char| ascii_lower(c)));
        }
        i += 1;
    }
    proof {
        assert(s@.subrange(0, n as int) =~= s@);
    }
    out
}

pub(crate) fn chars_are(v: &Vec<char>, w: &[char]) -> (r: bool)
    ensures
        r == (v@ == w@),
{
    if v.len() != w.len() {
        return false;
    }
    let mut i: usize = 0;
    while i < v.len()
        invariant
            v@.len() == w@.len(),
            0 <= i <= v@.len(),
            forall|j: int| 0 <= j < i ==> v@[j] == w@[j],
        decreases v@.len() - i,
    {
        if v[i] != w[i] {
            return false;
        }
        i += 1;
    }
    assert(v@ =~= w@);
    true
}

pub(crate) fn parse_bool_word(s: &str) -> (r: Option<bool>)
    ensures
        r == bool_word(s@),
{
    let l = lowered_chars(s);
    proof {
        assert(['t', 'r', 'u', 'e']@ =~= seq!['t', 'r', 'u', 'e']);
        assert(['1']@ =~= seq!['1']);
        assert(['y', 'e', 's']@ =~= seq!['y', 'e', 's']);
        assert(['o', 'n']@ =~= seq!['o', 'n']);
        assert(['f', 'a', 'l', 's', 'e']@ =~= seq!['f', 'a', 'l', 's', 'e']);
        assert(['0']@ =~= seq!['0']);
        assert(['n', 'o']@ =~= seq!['n', 'o']);
        assert(['o', 'f', 'f']@ =~= seq!['o', 'f', 'f']);
    }
    if chars_are(&l, &['t', 'r', 'u', 'e']) || chars_are(&l, &['1']) || chars_are(&l, &['y', 'e', 's'])
        || chars_are(&l, &['o', 'n']) {
        Some(true)
    } else if chars_are(&l, &['f', 'a', 'l', 's', 'e']) || chars_are(&l, &['0']) || chars_are(
        &l,
        &['n', 'o'],
    ) || chars_are(&l, &['o', 'f', 'f']) {
        Some(false)
    } else {
        None
    }
}

proof fn lemma_pow2_52()
    ensures
        pow2(52) == 0x0010_0000_0000_0000,
{
    vstd::arithmetic::power2::lemma2_to64();
    vstd::arithmetic::power2::lemma2_to64_rest();
}

/// Reads a 64-bit float bit pattern as an `i64` when it denotes one in range.
pub(crate) fn f64_bits_to_i64(b: u64) -> (r: Option<i64>)
    ensures
        r == (match f64_integral_value(b) {
            Some(n) => if in_i64_range(n) {
                Some(n as i64)
            } else {
                None
            },
            None => None,
        }),
{
    let exp = (b >> 52u64) & 0x7ffu64;
    let frac = b & 0x000f_ffff_ffff_ffffu64;
    let negative = (b >> 63u64) == 1u64;
    if exp == 0 && frac == 0 {
        return Some(0);
    }
    if exp == 0 || exp == 0x7ff {
        return None;
    }
    proof {
        lemma_pow2_52();
        assert(frac < 0x0010_0000_0000_0000u64) by (bit_vector)
            requires frac == b & 0x000f_ffff_ffff_ffffu64;
        assert(exp <= 0x7ff) by (bit_vector)
            requires exp == (b >> 52u64) & 0x7ffu64;
    }
    let m: u64 = frac + 0x0010_0000_0000_0000u64;
    if exp >= 1075 {
        let e: u64 = exp - 1075;
        if e > 10 {
            proof {
                lemma_pow2_adds(52, e as nat);
                lemma_pow2_strictly_increases(62, 52 + e as nat);
                if e > 11 {
                    lemma_pow2_strictly_increases(63, 52 + e as nat);
                    vstd::arithmetic::power2::lemma2_to64_rest();
                }
                vstd::arithmetic::power2::lemma2_to64_rest();
                lemma_pow2_pos(e as nat);
                assert(m * pow2(e as nat) >= pow2(52) * pow2(e as nat)) by (nonlinear_arith)
                    requires m >= pow2(52);
                if frac > 0 {
                    assert(m * pow2(e as nat) > pow2(52) * pow2(e as nat)) by (nonlinear_arith)
                        requires m > pow2(52), pow2(e as nat) > 0;
                }
            }
            if e == 11 && frac == 0 && negative {
                return Some(i64::MIN);
            }
            return None;
        }
        proof {
            lemma_pow2_adds(52, e as nat);
            lemma_pow2_strictly_increases(52 + e as nat, 63);
            vstd::arithmetic::power2::lemma2_to64_rest();
            lemma_pow2_pos(e as nat);
            assert(m * pow2(e as nat) < pow2(53) * pow2(e as nat)) by (nonlinear_arith)
                requires m < pow2(53), pow2(e as nat) > 0;
            lemma_pow2_adds(53, e as nat);
            lemma_u64_shl_is_mul(m, e);
        }
        let mag: u64 = m << e;
        if negative {
            Some(-(mag as i64))
        } else {
            Some(mag as i64)
        }
    } else {
        let sh: u64 = 1075 - exp;
        if sh >= 53 {
            proof {
                if sh > 53 {
                    lemma_pow2_strictly_increases(53, sh as nat);
                }
                vstd::arithmetic::power2::lemma2_to64_rest();
                assert(m as int % pow2(sh as nat) as int == m) by {
                    vstd::arithmetic::div_mod::lemma_small_mod(m as nat, pow2(sh as nat));
                }
            }
            return None;
        }
        proof {
            lemma_u64_low_bits_mask_is_mod(m, sh as nat);
            lemma_u64_shr_is_div(m, sh);
            vstd::bits::lemma_low_bits_mask_values();
            vstd::arithmetic::power2::lemma2_to64();
            vstd::arithmetic::power2::lemma2_to64_rest();
            lemma_pow2_pos(sh as nat);
        }
        proof {
            vstd::bits::lemma_u64_pow2_no_overflow(sh as nat);
            lemma_u64_shl_is_mul(1, sh);
        }
        let p: u64 = 1u64 << sh;
        let mask: u64 = p - 1;
        proof {
            assert(mask == low_bits_mask(sh as nat) as u64) by {
                vstd::bits::lemma_low_bits_mask_unfold(sh as nat);
                assert(low_bits_mask(sh as nat) == pow2(sh as nat) - 1) by {
                    reveal(low_bits_mask);
                }
            }
        }
        if m & mask != 0 {
            return None;
        }
        let mag: u64 = m >> sh;
        proof {
            assert(mag <= m) by {
                vstd::arithmetic::div_mod::lemma_div_is_ordered_by_denominator(m as int, 1, pow2(sh as nat) as int);
            }
        }
        if negative {
            Some(-(mag as i64))
        } else {
            Some(mag as i64)
        }
    }
}

impl Int64Type {
    pub fn name(&self) -> (r: String)
        ensures
            r@ == "Int64"@,
    {
        "Int64".to_string()
    }

    pub fn default_value(&self) -> (r: Value)
        ensures
            r == Value::Int64(0),
    {
        Value::Int64(0)
    }

    /// Casts `from` to Int64 by `int64_cast`; `None` when the table has no entry.
    pub fn try_cast(&self, from: Value) -> (r: Option<Value>)
        ensures
            r is Some ==> value_has_type(r->Some_0, ConcreteDatatype::Int64(Int64Type)),
            r == (match int64_cast(from) {
                Some(n) => Some(Value::Int64(n)),
                None => None,
            }),
    {
        let n: Option<i64> = match &from {
            Value::Int8(x) => Some(*x as i64),
            Value::Int16(x) => Some(*x as i64),
            Value::Int32(x) => Some(*x as i64),
            Value::Int64(x) => Some(*x),
            Value::Uint8(x) => Some(*x as i64),
            Value::Uint16(x) => Some(*x as i64),
            Value::Uint32(x) => Some(*x as i64),
            Value::Uint64(x) => if *x <= i64::MAX as u64 {
                Some(*x as i64)
            } else {
                None
            },
            Value::Bool(b) => Some(
                if *b {
                    1
                } else {
                    0
                },
            ),
            Value::Float64(b) => f64_bits_to_i64(*b),
            Value::String(s) => parse_i64(s.as_str()),
            _ => None,
        };
        match n {
            Some(v) => Some(Value::Int64(v)),
            None => None,
        }
    }
}

impl BooleanType {
    pub fn name(&self) -> (r: String)
        ensures
            r@ == "Boolean"@,
    {
        "Boolean".to_string()
    }

    pub fn default_value(&self) -> (r: Value)
        ensures
            r == Value::Bool(false),
    {
        Value::Bool(false)
    }

    /// Casts `from` to Bool by `bool_cast`; `None` when the table has no entry.
    pub fn try_cast(&self, from: Value) -> (r: Option<Value>)
        ensures
            r is Some ==> value_has_type(r->Some_0, ConcreteDatatype::Bool(BooleanType)),
            r == (match bool_cast(from) {
                Some(b) => Some(Value::Bool(b)),
                None => None,
            }),
    {
        let b: Option<bool> = match &from {
            Value::Bool(b) => Some(*b),
            Value::Int8(x) => Some(*x != 0),
            Value::Int16(x) => Some(*x != 0),
            Value::Int32(x) => Some(*x != 0),
            Value::Int64(x) => Some(*x != 0),
            Value::Uint8(x) => Some(*x != 0),
            Value::Uint16(x) => Some(*x != 0),
            Value::Uint32(x) => Some(*x != 0),
            Value::Uint64(x) => Some(*x != 0),
            Value::Float32(x) => Some(*x & 0x7fff_ffffu32 != 0),
            Value::Float64(x) => Some(*x & 0x7fff_ffff_ffff_ffffu64 != 0),
            Value::String(s) => parse_bool_word(s.as_str()),
            _ => None,
        };
        match b {
            Some(v) => Some(Value::Bool(v)),
            None => None,
        }
    }
}

} // verus!
