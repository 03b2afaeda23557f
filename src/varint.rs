use vstd::arithmetic::power::pow;
use vstd::prelude::*;

verus! {

/// Unsigned LEB128: seven bits per byte, low bits first, the high bit set on
/// every byte but the last.
pub open spec fn varint(n: nat) -> Seq<u8>
    decreases n,
{
    if n < 128 {
        seq![n as u8]
    } else {
        seq![(n % 128 + 128) as u8] + varint(n / 128)
    }
}

pub proof fn lemma_varint_shape(n: nat)
    ensures
        varint(n).len() >= 1,
        forall|j: int| 0 <= j < varint(n).len() - 1 ==> varint(n)[j] >= 128,
        varint(n).last() < 128,
        varint(n).len() > 1 ==> varint(n).last() != 0,
        n < pow(128, 9) ==> varint(n).len() <= 9,
        n >= 128 ==> varint(n).len() == 1 + varint(n / 128).len(),
    decreases n,
{
    if n >= 128 {
        lemma_varint_shape(n / 128);
        let t = varint(n / 128);
        assert(varint(n) == seq![(n % 128 + 128) as u8] + t);
        assert forall|j: int| 0 <= j < varint(n).len() - 1 implies varint(n)[j] >= 128 by {
            if j > 0 {
                assert(varint(n)[j] == t[j - 1]);
            }
        }
        assert(varint(n).last() == t.last());
        if n / 128 < 128 {
            assert(t.last() == (n / 128) as u8);
        }
        if n < pow(128, 9) {
            vstd::arithmetic::power::lemma_pow_positive(128, 8);
            assert(pow(128, 9) == 128 * pow(128, 8)) by {
                vstd::arithmetic::power::lemma_pow_adds(128, 1, 8);
                vstd::arithmetic::power::lemma_pow1(128);
            }
            assert(n / 128 < pow(128, 8)) by (nonlinear_arith)
                requires n < 128 * pow(128, 8), pow(128, 8) > 0;
            lemma_varint_len_bound(n / 128, 8);
        }
    }
}

proof fn lemma_varint_len_bound(n: nat, k: nat)
    requires
        n < pow(128, k),
    ensures
        varint(n).len() <= if k == 0 {
            1
        } else {
            k
        },
    decreases n,
{
    if n >= 128 {
        if k <= 1 {
            vstd::arithmetic::power::lemma_pow1(128);
            vstd::arithmetic::power::lemma_pow0(128);
        } else {
            vstd::arithmetic::power::lemma_pow_positive(128, (k - 1) as nat);
            assert(pow(128, k) == 128 * pow(128, (k - 1) as nat)) by {
                vstd::arithmetic::power::lemma_pow_adds(128, 1, (k - 1) as nat);
                vstd::arithmetic::power::lemma_pow1(128);
            }
            assert(n / 128 < pow(128, (k - 1) as nat)) by (nonlinear_arith)
                requires n < 128 * pow(128, (k - 1) as nat), pow(128, (k - 1) as nat) > 0;
            lemma_varint_len_bound(n / 128, (k - 1) as nat);
        }
    }
}

/// Distinct numbers have encodings of which neither starts the other.
pub proof fn lemma_varint_prefix_free(a: nat, b: nat, ra: Seq<u8>, rb: Seq<u8>)
    requires
        varint(a) + ra == varint(b) + rb,
    ensures
        a == b,
        ra == rb,
    decreases a,
{
    let x = varint(a) + ra;
    assert(x[0] == varint(a)[0]);
    assert(x[0] == varint(b)[0]);
    if a < 128 && b < 128 {
        assert(ra =~= x.drop_first());
        assert(rb =~= x.drop_first());
    } else if a >= 128 && b >= 128 {
        assert(varint(a) + ra =~= seq![varint(a)[0]] + (varint(a / 128) + ra));
        assert(varint(b) + rb =~= seq![varint(b)[0]] + (varint(b / 128) + rb));
        assert((varint(a / 128) + ra) =~= x.drop_first());
        assert((varint(b / 128) + rb) =~= x.drop_first());
        lemma_varint_prefix_free(a / 128, b / 128, ra, rb);
    } else {
        assert(false);
    }
}

proof fn lemma_pow_128_8()
    ensures
        pow(128, 8) == 72057594037927936,
{
    reveal(pow);
    assert(pow(128, 0) == 1);
    assert(pow(128, 1) == 128);
    assert(pow(128, 2) == 16384);
    assert(pow(128, 3) == 2097152);
    assert(pow(128, 4) == 268435456);
    assert(pow(128, 5) == 34359738368);
    assert(pow(128, 6) == 4398046511104);
    assert(pow(128, 7) == 562949953421312);
    assert(pow(128, 8) == 72057594037927936);
}

/// Appends the encoding of `n` to `out`.
pub fn write_varint(out: &mut Vec<u8>, n: u64)
    ensures
        final(out)@ == old(out)@ + varint(n as nat),
{
    let ghost start = out@;
    let mut m = n;
    while m >= 128
        invariant
            out@ + varint(m as nat) == start + varint(n as nat),
        decreases m,
    {
        let b: u8 = (m % 128 + 128) as u8;
        proof {
            assert(varint(m as nat) == seq![b] + varint((m / 128) as nat));
            assert(out@.push(b) + varint((m / 128) as nat) =~= out@ + varint(m as nat));
        }
        out.push(b);
        m = m / 128;
    }
    proof {
        assert(varint(m as nat) == seq![m as u8]);
        assert(out@.push(m as u8) =~= out@ + varint(m as nat));
    }
    out.push(m as u8);
}

/// Reads one encoding starting at `pos`: the number and the bytes it took.
/// Refuses encodings longer than nine bytes, encodings that end in a zero
/// byte after others, and input that stops in the middle.
pub fn read_varint(b: &[u8], pos: usize) -> (r: Option<(u64, usize)>)
    requires
        pos <= b@.len(),
    ensures
        r matches Some((v, k)) ==> pos + k <= b@.len() && b@.subrange(pos as int, pos + k) == varint(
            v as nat,
        ),
        forall|n: nat, rest: Seq<u8>|
            #![trigger varint(n) + rest]
            n < pow(128, 9) && b@.subrange(pos as int, b@.len() as int) == varint(n) + rest
                ==> r == Some((n as u64, varint(n).len() as usize)),
{
    let ghost tail = b@.subrange(pos as int, b@.len() as int);
    let len = b.len();
    let mut acc: u64 = 0;
    let mut mult: u64 = 1;
    let mut i: usize = 0;
    proof {
        vstd::arithmetic::power::lemma_pow0(128);
        assert forall|m: nat| m >= 1 implies #[trigger] varint((acc + mult * m) as nat) == b@.subrange(
            pos as int,
            pos + i,
        ) + varint(m) by {
            assert(b@.subrange(pos as int, pos as int) =~= Seq::<u8>::empty());
            assert(Seq::<u8>::empty() + varint(m) =~= varint(m));
        }
    }
    loop
        invariant
            pos <= b@.len(),
            len == b@.len(),
            tail == b@.subrange(pos as int, b@.len() as int),
            i <= 8,
            pos + i <= b@.len(),
            mult == pow(128, i as nat),
            acc < mult,
            forall|j: int| pos <= j < pos + i ==> b@[j] >= 128,
            forall|m: nat|
                m >= 1 ==> #[trigger] varint((acc + mult * m) as nat) == b@.subrange(pos as int, pos + i)
                    + varint(m),
        decreases 9 - i,
    {
        if pos + i >= len {
            proof {
                assert forall|n: nat, rest: Seq<u8>|
                    n < pow(128, 9) && b@.subrange(pos as int, b@.len() as int) == #[trigger] (varint(n) + rest)
                        implies false by {
                    lemma_varint_shape(n);
                    assert(tail.len() == i);
                    assert(varint(n).len() <= i);
                    assert(tail[varint(n).len() - 1] == varint(n).last());
                }
            }
            return None;
        }
        let c = b[pos + i];
        if c < 128 {
            if c == 0 && i > 0 {
                proof {
                    assert forall|n: nat, rest: Seq<u8>|
                        n < pow(128, 9) && b@.subrange(pos as int, b@.len() as int) == #[trigger] (varint(n) + rest)
                            implies false by {
                        lemma_varint_shape(n);
                        if varint(n).len() <= i {
                            assert(tail[varint(n).len() - 1] == varint(n).last());
                            assert(tail[varint(n).len() - 1] == b@[pos + varint(n).len() - 1]);
                        } else {
                            assert(tail[i as int] == varint(n)[i as int]);
                            assert(tail[i as int] == b@[pos + i]);
                            if i < varint(n).len() - 1 {
                                assert(varint(n)[i as int] >= 128);
                            }
                        }
                    }
                }
                return None;
            }
            proof {
                assert(mult * (c as nat) <= mult * 127) by (nonlinear_arith)
                    requires c < 128;
                vstd::arithmetic::power::lemma_pow_positive(128, i as nat);
                lemma_pow_128_8();
                vstd::arithmetic::power::lemma_pow_increases(128, i as nat, 8);
            }
            let v: u64 = acc + mult * (c as u64);
            let ghost k = i + 1;
            proof {
                if c == 0 {
                    vstd::arithmetic::power::lemma_pow0(128);
                    assert(i == 0);
                    assert(mult == 1);
                    assert(acc == 0);
                    assert(v == 0) by (nonlinear_arith)
                        requires v == acc + mult * c, acc == 0, c == 0;
                    assert(b@.subrange(pos as int, pos + 1) =~= seq![0u8]);
                } else {
                    assert(varint(c as nat) == seq![c]);
                    let cm: nat = c as nat;
                    assert(varint((acc + mult * cm) as nat) == b@.subrange(pos as int, pos + i) + varint(cm));
                    assert(v as nat == (acc + mult * cm) as nat);
                    assert(varint(v as nat) == b@.subrange(pos as int, pos + i) + seq![c]);
                    assert(b@.subrange(pos as int, pos + i) + seq![c] =~= b@.subrange(pos as int, pos + i + 1));
                }
                assert forall|n: nat, rest: Seq<u8>|
                    n < pow(128, 9) && b@.subrange(pos as int, b@.len() as int) == #[trigger] (varint(n) + rest)
                        implies (v as nat) == n && i + 1 == varint(n).len() by {
                    let got = b@.subrange(pos as int, pos + i + 1);
                    assert(tail =~= got + b@.subrange(pos + i + 1, b@.len() as int));
                    assert(got == varint(v as nat));
                    lemma_varint_prefix_free(v as nat, n, b@.subrange(pos + i + 1, b@.len() as int), rest);
                }
            }
            return Some((v, i + 1));
        }
        if i == 8 {
            proof {
                assert forall|n: nat, rest: Seq<u8>|
                    n < pow(128, 9) && b@.subrange(pos as int, b@.len() as int) == #[trigger] (varint(n) + rest)
                        implies false by {
                    lemma_varint_shape(n);
                    assert(tail[varint(n).len() - 1] == varint(n).last());
                    assert(tail[varint(n).len() - 1] == b@[pos + varint(n).len() - 1]);
                }
            }
            return None;
        }
        let d = (c - 128) as u64;
        proof {
            vstd::arithmetic::power::lemma_pow_positive(128, i as nat);
            assert(pow(128, (i + 1) as nat) == 128 * pow(128, i as nat)) by {
                vstd::arithmetic::power::lemma_pow_adds(128, 1, i as nat);
                vstd::arithmetic::power::lemma_pow1(128);
            }
            lemma_pow_128_8();
            vstd::arithmetic::power::lemma_pow_increases(128, (i + 1) as nat, 8);
            assert(acc + mult * d < mult * 128) by (nonlinear_arith)
                requires acc < mult, d < 128;
            let old_prefix = b@.subrange(pos as int, pos + i);
            assert forall|m: nat| m >= 1 implies #[trigger] varint((acc + mult * d + mult * 128 * m) as nat)
                == b@.subrange(pos as int, pos + i + 1) + varint(m) by {
                let m2: nat = d as nat + 128 * m;
                assert(acc + mult * d + mult * 128 * m == acc + mult * m2) by (nonlinear_arith)
                    requires m2 == d + 128 * m;
                assert(varint((acc + mult * m2) as nat) == old_prefix + varint(m2));
                assert(m2 % 128 == d) by (nonlinear_arith)
                    requires m2 == d + 128 * m, d < 128;
                assert(m2 / 128 == m) by (nonlinear_arith)
                    requires m2 == d + 128 * m, d < 128;
                assert(varint(m2) == seq![c] + varint(m));
                assert(old_prefix + (seq![c] + varint(m)) =~= b@.subrange(pos as int, pos + i + 1) + varint(m));
            }
        }
        acc = acc + mult * d;
        mult = mult * 128;
        i = i + 1;
    }
}

} // verus!
