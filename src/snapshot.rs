use vstd::arithmetic::power::pow;
use vstd::prelude::*;
use vstd::utf8::{decode_utf8, encode_utf8, valid_utf8};

use crate::varint::{read_varint, varint, write_varint};

verus! {

pub const SNAPSHOT_FORMAT_VERSION: u8 = 1;

/// Why snapshot bytes could not be read.
#[derive(Debug, Clone, Copy, PartialEq, Eq, Structural)]
pub enum PlanCacheCodecError {
    UnsupportedVersion(u8),
    Corrupted,
}

/// A cached plan: the fingerprint it was made for, the build that made it,
/// and the encoded logical and physical plans.
#[derive(Debug)]
pub struct PlanSnapshotBytes {
    pub fingerprint: String,
    pub flow_build_id: String,
    pub logical_plan_ir: Vec<u8>,
    pub physical_plan_ir: Vec<u8>,
}

/// A length-prefixed field.
pub open spec fn frame(b: Seq<u8>) -> Seq<u8> {
    varint(b.len()) + b
}

/// The snapshot format: version byte, then fingerprint, build id, logical
/// and physical plan, each as a length-prefixed field (text as UTF-8).
pub open spec fn snapshot_bytes(fp: Seq<char>, build: Seq<char>, logical: Seq<u8>, physical: Seq<u8>) -> Seq<u8> {
    seq![SNAPSHOT_FORMAT_VERSION] + frame(encode_utf8(fp)) + frame(encode_utf8(build)) + frame(logical)
        + frame(physical)
}

/// Field lengths that the length prefix can carry.
pub open spec fn frameable(b: Seq<u8>) -> bool {
    b.len() < pow(128, 9)
}

/// Relies on `String::from_utf8`: it succeeds exactly on valid UTF-8, and
/// the string then holds the characters those bytes encode.
#[verifier::external_body]
fn string_from_utf8(bytes: Vec<u8>) -> (r: Option<String>)
    ensures
        r is Some <==> valid_utf8(bytes@),
        r matches Some(s) ==> s@ == decode_utf8(bytes@),
{
    String::from_utf8(bytes).ok()
}

fn copy_range(b: &[u8], start: usize, end: usize) -> (r: Vec<u8>)
    requires
        start <= end <= b@.len(),
    ensures
        r@ == b@.subrange(start as int, end as int),
{
    let mut out: Vec<u8> = Vec::new();
    let mut i = start;
    while i < end
        invariant
            start <= i <= end <= b@.len(),
            out@ == b@.subrange(start as int, i as int),
        decreases end - i,
    {
        out.push(b[i]);
        proof {
            assert(out@ =~= b@.subrange(start as int, i + 1));
        }
        i += 1;
    }
    out
}

fn write_frame(out: &mut Vec<u8>, field: &[u8])
    ensures
        final(out)@ == old(out)@ + frame(field@),
{
    write_varint(out, field.len() as u64);
    let ghost mid = out@;
    let mut i: usize = 0;
    while i < field.len()
        invariant
            0 <= i <= field@.len(),
            out@ == mid + field@.subrange(0, i as int),
        decreases field@.len() - i,
    {
        out.push(field[i]);
        proof {
            assert(out@ =~= mid + field@.subrange(0, i + 1));
        }
        i += 1;
    }
    proof {
        assert(field@.subrange(0, field@.len() as int) =~= field@);
        assert(mid + field@ =~= old(out)@ + frame(field@));
    }
}

/// Reads one length-prefixed field at `pos`: its bytes and where the next
/// field starts.
fn read_frame(b: &[u8], pos: usize) -> (r: Option<(Vec<u8>, usize)>)
    requires
        pos <= b@.len(),
    ensures
        r is Some ==> pos <= r->Some_0.1 <= b@.len() && b@.subrange(pos as int, r->Some_0.1 as int)
            == frame(r->Some_0.0@),
        forall|x: Seq<u8>, rest: Seq<u8>|
            #![trigger frame(x) + rest]
            frameable(x) && b@.subrange(pos as int, b@.len() as int) == frame(x) + rest
                ==> r is Some && r->Some_0.0@ == x && r->Some_0.1 == pos + frame(x).len(),
{
    let len = b.len();
    match read_varint(b, pos) {
        None => {
            proof {
                assert forall|x: Seq<u8>, rest: Seq<u8>|
                    frameable(x) && b@.subrange(pos as int, b@.len() as int) == #[trigger] (frame(x) + rest)
                        implies false by {
                    assert(frame(x) + rest =~= varint(x.len()) + (x + rest));
                }
            }
            None
        },
        Some((n, k)) => {
            let start = pos + k;
            if n > (len - start) as u64 {
                proof {
                    assert forall|x: Seq<u8>, rest: Seq<u8>|
                        frameable(x) && b@.subrange(pos as int, b@.len() as int) == #[trigger] (frame(x) + rest)
                            implies false by {
                        assert(frame(x) + rest =~= varint(x.len()) + (x + rest));
                    }
                }
                return None;
            }
            let end = start + n as usize;
            let v = copy_range(b, start, end);
            proof {
                assert(b@.subrange(pos as int, end as int) =~= b@.subrange(pos as int, start as int) + v@);
                assert forall|x: Seq<u8>, rest: Seq<u8>|
                    frameable(x) && b@.subrange(pos as int, b@.len() as int) == #[trigger] (frame(x) + rest)
                        implies v@ == x && end == pos + frame(x).len() by {
                    assert(frame(x) + rest =~= varint(x.len()) + (x + rest));
                    assert(n == x.len());
                    assert(k == varint(x.len()).len());
                    let t = b@.subrange(pos as int, b@.len() as int);
                    assert forall|j: int| 0 <= j < x.len() implies v@[j] == x[j] by {
                        assert(v@[j] == b@[start + j]);
                        assert(t[k + j] == b@[pos + k + j]);
                        assert((frame(x) + rest)[k + j] == x[j]);
                    }
                    assert(v@ =~= x);
                }
            }
            Some((v, end))
        },
    }
}

proof fn lemma_snapshot_tails(fp: Seq<char>, build: Seq<char>, l: Seq<u8>, p: Seq<u8>)
    ensures
        ({
            let all = snapshot_bytes(fp, build, l, p);
            let e1 = encode_utf8(fp);
            let e2 = encode_utf8(build);
            let n2 = 1 + frame(e1).len();
            let n3 = n2 + frame(e2).len();
            let n4 = n3 + frame(l).len();
            &&& all[0] == SNAPSHOT_FORMAT_VERSION
            &&& all.len() == n4 + frame(p).len()
            &&& all.subrange(1, all.len() as int) == frame(e1) + (frame(e2) + frame(l) + frame(p))
            &&& all.subrange(n2 as int, all.len() as int) == frame(e2) + (frame(l) + frame(p))
            &&& all.subrange(n3 as int, all.len() as int) == frame(l) + frame(p)
            &&& all.subrange(n4 as int, all.len() as int) == frame(p) + Seq::<u8>::empty()
        }),
{
    let all = snapshot_bytes(fp, build, l, p);
    let e1 = encode_utf8(fp);
    let e2 = encode_utf8(build);
    let n2 = 1 + frame(e1).len();
    let n3 = n2 + frame(e2).len();
    let n4 = n3 + frame(l).len();
    assert(all.subrange(1, all.len() as int) =~= frame(e1) + (frame(e2) + frame(l) + frame(p)));
    assert(all.subrange(n2 as int, all.len() as int) =~= frame(e2) + (frame(l) + frame(p)));
    assert(all.subrange(n3 as int, all.len() as int) =~= frame(l) + frame(p));
    assert(all.subrange(n4 as int, all.len() as int) =~= frame(p) + Seq::<u8>::empty());
}

impl PlanSnapshotBytes {
    pub fn new(
        fingerprint: String,
        flow_build_id: String,
        logical_plan_ir: Vec<u8>,
        physical_plan_ir: Vec<u8>,
    ) -> (r: PlanSnapshotBytes)
        ensures
            r.fingerprint == fingerprint,
            r.flow_build_id == flow_build_id,
            r.logical_plan_ir == logical_plan_ir,
            r.physical_plan_ir == physical_plan_ir,
    {
        PlanSnapshotBytes { fingerprint, flow_build_id, logical_plan_ir, physical_plan_ir }
    }

    pub open spec fn bytes(&self) -> Seq<u8> {
        snapshot_bytes(self.fingerprint@, self.flow_build_id@, self.logical_plan_ir@, self.physical_plan_ir@)
    }

    /// Encodes this snapshot in the snapshot format.
    pub fn encode(&self) -> (r: Vec<u8>)
        ensures
            r@ == self.bytes(),
    {
        let mut out: Vec<u8> = Vec::new();
        out.push(SNAPSHOT_FORMAT_VERSION);
        write_frame(&mut out, self.fingerprint.as_str().as_bytes());
        write_frame(&mut out, self.flow_build_id.as_str().as_bytes());
        write_frame(&mut out, self.logical_plan_ir.as_slice());
        write_frame(&mut out, self.physical_plan_ir.as_slice());
        proof {
            assert(out@ =~= self.bytes());
        }
        out
    }

    /// Decodes bytes in the snapshot format. A first byte other than the
    /// format version is refused as an unsupported version; empty,
    /// truncated or malformed input, or trailing bytes, as corrupted.
    pub fn decode(bytes: &[u8]) -> (r: Result<PlanSnapshotBytes, PlanCacheCodecError>)
        ensures
            bytes@.len() == 0 ==> r == Err::<PlanSnapshotBytes, PlanCacheCodecError>(PlanCacheCodecError::Corrupted),
            bytes@.len() > 0 && bytes@[0] != SNAPSHOT_FORMAT_VERSION ==> r == Err::<
                PlanSnapshotBytes,
                PlanCacheCodecError,
            >(PlanCacheCodecError::UnsupportedVersion(bytes@[0])),
            r matches Ok(s) ==> s.bytes() == bytes@,
            forall|fp: Seq<char>, build: Seq<char>, l: Seq<u8>, p: Seq<u8>|
                frameable(encode_utf8(fp)) && frameable(encode_utf8(build)) && frameable(l) && frameable(p)
                    && #[trigger] snapshot_bytes(fp, build, l, p) == bytes@ ==> r is Ok
                    && r->Ok_0.fingerprint@ == fp && r->Ok_0.flow_build_id@ == build && r->Ok_0.logical_plan_ir@ == l
                    && r->Ok_0.physical_plan_ir@ == p,
    {
        if bytes.len() == 0 {
            return Err(PlanCacheCodecError::Corrupted);
        }
        if bytes[0] != SNAPSHOT_FORMAT_VERSION {
            return Err(PlanCacheCodecError::UnsupportedVersion(bytes[0]));
        }
        let ghost all = bytes@;
        let (f1, p1) = match read_frame(bytes, 1) {
            Some(x) => x,
            None => {
                proof {
                    assert forall|fp: Seq<char>, build: Seq<char>, l: Seq<u8>, p: Seq<u8>|
                        frameable(encode_utf8(fp)) && frameable(encode_utf8(build)) && frameable(l) && frameable(p)
                            && #[trigger] snapshot_bytes(fp, build, l, p) == all implies false by {
                        lemma_snapshot_tails(fp, build, l, p);
                    }
                }
                return Err(PlanCacheCodecError::Corrupted);
            },
        };
        let (f2, p2) = match read_frame(bytes, p1) {
            Some(x) => x,
            None => {
                proof {
                    assert forall|fp: Seq<char>, build: Seq<char>, l: Seq<u8>, p: Seq<u8>|
                        frameable(encode_utf8(fp)) && frameable(encode_utf8(build)) && frameable(l) && frameable(p)
                            && #[trigger] snapshot_bytes(fp, build, l, p) == all implies false by {
                        lemma_snapshot_tails(fp, build, l, p);
                    }
                }
                return Err(PlanCacheCodecError::Corrupted);
            },
        };
        let (f3, p3) = match read_frame(bytes, p2) {
            Some(x) => x,
            None => {
                proof {
                    assert forall|fp: Seq<char>, build: Seq<char>, l: Seq<u8>, p: Seq<u8>|
                        frameable(encode_utf8(fp)) && frameable(encode_utf8(build)) && frameable(l) && frameable(p)
                            && #[trigger] snapshot_bytes(fp, build, l, p) == all implies false by {
                        lemma_snapshot_tails(fp, build, l, p);
                    }
                }
                return Err(PlanCacheCodecError::Corrupted);
            },
        };
        let (f4, p4) = match read_frame(bytes, p3) {
            Some(x) => x,
            None => {
                proof {
                    assert forall|fp: Seq<char>, build: Seq<char>, l: Seq<u8>, p: Seq<u8>|
                        frameable(encode_utf8(fp)) && frameable(encode_utf8(build)) && frameable(l) && frameable(p)
                            && #[trigger] snapshot_bytes(fp, build, l, p) == all implies false by {
                        lemma_snapshot_tails(fp, build, l, p);
                    }
                }
                return Err(PlanCacheCodecError::Corrupted);
            },
        };
        if p4 != bytes.len() {
            proof {
                assert forall|fp: Seq<char>, build: Seq<char>, l: Seq<u8>, p: Seq<u8>|
                    frameable(encode_utf8(fp)) && frameable(encode_utf8(build)) && frameable(l) && frameable(p)
                        && #[trigger] snapshot_bytes(fp, build, l, p) == all implies false by {
                    lemma_snapshot_tails(fp, build, l, p);
                }
            }
            return Err(PlanCacheCodecError::Corrupted);
        }
        let ghost b1 = f1@;
        let ghost b2 = f2@;
        proof {
            assert(all =~= seq![SNAPSHOT_FORMAT_VERSION] + frame(b1) + frame(b2) + frame(f3@) + frame(f4@)) by {
                assert(all =~= all.subrange(0, 1) + all.subrange(1, p1 as int) + all.subrange(p1 as int, p2 as int)
                    + all.subrange(p2 as int, p3 as int) + all.subrange(p3 as int, p4 as int));
            }
            assert forall|fp: Seq<char>, build: Seq<char>, l: Seq<u8>, p: Seq<u8>|
                frameable(encode_utf8(fp)) && frameable(encode_utf8(build)) && frameable(l) && frameable(p)
                    && #[trigger] snapshot_bytes(fp, build, l, p) == all implies encode_utf8(fp) == b1
                    && encode_utf8(build) == b2 && l == f3@ && p == f4@ by {
                lemma_snapshot_tails(fp, build, l, p);
            }
        }
        let fingerprint = match string_from_utf8(f1) {
            Some(s) => s,
            None => {
                proof {
                    assert forall|fp: Seq<char>, build: Seq<char>, l: Seq<u8>, p: Seq<u8>|
                        frameable(encode_utf8(fp)) && frameable(encode_utf8(build)) && frameable(l) && frameable(p)
                            && #[trigger] snapshot_bytes(fp, build, l, p) == all implies false by {
                        vstd::utf8::encode_utf8_valid_utf8(fp);
                    }
                }
                return Err(PlanCacheCodecError::Corrupted);
            },
        };
        let flow_build_id = match string_from_utf8(f2) {
            Some(s) => s,
            None => {
                proof {
                    assert forall|fp: Seq<char>, build: Seq<char>, l: Seq<u8>, p: Seq<u8>|
                        frameable(encode_utf8(fp)) && frameable(encode_utf8(build)) && frameable(l) && frameable(p)
                            && #[trigger] snapshot_bytes(fp, build, l, p) == all implies false by {
                        vstd::utf8::encode_utf8_valid_utf8(build);
                    }
                }
                return Err(PlanCacheCodecError::Corrupted);
            },
        };
        proof {
            vstd::utf8::decode_utf8_encode_utf8(b1);
            vstd::utf8::decode_utf8_encode_utf8(b2);
            assert forall|fp: Seq<char>, build: Seq<char>, l: Seq<u8>, p: Seq<u8>|
                frameable(encode_utf8(fp)) && frameable(encode_utf8(build)) && frameable(l) && frameable(p)
                    && #[trigger] snapshot_bytes(fp, build, l, p) == all implies fingerprint@ == fp
                    && flow_build_id@ == build by {
                vstd::utf8::encode_utf8_decode_utf8(fp);
                vstd::utf8::encode_utf8_decode_utf8(build);
            }
        }
        Ok(PlanSnapshotBytes { fingerprint, flow_build_id, logical_plan_ir: f3, physical_plan_ir: f4 })
    }
}

proof fn lemma_frame_prefix_free(x: Seq<u8>, y: Seq<u8>, rx: Seq<u8>, ry: Seq<u8>)
    requires
        frame(x) + rx == frame(y) + ry,
    ensures
        x == y,
        rx == ry,
{
    assert(frame(x) + rx =~= varint(x.len()) + (x + rx));
    assert(frame(y) + ry =~= varint(y.len()) + (y + ry));
    crate::varint::lemma_varint_prefix_free(x.len(), y.len(), x + rx, y + ry);
    assert(x =~= (x + rx).subrange(0, x.len() as int));
    assert(y =~= (y + ry).subrange(0, y.len() as int));
    assert(rx =~= (x + rx).subrange(x.len() as int, (x + rx).len() as int));
    assert(ry =~= (y + ry).subrange(y.len() as int, (y + ry).len() as int));
}

/// Snapshot bytes determine the snapshot: decoding what `encode` wrote
/// gives back the same fingerprint, build id and plans.
pub proof fn lemma_snapshot_roundtrip(
    fp: Seq<char>,
    build: Seq<char>,
    l: Seq<u8>,
    p: Seq<u8>,
    fp2: Seq<char>,
    build2: Seq<char>,
    l2: Seq<u8>,
    p2: Seq<u8>,
)
    requires
        snapshot_bytes(fp, build, l, p) == snapshot_bytes(fp2, build2, l2, p2),
    ensures
        fp == fp2,
        build == build2,
        l == l2,
        p == p2,
{
    let a = snapshot_bytes(fp, build, l, p);
    let b = snapshot_bytes(fp2, build2, l2, p2);
    lemma_snapshot_tails(fp, build, l, p);
    lemma_snapshot_tails(fp2, build2, l2, p2);
    lemma_frame_prefix_free(
        encode_utf8(fp),
        encode_utf8(fp2),
        frame(encode_utf8(build)) + frame(l) + frame(p),
        frame(encode_utf8(build2)) + frame(l2) + frame(p2),
    );
    lemma_frame_prefix_free(
        encode_utf8(build),
        encode_utf8(build2),
        frame(l) + frame(p),
        frame(l2) + frame(p2),
    );
    lemma_frame_prefix_free(l, l2, frame(p), frame(p2));
    assert(frame(p) + Seq::<u8>::empty() =~= frame(p));
    assert(frame(p2) + Seq::<u8>::empty() =~= frame(p2));
    lemma_frame_prefix_free(p, p2, Seq::empty(), Seq::empty());
    vstd::utf8::encode_utf8_decode_utf8(fp);
    vstd::utf8::encode_utf8_decode_utf8(fp2);
    vstd::utf8::encode_utf8_decode_utf8(build);
    vstd::utf8::encode_utf8_decode_utf8(build2);
}

} // verus!
