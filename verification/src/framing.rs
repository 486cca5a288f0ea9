//! The framing of serialized bytecode: the payload follows its length,
//! written as eight little-endian bytes.
use vstd::prelude::*;

verus! {

/// The `k` lowest base-256 digits of `n`, lowest first.
pub open spec fn le_bytes(n: nat, k: nat) -> Seq<u8>
    decreases k,
{
    if k == 0 {
        seq![]
    } else {
        seq![(n % 256) as u8] + le_bytes(n / 256, (k - 1) as nat)
    }
}

/// The number whose base-256 digits, lowest first, are `b`.
pub open spec fn le_value(b: Seq<u8>) -> nat
    decreases b.len(),
{
    if b.len() == 0 {
        0
    } else {
        b[0] as nat + 256 * le_value(b.subrange(1, b.len() as int))
    }
}

pub open spec fn pow256(k: nat) -> nat
    decreases k,
{
    if k == 0 {
        1
    } else {
        256 * pow256((k - 1) as nat)
    }
}

/// A framed payload: its length in eight bytes, then the payload.
pub open spec fn frame(payload: Seq<u8>) -> Seq<u8> {
    le_bytes(payload.len(), 8) + payload
}

/// The payload of framed data: `None` when the data is too short for the
/// length or for the payload. Bytes after the payload are not read.
pub open spec fn unframe(data: Seq<u8>) -> Option<Seq<u8>> {
    if data.len() < 8 {
        None
    } else {
        let n = le_value(data.subrange(0, 8));
        if data.len() - 8 < n {
            None
        } else {
            Some(data.subrange(8, 8 + n as int))
        }
    }
}

/// Why framed data could not be read.
#[derive(Debug, PartialEq, Eq)]
pub enum FrameError {
    /// Fewer than eight bytes: the length is missing.
    MissingLength,
    /// Fewer bytes after the length than it gives.
    MissingPayload,
}

/// The data framing `payload`.
pub fn write_frame(payload: &Vec<u8>) -> (r: Vec<u8>)
    ensures
        r@ == frame(payload@),
{
    let mut out: Vec<u8> = Vec::new();
    let ghost total = payload@.len();
    let mut n: u64 = payload.len() as u64;
    let mut i: usize = 0;
    while i < 8
        invariant
            i <= 8,
            out@ + le_bytes(n as nat, (8 - i) as nat) == le_bytes(total, 8),
        decreases 8 - i,
    {
        let d = (n % 256) as u8;
        proof {
            let k = (8 - i) as nat;
            assert(le_bytes(n as nat, k) == seq![d] + le_bytes((n / 256) as nat, (k - 1) as nat));
            assert(out@.push(d) + le_bytes((n / 256) as nat, (k - 1) as nat) =~= out@ + le_bytes(n as nat, k));
        }
        out.push(d);
        n = n / 256;
        i = i + 1;
    }
    assert(out@ =~= le_bytes(total, 8));
    let mut j: usize = 0;
    while j < payload.len()
        invariant
            j <= payload.len(),
            out@ == le_bytes(total, 8) + payload@.subrange(0, j as int),
        decreases payload.len() - j,
    {
        out.push(payload[j]);
        assert(payload@.subrange(0, j as int + 1) =~= payload@.subrange(0, j as int).push(payload@[j as int]));
        j = j + 1;
    }
    assert(payload@.subrange(0, payload.len() as int) =~= payload@);
    out
}

proof fn lemma_le_value_bound(b: Seq<u8>)
    ensures
        le_value(b) < pow256(b.len()),
    decreases b.len(),
{
    if b.len() > 0 {
        let t = b.subrange(1, b.len() as int);
        lemma_le_value_bound(t);
        let v = le_value(t);
        let p = pow256(t.len());
        assert(b[0] as nat + 256 * v < 256 * p) by (nonlinear_arith)
            requires
                v < p,
                b[0] < 256,
        ;
    }
}

/// The length that the first eight bytes of framed data give.
pub fn frame_len(header: &Vec<u8>) -> (r: u64)
    requires
        header@.len() == 8,
    ensures
        r as nat == le_value(header@),
{
    let mut n: u64 = 0;
    let mut i: usize = 8;
    assert(header@.subrange(8, 8) =~= Seq::<u8>::empty());
    while i > 0
        invariant
            i <= 8,
            header@.len() == 8,
            n as nat == le_value(header@.subrange(i as int, 8)),
        decreases i,
    {
        let d = header[i - 1];
        let ghost t = header@.subrange(i - 1, 8);
        proof {
            assert(t.subrange(1, t.len() as int) =~= header@.subrange(i as int, 8));
            lemma_le_value_bound(header@.subrange(i as int, 8));
            assert(pow256(0) == 1);
            assert(pow256(8) == 18446744073709551616) by {
                reveal_with_fuel(pow256, 9);
            }
            lemma_pow256_monotonic((8 - i) as nat, 7);
            assert(n * 256 + d < 18446744073709551616) by (nonlinear_arith)
                requires
                    n < pow256((8 - i) as nat),
                    pow256((8 - i) as nat) <= pow256(7),
                    pow256(8) == 256 * pow256(7),
                    pow256(8) == 18446744073709551616,
                    d < 256,
            ;
        }
        n = n * 256 + d as u64;
        i = i - 1;
    }
    assert(header@.subrange(0, 8) =~= header@);
    n
}

proof fn lemma_pow256_monotonic(a: nat, b: nat)
    requires
        a <= b,
    ensures
        pow256(a) <= pow256(b),
    decreases b,
{
    if a < b {
        lemma_pow256_monotonic(a, (b - 1) as nat);
    }
}

/// The payload of framed data, or why there is none.
pub fn read_frame(data: &Vec<u8>) -> (r: Result<Vec<u8>, FrameError>)
    ensures
        match unframe(data@) {
            Some(p) => r matches Ok(v) && v@ == p,
            None => r == Err::<Vec<u8>, FrameError>(if data@.len() < 8 {
                FrameError::MissingLength
            } else {
                FrameError::MissingPayload
            }),
        },
{
    if data.len() < 8 {
        return Err(FrameError::MissingLength);
    }
    let mut header: Vec<u8> = Vec::new();
    let mut i: usize = 0;
    while i < 8
        invariant
            i <= 8,
            8 <= data@.len(),
            header@ == data@.subrange(0, i as int),
        decreases 8 - i,
    {
        header.push(data[i]);
        assert(data@.subrange(0, i as int + 1) =~= data@.subrange(0, i as int).push(data@[i as int]));
        i = i + 1;
    }
    let n = frame_len(&header);
    let rest = data.len() - 8;
    if (rest as u64) < n {
        return Err(FrameError::MissingPayload);
    }
    let n = n as usize;
    let mut out: Vec<u8> = Vec::new();
    let mut j: usize = 0;
    while j < n
        invariant
            j <= n,
            8 + n <= data.len(),
            out@ == data@.subrange(8, 8 + j as int),
        decreases n - j,
    {
        out.push(data[8 + j]);
        assert(data@.subrange(8, 8 + j + 1) =~= data@.subrange(8, 8 + j as int).push(data@[8 + j as int]));
        j = j + 1;
    }
    Ok(out)
}

/// Reading the eight bytes of a length gives the length back.
proof fn lemma_le_roundtrip(n: nat, k: nat)
    requires
        n < pow256(k),
    ensures
        le_bytes(n, k).len() == k,
        le_value(le_bytes(n, k)) == n,
    decreases k,
{
    if k > 0 {
        let rest = le_bytes(n / 256, (k - 1) as nat);
        assert(n / 256 < pow256((k - 1) as nat)) by (nonlinear_arith)
            requires
                n < 256 * pow256((k - 1) as nat),
        ;
        lemma_le_roundtrip(n / 256, (k - 1) as nat);
        let b = le_bytes(n, k);
        assert(b.subrange(1, b.len() as int) =~= rest);
        assert(n % 256 + 256 * (n / 256) == n);
    }
}

/// Law: reading framed data gives back the payload that was framed, for
/// every payload whose length fits in the eight bytes.
pub proof fn law_frame_roundtrip(payload: Seq<u8>)
    requires
        payload.len() < pow256(8),
    ensures
        unframe(frame(payload)) == Some(payload),
{
    lemma_le_roundtrip(payload.len(), 8);
    let d = frame(payload);
    assert(d.subrange(0, 8) =~= le_bytes(payload.len(), 8));
    assert(d.subrange(8, 8 + payload.len() as int) =~= payload);
}

} // verus!
