use vstd::prelude::*;

verus! {

/// Appends every byte of `src` to `out`.
pub fn append_bytes(out: &mut Vec<u8>, src: &[u8])
    ensures
        final(out)@ == old(out)@ + src@,
{
    let mut i: usize = 0;
    while i < src.len()
        invariant
            i <= src@.len(),
            out@ == old(out)@ + src@.subrange(0, i as int),
        decreases src@.len() - i,
    {
        proof {
            assert(src@.subrange(0, i + 1) =~= src@.subrange(0, i as int).push(src@[i as int]));
        }
        out.push(src[i]);
        i = i + 1;
    }
    proof {
        assert(src@.subrange(0, src@.len() as int) =~= src@);
    }
}

/// A copy of the bytes of `data` from `from` up to `to`.
pub fn copy_range(data: &Vec<u8>, from: usize, to: usize) -> (r: Vec<u8>)
    requires
        from <= to <= data@.len(),
    ensures
        r@ == data@.subrange(from as int, to as int),
{
    let mut out: Vec<u8> = Vec::new();
    append_bytes(&mut out, vstd::slice::slice_subrange(data.as_slice(), from, to));
    out
}

/// `256` to the power `k`.
pub open spec fn pow256(k: nat) -> nat
    decreases k,
{
    if k == 0 {
        1
    } else {
        256 * pow256((k - 1) as nat)
    }
}

/// The `k` lowest bytes of `n`, most significant first.
pub open spec fn be_bytes(n: nat, k: nat) -> Seq<u8>
    decreases k,
{
    if k == 0 {
        seq![]
    } else {
        be_bytes(n / 256, (k - 1) as nat).push((n % 256) as u8)
    }
}

/// The unsigned value of `s` read most significant byte first.
pub open spec fn be_value(s: Seq<u8>) -> nat
    decreases s.len(),
{
    if s.len() == 0 {
        0
    } else {
        be_value(s.drop_last()) * 256 + s.last() as nat
    }
}

/// The signed value of a byte (two's complement).
pub open spec fn signed8(b: u8) -> i8 {
    if b >= 128 {
        (b - 256) as i8
    } else {
        b as i8
    }
}

/// The signed value of a 16-bit pattern (two's complement).
pub open spec fn signed16(v: nat) -> i16 {
    if v >= 0x8000 {
        (v - 0x1_0000) as i16
    } else {
        v as i16
    }
}

/// Appends the `k` lowest bytes of `n` to `out`, most significant first.
pub fn push_be(out: &mut Vec<u8>, n: u64, k: usize)
    ensures
        final(out)@ == old(out)@ + be_bytes(n as nat, k as nat),
    decreases k,
{
    if k > 0 {
        push_be(out, n / 256, k - 1);
        let b: u8 = (n % 256) as u8;
        proof {
            let prev = be_bytes((n / 256) as nat, (k - 1) as nat);
            assert(old(out)@ + prev.push(b) =~= (old(out)@ + prev).push(b));
        }
        out.push(b);
    }
}

proof fn lemma_pow256_le(k: nat)
    requires
        k <= 8,
    ensures
        pow256(k) <= 0x1_0000_0000_0000_0000,
{
    reveal_with_fuel(pow256, 9);
    if k == 0 {
    } else if k == 1 {
    } else if k == 2 {
    } else if k == 3 {
    } else if k == 4 {
    } else if k == 5 {
    } else if k == 6 {
    } else if k == 7 {
    } else {
    }
}

/// Reads the `k` bytes of `data` from `from` as an unsigned big-endian
/// value.
pub fn read_be(data: &Vec<u8>, from: usize, k: usize) -> (r: u64)
    requires
        k <= 8,
        from + k <= data@.len(),
    ensures
        r == be_value(data@.subrange(from as int, from + k)),
        r < pow256(k as nat),
{
    let mut acc: u64 = 0;
    let mut i: usize = 0;
    while i < k
        invariant
            i <= k <= 8,
            from + k <= data.len(),
            acc == be_value(data@.subrange(from as int, from + i)),
            acc < pow256(i as nat),
        decreases k - i,
    {
        let b: u8 = data[from + i];
        proof {
            let p = pow256(i as nat);
            lemma_pow256_le((i + 1) as nat);
            assert(acc * 256 + b < 256 * p) by (nonlinear_arith)
                requires
                    acc < p,
                    b < 256,
            ;
            let next = data@.subrange(from as int, from + i + 1);
            assert(next.drop_last() =~= data@.subrange(from as int, from + i));
        }
        acc = acc * 256 + b as u64;
        i = i + 1;
    }
    acc
}

} // verus!
