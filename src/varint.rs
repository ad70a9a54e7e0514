use vstd::prelude::*;
use crate::error::ProtoError;

verus! {

/// `128` to the power `k`.
pub open spec fn pow128(k: nat) -> nat
    decreases k,
{
    if k == 0 {
        1
    } else {
        128 * pow128((k - 1) as nat)
    }
}

/// The unsigned 32-bit pattern of a signed value (two's complement).
pub open spec fn bits_of(v: i32) -> nat {
    if v < 0 {
        (v + 0x1_0000_0000) as nat
    } else {
        v as nat
    }
}

/// The signed value of a 32-bit pattern (two's complement).
pub open spec fn signed_of(u: nat) -> i32 {
    if u >= 0x8000_0000 {
        (u - 0x1_0000_0000) as i32
    } else {
        u as i32
    }
}

/// Seven-bit groups of `u`, lowest first; every byte but the last has its
/// high bit set.
pub open spec fn groups(u: nat) -> Seq<u8>
    decreases u,
{
    if u < 128 {
        seq![u as u8]
    } else {
        seq![(u % 128 + 128) as u8] + groups(u / 128)
    }
}

/// The VarInt encoding of `v`.
pub open spec fn varint_bytes(v: i32) -> Seq<u8> {
    groups(bits_of(v))
}

/// How many bytes a decoder allowed `budget` bytes takes from `s`: up to
/// and including the first byte with a clear high bit, or `budget` bytes.
/// `None` when `s` ends first.
pub open spec fn span(s: Seq<u8>, budget: nat) -> Option<nat>
    decreases budget,
{
    if budget == 0 || s.len() == 0 {
        None
    } else if s[0] < 128 || budget == 1 {
        Some(1)
    } else {
        match span(s.drop_first(), (budget - 1) as nat) {
            Some(k) => Some(k + 1),
            None => None,
        }
    }
}

/// The seven-bit groups of the first `n` bytes of `s`, lowest first.
pub open spec fn group_sum(s: Seq<u8>, n: nat) -> nat
    decreases n,
{
    if n == 0 || s.len() == 0 {
        0
    } else {
        (s[0] % 128) as nat + 128 * group_sum(s.drop_first(), (n - 1) as nat)
    }
}

/// What decoding a VarInt at the start of `s` gives: the value and the
/// number of bytes read.
pub open spec fn varint_decode(s: Seq<u8>) -> Option<(i32, nat)> {
    match span(s, 5) {
        Some(n) => Some((signed_of(group_sum(s, n) % 0x1_0000_0000), n)),
        None => None,
    }
}

proof fn lemma_groups_len(u: nat, k: nat)
    requires
        k >= 1,
        u < pow128(k),
    ensures
        1 <= groups(u).len() <= k,
    decreases u,
{
    if u >= 128 {
        assert(k >= 2) by {
            if k == 1 {
                reveal_with_fuel(pow128, 2);
            }
        }
        let p = pow128((k - 1) as nat);
        assert(u / 128 < p) by (nonlinear_arith)
            requires
                u < 128 * p,
        ;
        lemma_groups_len(u / 128, (k - 1) as nat);
    }
}

proof fn lemma_groups_decode(u: nat, budget: nat, rest: Seq<u8>)
    requires
        budget >= 1,
        u < pow128(budget),
    ensures
        span(groups(u) + rest, budget) == Some(groups(u).len()),
        group_sum(groups(u) + rest, groups(u).len()) == u,
    decreases u,
{
    let s = groups(u) + rest;
    if u < 128 {
        assert(s[0] == u as u8);
        assert(group_sum(s.drop_first(), 0) == 0);
    } else {
        assert(budget >= 2) by {
            if budget == 1 {
                reveal_with_fuel(pow128, 2);
            }
        }
        let p = pow128((budget - 1) as nat);
        assert(u / 128 < p) by (nonlinear_arith)
            requires
                u < 128 * p,
        ;
        lemma_groups_decode(u / 128, (budget - 1) as nat, rest);
        assert(s.drop_first() =~= groups(u / 128) + rest);
        assert(s[0] == (u % 128 + 128) as u8);
        assert(u == u % 128 + 128 * (u / 128));
    }
}

/// VarInt round trip: decoding the encoding of `v` gives back `v` and
/// reads every byte of the encoding.
pub proof fn varint_round_trip(v: i32)
    ensures
        varint_decode(varint_bytes(v)) == Some((v, varint_bytes(v).len())),
{
    varint_prefix(v, Seq::empty());
    assert(varint_bytes(v) + Seq::<u8>::empty() =~= varint_bytes(v));
}

/// Decoding stops at the end of an encoded VarInt, whatever follows it.
pub proof fn varint_prefix(v: i32, rest: Seq<u8>)
    ensures
        varint_decode(varint_bytes(v) + rest) == Some((v, varint_bytes(v).len())),
{
    reveal_with_fuel(pow128, 6);
    assert(pow128(5) == 0x8_0000_0000);
    lemma_groups_decode(bits_of(v), 5, rest);
}

/// Every encoding takes between one and five bytes.
pub proof fn varint_length_bounds(v: i32)
    ensures
        1 <= varint_bytes(v).len() <= 5,
{
    reveal_with_fuel(pow128, 6);
    lemma_groups_len(bits_of(v), 5);
}

/// Decoding nothing fails.
pub proof fn varint_empty_fails()
    ensures
        varint_decode(Seq::empty()) is None,
{
}

/// Encodes `number` as a VarInt: seven bits per byte, lowest group first,
/// negative values taken as their unsigned 32-bit pattern.
pub fn varint_write(number: i32) -> (r: Vec<u8>)
    ensures
        r@ == varint_bytes(number),
        1 <= r@.len() <= 5,
{
    let mut u: u32 = if number < 0 {
        (number as i64 + 0x1_0000_0000i64) as u32
    } else {
        number as u32
    };
    let mut out: Vec<u8> = Vec::new();
    while u >= 128
        invariant
            out@ + groups(u as nat) == varint_bytes(number),
        decreases u,
    {
        let b: u8 = (u % 128 + 128) as u8;
        proof {
            assert(out@.push(b) + groups((u / 128) as nat) =~= out@ + groups(u as nat));
        }
        out.push(b);
        u = u / 128;
    }
    out.push(u as u8);
    proof {
        assert(out@ =~= varint_bytes(number));
        varint_length_bounds(number);
    }
    out
}

proof fn lemma_group_sum_step(s: Seq<u8>, i: nat)
    requires
        i < s.len(),
    ensures
        group_sum(s, i + 1) == group_sum(s, i) + (s[i as int] % 128) as nat * pow128(i),
    decreases i,
{
    let t = s.drop_first();
    if i == 0 {
        assert(group_sum(t, 0) == 0);
        assert(pow128(0) == 1);
    } else {
        lemma_group_sum_step(t, (i - 1) as nat);
        let a = group_sum(t, (i - 1) as nat);
        let d = (s[i as int] % 128) as nat;
        let p = pow128((i - 1) as nat);
        assert(t[i - 1] == s[i as int]);
        assert(group_sum(t, i) == a + d * p);
        assert(group_sum(s, i + 1) == (s[0] % 128) as nat + 128 * (a + d * p));
        assert(group_sum(s, i) == (s[0] % 128) as nat + 128 * a);
        assert(pow128(i) == 128 * p);
        assert(128 * (a + d * p) == 128 * a + d * (128 * p)) by (nonlinear_arith);
    }
}

proof fn lemma_group_sum_bound(s: Seq<u8>, i: nat)
    requires
        i <= s.len(),
    ensures
        group_sum(s, i) < pow128(i),
    decreases i,
{
    if i > 0 {
        lemma_group_sum_bound(s, (i - 1) as nat);
        lemma_group_sum_step(s, (i - 1) as nat);
        let d = (s[i - 1] % 128) as nat;
        let p = pow128((i - 1) as nat);
        let g = group_sum(s, (i - 1) as nat);
        assert(g + d * p < 128 * p) by (nonlinear_arith)
            requires
                g < p,
                d <= 127,
        ;
    }
}

proof fn lemma_span_stop(s: Seq<u8>, budget: nat, i: nat)
    requires
        i < s.len(),
        i < budget,
        forall|j: int| 0 <= j < i ==> s[j] >= 128,
        s[i as int] < 128 || i + 1 == budget,
    ensures
        span(s, budget) == Some(i + 1),
    decreases i,
{
    if i > 0 {
        lemma_span_stop(s.drop_first(), (budget - 1) as nat, (i - 1) as nat);
    }
}

proof fn lemma_span_short(s: Seq<u8>, budget: nat)
    requires
        s.len() < budget,
        forall|j: int| 0 <= j < s.len() ==> s[j] >= 128,
    ensures
        span(s, budget) is None,
    decreases s.len(),
{
    if s.len() > 0 {
        lemma_span_short(s.drop_first(), (budget - 1) as nat);
    }
}

/// Decodes the VarInt at the start of `data`, giving its value and the
/// number of bytes read. Fails when `data` is empty or ends before the
/// VarInt does.
pub fn varint_read(data: &Vec<u8>) -> (r: Result<(i32, usize), ProtoError>)
    ensures
        match varint_decode(data@) {
            Some((v, n)) => r matches Ok((w, m)) && w == v && m == n,
            None => r == Err::<(i32, usize), ProtoError>(ProtoError::FramingError),
        },
        r matches Ok((_, n)) ==> 1 <= n <= 5 && n <= data@.len(),
{
    let mut acc: u64 = 0;
    let mut mult: u64 = 1;
    let mut i: usize = 0;
    loop
        invariant
            i < 5,
            i <= data@.len(),
            mult == pow128(i as nat),
            acc == group_sum(data@, i as nat),
            forall|j: int| 0 <= j < i ==> data@[j] >= 128,
        decreases 5 - i,
    {
        if i >= data.len() {
            proof {
                lemma_span_short(data@, 5);
            }
            return Err(ProtoError::FramingError);
        }
        let b: u8 = data[i];
        proof {
            lemma_group_sum_step(data@, i as nat);
            lemma_group_sum_bound(data@, i as nat);
            reveal_with_fuel(pow128, 5);
            assert(mult <= 0x1000_0000) by {
                if i == 0 {
                } else if i == 1 {
                } else if i == 2 {
                } else if i == 3 {
                } else {
                }
            }
            let d = (b % 128) as nat;
            assert(acc + d * mult < 0x8_0000_0000) by (nonlinear_arith)
                requires
                    acc < mult,
                    d <= 127,
                    mult <= 0x1000_0000,
            ;
        }
        acc = acc + (b % 128) as u64 * mult;
        i = i + 1;
        if b < 128 || i == 5 {
            proof {
                lemma_span_stop(data@, 5, (i - 1) as nat);
            }
            let low: u64 = acc % 0x1_0000_0000;
            let v: i32 = if low >= 0x8000_0000 {
                (low as i64 - 0x1_0000_0000i64) as i32
            } else {
                low as i32
            };
            return Ok((v, i));
        }
        mult = mult * 128;
    }
}

/// Whether a reader that has `prefix` of a VarInt must read another byte:
/// every byte so far has its high bit set and fewer than five were read.
pub fn varint_needs_more(prefix: &Vec<u8>) -> (r: bool)
    ensures
        r == (span(prefix@, 5) is None && prefix@.len() < 5),
{
    if prefix.len() >= 5 {
        return false;
    }
    let mut i: usize = 0;
    while i < prefix.len()
        invariant
            i <= prefix@.len() < 5,
            forall|j: int| 0 <= j < i ==> prefix@[j] >= 128,
        decreases prefix@.len() - i,
    {
        if prefix[i] < 128 {
            proof {
                lemma_span_stop(prefix@, 5, i as nat);
            }
            return false;
        }
        i = i + 1;
    }
    proof {
        lemma_span_short(prefix@, 5);
    }
    true
}

} // verus!
