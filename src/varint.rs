//! The protocol's variable-length integers: seven payload bits per byte,
//! low-order group first, high bit set on every byte but the last.
use vstd::prelude::*;

use crate::error::ProtocolError;

verus! {

/// The continuation bit of a VarInt byte.
pub const CONTINUE_BIT: u8 = 0x80;

/// The most groups a VarInt may have.
pub const MAX_GROUPS: usize = 5;

/// `128` raised to the power `k`.
pub open spec fn pow128(k: nat) -> nat
    decreases k,
{
    if k == 0 {
        1
    } else {
        128 * pow128((k - 1) as nat)
    }
}

/// The bit pattern of `v` read as an unsigned 32-bit number.
pub open spec fn unsigned_bits(v: i32) -> nat {
    if v >= 0 {
        v as nat
    } else {
        (v + 0x1_0000_0000) as nat
    }
}

/// The low 32 bits of `n` read as a two's-complement integer.
pub open spec fn signed_of(n: nat) -> i32 {
    let m = n % 0x1_0000_0000;
    if m < 0x8000_0000 {
        m as i32
    } else {
        (m - 0x1_0000_0000) as i32
    }
}

/// The groups of a natural number, low-order first, continuation bit on all but the last.
pub open spec fn groups_of(n: nat) -> Seq<u8>
    decreases n,
{
    if n < 128 {
        seq![n as u8]
    } else {
        seq![(n % 128 + 128) as u8] + groups_of(n / 128)
    }
}

/// The bytes that encode `v`.
pub open spec fn varint_encoding(v: i32) -> Seq<u8> {
    groups_of(unsigned_bits(v))
}

/// The number that a run of groups stands for, ignoring continuation bits.
pub open spec fn groups_value(s: Seq<u8>) -> nat
    decreases s.len(),
{
    if s.len() == 0 {
        0
    } else {
        (s[0] % 128) as nat + 128 * groups_value(s.drop_first())
    }
}

/// Scanning from group `i`: the index of the byte that ends the VarInt, or why there is none.
pub open spec fn terminator_from(s: Seq<u8>, i: nat) -> Result<nat, ProtocolError>
    decreases 5 - i,
{
    if i >= 5 {
        Err(ProtocolError::VarIntTooLong)
    } else if i >= s.len() {
        Err(ProtocolError::UnexpectedEof)
    } else if s[i as int] < 128 {
        Ok(i)
    } else {
        terminator_from(s, i + 1)
    }
}

/// Decoding the VarInt at the front of `s`: its value and how many bytes it used.
pub open spec fn decode_spec(s: Seq<u8>) -> Result<(i32, nat), ProtocolError> {
    match terminator_from(s, 0) {
        Ok(k) => Ok((signed_of(groups_value(s.take(k + 1 as int))), k + 1)),
        Err(e) => Err(e),
    }
}

proof fn lemma_groups_value_push(s: Seq<u8>, b: u8)
    ensures
        groups_value(s.push(b)) == groups_value(s) + (b % 128) as nat * pow128(s.len()),
    decreases s.len(),
{
    if s.len() == 0 {
        assert(s.push(b).drop_first() =~= Seq::<u8>::empty());
        assert(groups_value(Seq::<u8>::empty()) == 0);
        assert(s.push(b)[0] == b);
        assert(pow128(0) == 1);
    } else {
        assert(s.push(b).drop_first() =~= s.drop_first().push(b));
        assert(s.push(b)[0] == s[0]);
        assert(pow128(s.len()) == 128 * pow128(s.drop_first().len()));
        lemma_groups_value_push(s.drop_first(), b);
        let g = groups_value(s.drop_first());
        let x = (b % 128) as nat;
        let p = pow128(s.drop_first().len());
        assert(128 * (g + x * p) == 128 * g + x * (128 * p)) by (nonlinear_arith);
    }
}

proof fn lemma_scan_skip(s: Seq<u8>, j: nat, i: nat)
    requires
        j <= i <= 5,
        i <= s.len(),
        forall|k: int| j <= k < i ==> s[k] >= 128,
    ensures
        terminator_from(s, j) == terminator_from(s, i),
    decreases i - j,
{
    if j < i {
        lemma_scan_skip(s, j + 1, i);
    }
}

proof fn lemma_groups_of_shape(n: nat)
    ensures
        groups_of(n).len() >= 1,
        groups_value(groups_of(n)) == n,
        groups_of(n)[groups_of(n).len() - 1] < 128,
        forall|k: int| 0 <= k < groups_of(n).len() - 1 ==> groups_of(n)[k] >= 128,
    decreases n,
{
    if n < 128 {
        assert(seq![n as u8].drop_first() =~= Seq::<u8>::empty());
        assert(groups_value(Seq::<u8>::empty()) == 0);
    } else {
        let t = groups_of(n / 128);
        lemma_groups_of_shape(n / 128);
        let s = seq![(n % 128 + 128) as u8] + t;
        assert(s.drop_first() =~= t);
        assert(s[0] % 128 == n % 128);
        assert forall|k: int| 0 <= k < s.len() - 1 implies s[k] >= 128 by {
            if k > 0 {
                assert(s[k] == t[k - 1]);
            }
        }
        assert(s[s.len() - 1] == t[t.len() - 1]);
    }
}

proof fn lemma_groups_of_len(n: nat, k: nat)
    requires
        k >= 1,
        n < pow128(k),
    ensures
        groups_of(n).len() <= k,
    decreases n,
{
    if n >= 128 {
        if k == 1 {
            assert(pow128(1) == 128 * pow128(0));
        }
        assert(pow128(k) == 128 * pow128((k - 1) as nat));
        lemma_groups_of_len(n / 128, (k - 1) as nat);
    }
}

/// A VarInt that decodes uses at least one and at most all of the bytes it is given.
pub proof fn lemma_decode_within(s: Seq<u8>)
    ensures
        decode_spec(s) is Ok ==> 1 <= decode_spec(s)->Ok_0.1 <= s.len(),
{
    lemma_terminator_within(s, 0);
}

proof fn lemma_terminator_within(s: Seq<u8>, i: nat)
    ensures
        terminator_from(s, i) is Ok ==> i <= terminator_from(s, i)->Ok_0 < s.len(),
    decreases 5 - i,
{
    if i < 5 && i < s.len() && s[i as int] >= 128 {
        lemma_terminator_within(s, i + 1);
    }
}

proof fn lemma_groups_value_bound(s: Seq<u8>)
    ensures
        groups_value(s) < pow128(s.len()),
    decreases s.len(),
{
    if s.len() > 0 {
        lemma_groups_value_bound(s.drop_first());
        let g = groups_value(s.drop_first());
        let p = pow128(s.drop_first().len());
        let x = (s[0] % 128) as nat;
        assert(pow128(s.len()) == 128 * p);
        assert(x + 128 * g < 128 * p) by (nonlinear_arith)
            requires
                x < 128,
                g < p,
        ;
    }
}

proof fn lemma_signed_unsigned(v: i32)
    ensures
        signed_of(unsigned_bits(v)) == v,
        unsigned_bits(v) < 0x1_0000_0000,
{
}

/// Decodes the VarInt at the front of `bytes`, returning its value and the
/// number of bytes it used. Bytes after the VarInt are not looked at.
pub fn decode_varint(bytes: &[u8]) -> (r: Result<(i32, usize), ProtocolError>)
    ensures
        match r {
            Ok((v, n)) => decode_spec(bytes@) == Ok::<(i32, nat), ProtocolError>((v, n as nat)),
            Err(e) => decode_spec(bytes@) == Err::<(i32, nat), ProtocolError>(e),
        },
{
    let mut value: u64 = 0;
    let mut scale: u64 = 1;
    let mut i: usize = 0;
    while i < MAX_GROUPS
        invariant
            i <= MAX_GROUPS,
            i <= bytes@.len(),
            forall|k: int| 0 <= k < i ==> bytes@[k] >= 128,
            value == groups_value(bytes@.take(i as int)),
            scale == pow128(i as nat),
        decreases MAX_GROUPS - i,
    {
        proof {
            lemma_scan_skip(bytes@, 0, i as nat);
            lemma_groups_value_bound(bytes@.take(i as int));
            reveal_with_fuel(pow128, 6);
        }
        if i >= bytes.len() {
            return Err(ProtocolError::UnexpectedEof);
        }
        let b = bytes[i];
        proof {
            lemma_groups_value_push(bytes@.take(i as int), b);
            assert(bytes@.take(i as int).push(b) =~= bytes@.take(i + 1));
            assert((b % 128) as nat * pow128(i as nat) <= 127 * pow128(4)) by (nonlinear_arith)
                requires
                    b % 128 <= 127,
                    pow128(i as nat) <= pow128(4),
            ;
        }
        value = value + (b % 128) as u64 * scale;
        if b < CONTINUE_BIT {
            let m: u64 = value % 0x1_0000_0000;
            let v: i32 = if m < 0x8000_0000 {
                m as i32
            } else {
                (m as i64 - 0x1_0000_0000) as i32
            };
            return Ok((v, i + 1));
        }
        scale = scale * 128;
        i = i + 1;
    }
    proof {
        lemma_scan_skip(bytes@, 0, 5);
    }
    Err(ProtocolError::VarIntTooLong)
}

/// Appends the encoding of `v` to `out`.
pub fn write_varint(out: &mut Vec<u8>, v: i32)
    ensures
        final(out)@ == old(out)@ + varint_encoding(v),
{
    let ghost start = out@;
    let mut rest: u32 = if v >= 0 {
        v as u32
    } else {
        (v as i64 + 0x1_0000_0000) as u32
    };
    while rest >= 128
        invariant
            out@ + groups_of(rest as nat) == start + varint_encoding(v),
        decreases rest,
    {
        let group: u8 = (rest % 128 + 128) as u8;
        assert(groups_of(rest as nat) == seq![group] + groups_of((rest / 128) as nat));
        assert(out@.push(group) + groups_of((rest / 128) as nat) =~= out@ + groups_of(
            rest as nat,
        ));
        out.push(group);
        rest = rest / 128;
    }
    assert(groups_of(rest as nat) == seq![rest as u8]);
    assert(out@.push(rest as u8) =~= out@ + groups_of(rest as nat));
    out.push(rest as u8);
}

/// The encoding of `v` as a fresh byte vector.
pub fn encode_varint(v: i32) -> (r: Vec<u8>)
    ensures
        r@ == varint_encoding(v),
{
    let mut out: Vec<u8> = Vec::new();
    write_varint(&mut out, v);
    assert(out@ =~= Seq::<u8>::empty() + varint_encoding(v));
    out
}

/// Encoding then decoding gives back every 32-bit integer, whatever bytes
/// follow the encoding; the decoder uses exactly the encoded bytes.
pub proof fn lemma_varint_round_trip(v: i32, rest: Seq<u8>)
    ensures
        decode_spec(varint_encoding(v) + rest) == Ok::<(i32, nat), ProtocolError>(
            (v, varint_encoding(v).len()),
        ),
{
    let n = unsigned_bits(v);
    let e = varint_encoding(v);
    let s = e + rest;
    lemma_signed_unsigned(v);
    lemma_groups_of_shape(n);
    reveal_with_fuel(pow128, 6);
    lemma_groups_of_len(n, 5);
    let k = (e.len() - 1) as nat;
    assert forall|j: int| 0 <= j < k implies s[j] >= 128 by {
        assert(s[j] == e[j]);
    }
    assert(s[k as int] == e[k as int]);
    lemma_scan_skip(s, 0, k);
    assert(terminator_from(s, k) == Ok::<nat, ProtocolError>(k));
    assert(s.take(k + 1 as int) =~= e);
}

/// Five bytes in a row with the continuation bit set are rejected as too long.
pub proof fn lemma_varint_too_long(s: Seq<u8>)
    requires
        s.len() >= 5,
        forall|j: int| 0 <= j < 5 ==> s[j] & 0x80 == 0x80,
    ensures
        decode_spec(s) == Err::<(i32, nat), ProtocolError>(ProtocolError::VarIntTooLong),
{
    assert forall|j: int| 0 <= j < 5 implies s[j] >= 128 by {
        let b = s[j];
        assert(b & 0x80 == 0x80 ==> b >= 128) by (bit_vector);
    }
    lemma_scan_skip(s, 0, 5);
}

} // verus!
