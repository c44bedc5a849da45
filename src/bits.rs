use vstd::arithmetic::div_mod::{lemma_basic_div, lemma_div_denominator, lemma_fundamental_div_mod};
use vstd::arithmetic::power2::{lemma_pow2_pos, lemma_pow2_unfold, pow2};
use vstd::prelude::*;

verus! {

/// Bit `n` of a byte buffer, numbering the bits of each byte from its least
/// significant one: bit `n` sits in byte `n / 8` at position `n % 8`.
pub open spec fn bit_at(buf: Seq<u8>, n: int) -> u8 {
    (buf[n / 8] >> ((n % 8) as u32)) & 1u8
}

/// The unsigned value of the `len` bits starting at bit `pos`, the first of
/// them being the most significant.
pub open spec fn field_value(buf: Seq<u8>, pos: int, len: nat) -> nat
    decreases len,
{
    if len == 0 {
        0
    } else {
        field_value(buf, pos, (len - 1) as nat) * 2 + bit_at(buf, pos + len - 1) as nat
    }
}

pub proof fn lemma_bit_at_le_one(buf: Seq<u8>, n: int)
    ensures
        bit_at(buf, n) <= 1,
{
    let b = buf[n / 8];
    let s = (n % 8) as u32;
    assert((b >> s) & 1u8 <= 1u8) by (bit_vector);
}

/// The bits from `pos` on, read as bits of `v` below bit `len` most
/// significant first, give back the top `m` of those `len` bits.
pub proof fn lemma_read_field(buf: Seq<u8>, pos: int, v: nat, len: nat, m: nat)
    requires
        m <= len,
        v < pow2(len),
        forall|i: int|
            0 <= i < len ==> (#[trigger] bit_at(buf, pos + i) == 1) == ((v / pow2((len - 1 - i) as nat)) % 2
                == 1),
    ensures
        field_value(buf, pos, m) == v / pow2((len - m) as nat),
    decreases m,
{
    lemma_pow2_pos((len - m) as nat);
    if m == 0 {
        lemma_basic_div(v as int, pow2(len) as int);
    } else {
        lemma_read_field(buf, pos, v, len, (m - 1) as nat);
        let d = pow2((len - m) as nat);
        let a = v / d;
        lemma_pow2_unfold((len - m + 1) as nat);
        lemma_div_denominator(v as int, d as int, 2);
        lemma_fundamental_div_mod(a as int, 2);
        lemma_bit_at_le_one(buf, pos + m - 1);
        assert(bit_at(buf, pos + m - 1) as nat == a % 2);
    }
}

} // verus!
