//! Unpacking of quantized integers packed side by side in one stored word.

use vstd::prelude::*;
use vstd::arithmetic::div_mod::{
    lemma_fundamental_div_mod_converse, lemma_hoist_over_denominator, lemma_mod_breakdown,
    lemma_mod_multiples_vanish, lemma_mod_pos_bound, lemma_mod_sub_multiples_vanish,
    lemma_small_mod,
};
use vstd::arithmetic::power2::{
    pow2, lemma2_to64, lemma2_to64_rest, lemma_pow2_adds, lemma_pow2_pos,
    lemma_pow2_strictly_increases,
};
use vstd::bits::{lemma_u32_shl_is_mul, lemma_u32_shr_is_div, lemma_u32_low_bits_mask_is_mod, low_bits_mask};

use crate::scheme::{QuantStore, QuantValue};

verus! {

/// The `k`-th `bits`-wide field of `word`, counting from the least significant bits.
pub open spec fn field(word: nat, bits: nat, k: nat) -> nat {
    (word / pow2(k * bits)) % pow2(bits)
}

/// The two's complement reading of the `bits`-wide field `raw`.
pub open spec fn twos_complement(raw: nat, bits: nat) -> int {
    if raw >= pow2((bits - 1) as nat) {
        raw - pow2(bits)
    } else {
        raw as int
    }
}

/// The `count` signed values packed in `word`, `bits` bits each, least significant first.
pub open spec fn unpacked(word: nat, bits: nat, count: nat) -> Seq<int> {
    Seq::new(count, |k: int| twos_complement(field(word, bits, k as nat), bits))
}

/// The word that holds the two's complement encodings of `values` in `bits`-wide fields,
/// the first value in the least significant bits.
pub open spec fn packed(values: Seq<int>, bits: nat) -> int
    decreases values.len(),
{
    if values.len() == 0 {
        0
    } else {
        packed(values.drop_last(), bits) + (values.last() % (pow2(bits) as int)) * pow2(
            ((values.len() - 1) * bits) as nat,
        )
    }
}

/// Number of values of type `quant` that one stored element of `store` holds.
pub open spec fn quants_per_element(quant: QuantValue, store: QuantStore) -> nat {
    store.bits(quant) / quant.bits()
}

/// A stored element fits in 32 bits and is filled exactly by its values.
pub proof fn lemma_element_layout(quant: QuantValue, store: QuantStore)
    ensures
        store.bits(quant) <= 32,
        quants_per_element(quant, store) * quant.bits() == store.bits(quant),
        1 <= quants_per_element(quant, store) <= 16,
        quant.bits() == 2 || quant.bits() == 4 || quant.bits() == 8,
{
    let b = quant.bits();
    assert(b == 2 || b == 4 || b == 8);
    match store {
        QuantStore::Native => {
            assert(store.bits(quant) == b);
            assert(quants_per_element(quant, store) == 1) by {
                if b == 2 {
                } else if b == 4 {
                } else {
                }
            }
        },
        QuantStore::PackedNative(_) => {
            if quant == QuantValue::E2M1 {
                assert(store.bits(quant) == 8 && b == 4);
            } else {
                assert(quant.packing() == 1);
                assert(store.bits(quant) == b);
                assert(quants_per_element(quant, store) == 1) by {
                    if b == 2 {
                    } else if b == 4 {
                    } else {
                    }
                }
            }
        },
        QuantStore::PackedU32(_) => {
            assert(store.bits(quant) == 32);
        },
    }
}

/// `out` holds exactly the signed values packed in `word` for values of type `quant`
/// stored as `store`.
pub open spec fn unpacks_to(out: Seq<i32>, word: u32, quant: QuantValue, store: QuantStore) -> bool {
    &&& out.len() == quants_per_element(quant, store)
    &&& forall|k: int|
        0 <= k < out.len() ==> #[trigger] out[k] as int == twos_complement(
            field(word as nat, quant.bits(), k as nat),
            quant.bits(),
        )
}

/// Unpack a quantized integer into its signed values, according to the quantization value type
/// and the way it is stored: `store.bits(quant) / quant.bits()` fields of `quant.bits()` bits,
/// the first in the least significant bits, each read in two's complement.
pub fn unpack_q(value: u32, quant: QuantValue, store: QuantStore) -> (output: Vec<i32>)
    ensures
        unpacks_to(output@, value, quant, store),
{
    proof {
        lemma_element_layout(quant, store);
        lemma2_to64();
    }
    let size_quant = quant.size_bits();
    let size_store = store.size_bits(&quant);
    let num_quant = size_store / size_quant;
    let n: u32 = size_quant as u32;

    proof {
        lemma_u32_shl_is_mul(1u32, n);
        lemma_u32_shl_is_mul(1u32, (n - 1) as u32);
    }
    let two_pow_n_u32: u32 = 1u32 << n;
    let mask: u32 = two_pow_n_u32 - 1;
    let sign_bit: u32 = 1u32 << (n - 1);
    let two_pow_n: i32 = two_pow_n_u32 as i32;
    assert(mask as nat == low_bits_mask(n as nat));

    let mut output: Vec<i32> = Vec::new();
    let mut position: usize = 0;
    while position < num_quant
        invariant
            position <= num_quant,
            num_quant == quants_per_element(quant, store),
            num_quant * quant.bits() == store.bits(quant),
            store.bits(quant) <= 32,
            n as nat == quant.bits(),
            n == 2 || n == 4 || n == 8,
            pow2(n as nat) <= 256,
            mask as nat == low_bits_mask(n as nat),
            sign_bit as nat == pow2((n - 1) as nat),
            two_pow_n as int == pow2(n as nat),
            output@.len() == position,
            forall|k: int|
                0 <= k < position ==> output@[k] as int == twos_complement(
                    field(value as nat, quant.bits(), k as nat),
                    quant.bits(),
                ),
        decreases num_quant - position,
    {
        assert(position * n + n <= 32) by (nonlinear_arith)
            requires
                position < num_quant,
                num_quant * n <= 32,
        ;
        let offset: u32 = (position as u32) * n;
        let shifted = value >> offset;
        let raw = shifted & mask;
        proof {
            lemma_u32_shr_is_div(value, offset);
            lemma_u32_low_bits_mask_is_mod(shifted, n as nat);
            lemma_pow2_pos(n as nat);
            lemma_mod_pos_bound(shifted as int, pow2(n as nat) as int);
            assert(raw as nat == field(value as nat, quant.bits(), position as nat));
        }
        let raw_i32 = raw as i32;
        let is_negative: i32 = if raw >= sign_bit {
            1
        } else {
            0
        };
        let signed_value = raw_i32 - is_negative * two_pow_n;
        output.push(signed_value);
        position += 1;
    }
    output
}

/// Every unpacked value lies in the range of a `bits`-wide two's complement integer.
pub proof fn lemma_unpacked_range(word: nat, bits: nat, count: nat, k: int)
    requires
        bits >= 1,
        0 <= k < count,
    ensures
        -pow2((bits - 1) as nat) <= unpacked(word, bits, count)[k] < pow2((bits - 1) as nat),
{
    let b1 = (bits - 1) as nat;
    lemma_pow2_adds(b1, 1);
    lemma2_to64();
    assert(pow2(bits) == pow2(b1) * 2) by {
        assert(b1 + 1 == bits);
    }
    lemma_pow2_pos(bits);
    lemma_pow2_pos(k as nat * bits);
    let q: nat = word / pow2(k as nat * bits);
    lemma_mod_pos_bound(q as int, pow2(bits) as int);
}

/// A two's complement reading keeps the field it was read from, modulo `2^bits`.
proof fn lemma_twos_complement_mod(raw: nat, bits: nat)
    requires
        bits >= 1,
        raw < pow2(bits),
    ensures
        twos_complement(raw, bits) % (pow2(bits) as int) == raw,
{
    lemma_pow2_pos(bits);
    if raw >= pow2((bits - 1) as nat) {
        lemma_mod_sub_multiples_vanish(raw as int, pow2(bits) as int);
    }
    lemma_small_mod(raw, pow2(bits));
}

/// Unpacking loses nothing: packing the unpacked values again rebuilds the low
/// `count * bits` bits of the word.
pub proof fn lemma_unpack_repack(word: nat, bits: nat, count: nat)
    requires
        bits >= 1,
    ensures
        packed(unpacked(word, bits, count), bits) == word % pow2(count * bits),
    decreases count,
{
    lemma_pow2_pos(bits);
    if count == 0 {
        lemma2_to64();
        assert(unpacked(word, bits, 0).len() == 0);
    } else {
        let c = (count - 1) as nat;
        let s = unpacked(word, bits, count);
        assert(s.drop_last() =~= unpacked(word, bits, c));
        lemma_unpack_repack(word, bits, c);
        let raw = field(word, bits, c);
        lemma_pow2_pos(c * bits);
        lemma_mod_pos_bound((word / pow2(c * bits)) as int, pow2(bits) as int);
        lemma_twos_complement_mod(raw, bits);
        assert(s.last() == twos_complement(raw, bits));
        assert(c * bits + bits == count * bits) by (nonlinear_arith)
            requires
                c + 1 == count,
        ;
        lemma_pow2_adds(c * bits, bits);
        lemma_mod_breakdown(word as int, pow2(c * bits) as int, pow2(bits) as int);
        assert(packed(s, bits) == word % pow2(c * bits) + raw * pow2(c * bits));
    }
}

/// A word of a 32-bit packed store is exactly the packing of the values unpacked from it.
pub proof fn lemma_packed_u32_lossless(word: u32, quant: QuantValue, dim: usize)
    ensures
        packed(
            unpacked(word as nat, quant.bits(), quants_per_element(quant, QuantStore::PackedU32(dim))),
            quant.bits(),
        ) == word as int,
{
    let store = QuantStore::PackedU32(dim);
    lemma_element_layout(quant, store);
    lemma_unpack_repack(word as nat, quant.bits(), quants_per_element(quant, store));
    lemma2_to64();
    lemma2_to64_rest();
    lemma_small_mod(word as nat, pow2(32));
}

/// `v` fits in a `bits`-wide two's complement field.
pub open spec fn fits_signed(v: int, bits: nat) -> bool {
    -pow2((bits - 1) as nat) <= v < pow2((bits - 1) as nat)
}

/// Packing puts each value, modulo `2^bits`, in its own field, and the word has no other bits.
pub proof fn lemma_packed_fields(values: Seq<int>, bits: nat)
    requires
        bits >= 1,
    ensures
        0 <= packed(values, bits) < pow2(values.len() * bits),
        forall|k: int|
            0 <= k < values.len() ==> #[trigger] field(packed(values, bits) as nat, bits, k as nat)
                == values[k] % (pow2(bits) as int),
    decreases values.len(),
{
    lemma_pow2_pos(bits);
    if values.len() == 0 {
        lemma2_to64();
    } else {
        let n = (values.len() - 1) as nat;
        let rest = values.drop_last();
        lemma_packed_fields(rest, bits);
        let p = packed(rest, bits);
        let m = pow2(bits) as int;
        let d = values.last() % m;
        vstd::arithmetic::div_mod::lemma_mod_bound(values.last(), m);
        let big = pow2(n * bits) as int;
        lemma_pow2_pos(n * bits);
        assert(packed(values, bits) == p + d * big);
        assert(n * bits + bits == values.len() * bits) by (nonlinear_arith)
            requires
                n + 1 == values.len(),
        ;
        lemma_pow2_adds(n * bits, bits);
        assert(p + d * big < m * big) by (nonlinear_arith)
            requires
                0 <= p < big,
                0 <= d < m,
        ;
        assert(0 <= p + d * big) by (nonlinear_arith)
            requires
                0 <= p,
                0 <= d,
                0 < big,
        ;
        assert(big * m == pow2(values.len() * bits));
        let w = (p + d * big) as nat;
        assert forall|k: int| 0 <= k < values.len() implies #[trigger] field(w, bits, k as nat)
            == values[k] % m by {
            if k == n {
                lemma_fundamental_div_mod_converse(w as int, big, d, p);
                lemma_small_mod(d as nat, m as nat);
            } else {
                let kb = (k * bits) as nat;
                let rb = ((n - k - 1) * bits) as nat;
                assert(kb + rb + bits == n * bits) by (nonlinear_arith)
                    requires
                        kb == k * bits,
                        rb == (n - k - 1) * bits,
                        0 <= k < n,
                ;
                lemma_pow2_adds(kb, rb);
                lemma_pow2_adds(kb + rb, bits);
                lemma_pow2_adds(rb, bits);
                let kk = pow2(kb) as int;
                let mm = pow2(rb) as int * m;
                lemma_pow2_pos(kb);
                assert(big == kk * mm) by (nonlinear_arith)
                    requires
                        big == pow2(kb + rb) * m,
                        pow2(kb + rb) == kk * pow2(rb),
                        mm == pow2(rb) * m,
                ;
                assert(d * mm * kk == d * big) by (nonlinear_arith)
                    requires
                        big == kk * mm,
                ;
                lemma_hoist_over_denominator(p, d * mm, kk as nat);
                assert(w as int / kk == p / kk + d * mm);
                assert(d * mm == m * (d * pow2(rb))) by (nonlinear_arith)
                    requires
                        mm == pow2(rb) * m,
                ;
                lemma_mod_multiples_vanish(d * pow2(rb), p / kk, m);
                assert(field(p as nat, bits, k as nat) == rest[k] % m);
            }
        }
    }
}

/// The two's complement reading of a value taken modulo `2^bits` gives back the value,
/// when it fits in `bits` bits.
proof fn lemma_twos_complement_of_mod(v: int, bits: nat)
    requires
        bits >= 1,
        fits_signed(v, bits),
    ensures
        twos_complement((v % (pow2(bits) as int)) as nat, bits) == v,
{
    let h = pow2((bits - 1) as nat) as int;
    let m = pow2(bits) as int;
    lemma_pow2_adds((bits - 1) as nat, 1);
    lemma2_to64();
    assert(m == h * 2) by {
        assert((bits - 1) as nat + 1 == bits);
    }
    if v >= 0 {
        lemma_small_mod(v as nat, m as nat);
    } else {
        lemma_fundamental_div_mod_converse(v, m, -1, v + m);
    }
}

/// Unpacking inverts packing: values that fit in `bits` bits, packed side by side with the
/// first in the least significant bits, unpack to themselves.
pub proof fn lemma_pack_then_unpack(values: Seq<int>, bits: nat)
    requires
        bits >= 1,
        forall|k: int| 0 <= k < values.len() ==> fits_signed(#[trigger] values[k], bits),
    ensures
        0 <= packed(values, bits) < pow2(values.len() * bits),
        unpacked(packed(values, bits) as nat, bits, values.len()) == values,
{
    lemma_packed_fields(values, bits);
    let w = packed(values, bits) as nat;
    assert forall|k: int| 0 <= k < values.len() implies #[trigger] unpacked(
        w,
        bits,
        values.len(),
    )[k] == values[k] by {
        assert(field(w, bits, k as nat) == values[k] % (pow2(bits) as int));
        lemma_twos_complement_of_mod(values[k], bits);
    }
    assert(unpacked(w, bits, values.len()) =~= values);
}

/// `unpack_q` inverts packing: a word holding, side by side and first lowest, one value per
/// field of the element, each fitting its field, unpacks to exactly those values.
pub proof fn lemma_unpack_q_inverts_packing(
    values: Seq<int>,
    quant: QuantValue,
    store: QuantStore,
    out: Seq<i32>,
)
    requires
        values.len() == quants_per_element(quant, store),
        forall|k: int| 0 <= k < values.len() ==> fits_signed(#[trigger] values[k], quant.bits()),
        unpacks_to(out, packed(values, quant.bits()) as u32, quant, store),
    ensures
        0 <= packed(values, quant.bits()) <= u32::MAX,
        out.len() == values.len(),
        forall|k: int| 0 <= k < values.len() ==> out[k] as int == #[trigger] values[k],
{
    lemma_element_layout(quant, store);
    lemma_pack_then_unpack(values, quant.bits());
    lemma2_to64();
    let used = values.len() * quant.bits();
    assert(used == store.bits(quant));
    if used < 32 {
        lemma_pow2_strictly_increases(used, 32);
    }
    let w = packed(values, quant.bits());
    assert(0 <= w <= u32::MAX);
    assert((w as u32) as int == w);
    assert forall|k: int| 0 <= k < values.len() implies out[k] as int == #[trigger] values[k] by {
        assert(unpacked(w as nat, quant.bits(), values.len())[k] == values[k]);
    }
}

} // verus!
