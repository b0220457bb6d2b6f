//! Arithmetic in GF(2^8) with the primitive polynomial x^8 + x^4 + x^3 + x^2 + 1 (0x11D),
//! together with polynomial evaluation over that field.

use vstd::prelude::*;

verus! {

/// Multiplication by x (the generator alpha = 2), reduced modulo 0x11D.
pub open spec fn xtime(a: u8) -> u8 {
    if a & 0x80u8 == 0 {
        a << 1u8
    } else {
        (a << 1u8) ^ 0x1Du8
    }
}

/// `a` when bit `k` of `b` is set, else 0.
pub open spec fn select_bit(a: u8, b: u8, k: u8) -> u8 {
    if (b >> k) & 1u8 == 1u8 {
        a
    } else {
        0u8
    }
}

/// Field multiplication: the carry-less product of `a` and `b` reduced modulo 0x11D.
#[verifier::opaque]
pub open spec fn gf_mul(a: u8, b: u8) -> u8 {
    let a1 = xtime(a);
    let a2 = xtime(a1);
    let a3 = xtime(a2);
    let a4 = xtime(a3);
    let a5 = xtime(a4);
    let a6 = xtime(a5);
    let a7 = xtime(a6);
    select_bit(a, b, 0) ^ select_bit(a1, b, 1) ^ select_bit(a2, b, 2) ^ select_bit(a3, b, 3)
        ^ select_bit(a4, b, 4) ^ select_bit(a5, b, 5) ^ select_bit(a6, b, 6) ^ select_bit(a7, b, 7)
}

/// Multiplicative inverse of a nonzero element (0 for 0), tabulated.
pub open spec fn gf_inv(a: u8) -> u8 {
    match a {
        0u8 => 0u8,
        1u8 => 1u8,
        2u8 => 142u8,
        3u8 => 244u8,
        4u8 => 71u8,
        5u8 => 167u8,
        6u8 => 122u8,
        7u8 => 186u8,
        8u8 => 173u8,
        9u8 => 157u8,
        10u8 => 221u8,
        11u8 => 152u8,
        12u8 => 61u8,
        13u8 => 170u8,
        14u8 => 93u8,
        15u8 => 150u8,
        16u8 => 216u8,
        17u8 => 114u8,
        18u8 => 192u8,
        19u8 => 88u8,
        20u8 => 224u8,
        21u8 => 62u8,
        22u8 => 76u8,
        23u8 => 102u8,
        24u8 => 144u8,
        25u8 => 222u8,
        26u8 => 85u8,
        27u8 => 128u8,
        28u8 => 160u8,
        29u8 => 131u8,
        30u8 => 75u8,
        31u8 => 42u8,
        32u8 => 108u8,
        33u8 => 237u8,
        34u8 => 57u8,
        35u8 => 81u8,
        36u8 => 96u8,
        37u8 => 86u8,
        38u8 => 44u8,
        39u8 => 138u8,
        40u8 => 112u8,
        41u8 => 208u8,
        42u8 => 31u8,
        43u8 => 74u8,
        44u8 => 38u8,
        45u8 => 139u8,
        46u8 => 51u8,
        47u8 => 110u8,
        48u8 => 72u8,
        49u8 => 137u8,
        50u8 => 111u8,
        51u8 => 46u8,
        52u8 => 164u8,
        53u8 => 195u8,
        54u8 => 64u8,
        55u8 => 94u8,
        56u8 => 80u8,
        57u8 => 34u8,
        58u8 => 207u8,
        59u8 => 169u8,
        60u8 => 171u8,
        61u8 => 12u8,
        62u8 => 21u8,
        63u8 => 225u8,
        64u8 => 54u8,
        65u8 => 95u8,
        66u8 => 248u8,
        67u8 => 213u8,
        68u8 => 146u8,
        69u8 => 78u8,
        70u8 => 166u8,
        71u8 => 4u8,
        72u8 => 48u8,
        73u8 => 136u8,
        74u8 => 43u8,
        75u8 => 30u8,
        76u8 => 22u8,
        77u8 => 103u8,
        78u8 => 69u8,
        79u8 => 147u8,
        80u8 => 56u8,
        81u8 => 35u8,
        82u8 => 104u8,
        83u8 => 140u8,
        84u8 => 129u8,
        85u8 => 26u8,
        86u8 => 37u8,
        87u8 => 97u8,
        88u8 => 19u8,
        89u8 => 193u8,
        90u8 => 203u8,
        91u8 => 99u8,
        92u8 => 151u8,
        93u8 => 14u8,
        94u8 => 55u8,
        95u8 => 65u8,
        96u8 => 36u8,
        97u8 => 87u8,
        98u8 => 202u8,
        99u8 => 91u8,
        100u8 => 185u8,
        101u8 => 196u8,
        102u8 => 23u8,
        103u8 => 77u8,
        104u8 => 82u8,
        105u8 => 141u8,
        106u8 => 239u8,
        107u8 => 179u8,
        108u8 => 32u8,
        109u8 => 236u8,
        110u8 => 47u8,
        111u8 => 50u8,
        112u8 => 40u8,
        113u8 => 209u8,
        114u8 => 17u8,
        115u8 => 217u8,
        116u8 => 233u8,
        117u8 => 251u8,
        118u8 => 218u8,
        119u8 => 121u8,
        120u8 => 219u8,
        121u8 => 119u8,
        122u8 => 6u8,
        123u8 => 187u8,
        124u8 => 132u8,
        125u8 => 205u8,
        126u8 => 254u8,
        127u8 => 252u8,
        128u8 => 27u8,
        129u8 => 84u8,
        130u8 => 161u8,
        131u8 => 29u8,
        132u8 => 124u8,
        133u8 => 204u8,
        134u8 => 228u8,
        135u8 => 176u8,
        136u8 => 73u8,
        137u8 => 49u8,
        138u8 => 39u8,
        139u8 => 45u8,
        140u8 => 83u8,
        141u8 => 105u8,
        142u8 => 2u8,
        143u8 => 245u8,
        144u8 => 24u8,
        145u8 => 223u8,
        146u8 => 68u8,
        147u8 => 79u8,
        148u8 => 155u8,
        149u8 => 188u8,
        150u8 => 15u8,
        151u8 => 92u8,
        152u8 => 11u8,
        153u8 => 220u8,
        154u8 => 189u8,
        155u8 => 148u8,
        156u8 => 172u8,
        157u8 => 9u8,
        158u8 => 199u8,
        159u8 => 162u8,
        160u8 => 28u8,
        161u8 => 130u8,
        162u8 => 159u8,
        163u8 => 198u8,
        164u8 => 52u8,
        165u8 => 194u8,
        166u8 => 70u8,
        167u8 => 5u8,
        168u8 => 206u8,
        169u8 => 59u8,
        170u8 => 13u8,
        171u8 => 60u8,
        172u8 => 156u8,
        173u8 => 8u8,
        174u8 => 190u8,
        175u8 => 183u8,
        176u8 => 135u8,
        177u8 => 229u8,
        178u8 => 238u8,
        179u8 => 107u8,
        180u8 => 235u8,
        181u8 => 242u8,
        182u8 => 191u8,
        183u8 => 175u8,
        184u8 => 197u8,
        185u8 => 100u8,
        186u8 => 7u8,
        187u8 => 123u8,
        188u8 => 149u8,
        189u8 => 154u8,
        190u8 => 174u8,
        191u8 => 182u8,
        192u8 => 18u8,
        193u8 => 89u8,
        194u8 => 165u8,
        195u8 => 53u8,
        196u8 => 101u8,
        197u8 => 184u8,
        198u8 => 163u8,
        199u8 => 158u8,
        200u8 => 210u8,
        201u8 => 247u8,
        202u8 => 98u8,
        203u8 => 90u8,
        204u8 => 133u8,
        205u8 => 125u8,
        206u8 => 168u8,
        207u8 => 58u8,
        208u8 => 41u8,
        209u8 => 113u8,
        210u8 => 200u8,
        211u8 => 246u8,
        212u8 => 249u8,
        213u8 => 67u8,
        214u8 => 215u8,
        215u8 => 214u8,
        216u8 => 16u8,
        217u8 => 115u8,
        218u8 => 118u8,
        219u8 => 120u8,
        220u8 => 153u8,
        221u8 => 10u8,
        222u8 => 25u8,
        223u8 => 145u8,
        224u8 => 20u8,
        225u8 => 63u8,
        226u8 => 230u8,
        227u8 => 240u8,
        228u8 => 134u8,
        229u8 => 177u8,
        230u8 => 226u8,
        231u8 => 241u8,
        232u8 => 250u8,
        233u8 => 116u8,
        234u8 => 243u8,
        235u8 => 180u8,
        236u8 => 109u8,
        237u8 => 33u8,
        238u8 => 178u8,
        239u8 => 106u8,
        240u8 => 227u8,
        241u8 => 231u8,
        242u8 => 181u8,
        243u8 => 234u8,
        244u8 => 3u8,
        245u8 => 143u8,
        246u8 => 211u8,
        247u8 => 201u8,
        248u8 => 66u8,
        249u8 => 212u8,
        250u8 => 232u8,
        251u8 => 117u8,
        252u8 => 127u8,
        253u8 => 255u8,
        254u8 => 126u8,
        _ => 253u8,
    }
}

/// `x` raised to the power `n` in the field.
pub open spec fn gf_pow(x: u8, n: nat) -> u8
    decreases n,
{
    if n == 0 {
        1u8
    } else {
        gf_mul(gf_pow(x, (n - 1) as nat), x)
    }
}

/// alpha^n for the generator alpha = 2.
pub open spec fn alpha_pow(n: nat) -> u8 {
    gf_pow(2u8, n)
}

/// Horner evaluation of a polynomial whose first coefficient is the highest power.
pub open spec fn peval(p: Seq<u8>, x: u8) -> u8
    decreases p.len(),
{
    if p.len() == 0 {
        0u8
    } else {
        gf_mul(peval(p.drop_last(), x), x) ^ p.last()
    }
}

proof fn lemma_xtime_linear(x: u8, y: u8)
    ensures
        xtime(x ^ y) == xtime(x) ^ xtime(y),
{
    assert(xtime(x ^ y) == xtime(x) ^ xtime(y)) by (bit_vector);
}

proof fn lemma_select_bit_facts(x: u8, y: u8, b: u8, c: u8, k: u8)
    requires
        k < 8,
    ensures
        xtime(select_bit(x, b, k)) == select_bit(xtime(x), b, k),
        select_bit(x ^ y, b, k) == select_bit(x, b, k) ^ select_bit(y, b, k),
        select_bit(x, b ^ c, k) == select_bit(x, b, k) ^ select_bit(x, c, k),
{
    assert(xtime(0u8) == 0u8) by (bit_vector);
    assert(0u8 ^ 0u8 == 0u8) by (bit_vector);
    assert(select_bit(x, b ^ c, k) == select_bit(x, b, k) ^ select_bit(x, c, k)) by (bit_vector);
}

proof fn lemma_xor8_rearrange(
    u0: u8, u1: u8, u2: u8, u3: u8, u4: u8, u5: u8, u6: u8, u7: u8,
    v0: u8, v1: u8, v2: u8, v3: u8, v4: u8, v5: u8, v6: u8, v7: u8,
)
    ensures
        (u0 ^ v0) ^ (u1 ^ v1) ^ (u2 ^ v2) ^ (u3 ^ v3) ^ (u4 ^ v4) ^ (u5 ^ v5) ^ (u6 ^ v6) ^ (u7 ^ v7)
            == (u0 ^ u1 ^ u2 ^ u3 ^ u4 ^ u5 ^ u6 ^ u7) ^ (v0 ^ v1 ^ v2 ^ v3 ^ v4 ^ v5 ^ v6 ^ v7),
{
    assert((u0 ^ v0) ^ (u1 ^ v1) ^ (u2 ^ v2) ^ (u3 ^ v3) ^ (u4 ^ v4) ^ (u5 ^ v5) ^ (u6 ^ v6) ^ (u7
        ^ v7) == (u0 ^ u1 ^ u2 ^ u3 ^ u4 ^ u5 ^ u6 ^ u7) ^ (v0 ^ v1 ^ v2 ^ v3 ^ v4 ^ v5 ^ v6 ^ v7))
        by (bit_vector);
}

proof fn lemma_xtime_of_xor8(u0: u8, u1: u8, u2: u8, u3: u8, u4: u8, u5: u8, u6: u8, u7: u8)
    ensures
        xtime(u0 ^ u1 ^ u2 ^ u3 ^ u4 ^ u5 ^ u6 ^ u7) == xtime(u0) ^ xtime(u1) ^ xtime(u2) ^ xtime(u3)
            ^ xtime(u4) ^ xtime(u5) ^ xtime(u6) ^ xtime(u7),
{
    lemma_xtime_linear(u0 ^ u1 ^ u2 ^ u3 ^ u4 ^ u5 ^ u6, u7);
    lemma_xtime_linear(u0 ^ u1 ^ u2 ^ u3 ^ u4 ^ u5, u6);
    lemma_xtime_linear(u0 ^ u1 ^ u2 ^ u3 ^ u4, u5);
    lemma_xtime_linear(u0 ^ u1 ^ u2 ^ u3, u4);
    lemma_xtime_linear(u0 ^ u1 ^ u2, u3);
    lemma_xtime_linear(u0 ^ u1, u2);
    lemma_xtime_linear(u0, u1);
}

/// Multiplying the first factor by alpha commutes with the product.
proof fn lemma_mul_xtime(a: u8, b: u8)
    ensures
        gf_mul(xtime(a), b) == xtime(gf_mul(a, b)),
{
    reveal(gf_mul);
    let a1 = xtime(a);
    let a2 = xtime(a1);
    let a3 = xtime(a2);
    let a4 = xtime(a3);
    let a5 = xtime(a4);
    let a6 = xtime(a5);
    let a7 = xtime(a6);
    lemma_xtime_of_xor8(select_bit(a, b, 0), select_bit(a1, b, 1), select_bit(a2, b, 2),
        select_bit(a3, b, 3), select_bit(a4, b, 4), select_bit(a5, b, 5), select_bit(a6, b, 6),
        select_bit(a7, b, 7));
    lemma_select_bit_facts(a, a, b, b, 0);
    lemma_select_bit_facts(a1, a, b, b, 1);
    lemma_select_bit_facts(a2, a, b, b, 2);
    lemma_select_bit_facts(a3, a, b, b, 3);
    lemma_select_bit_facts(a4, a, b, b, 4);
    lemma_select_bit_facts(a5, a, b, b, 5);
    lemma_select_bit_facts(a6, a, b, b, 6);
    lemma_select_bit_facts(a7, a, b, b, 7);
}

proof fn lemma_mul_distributive_right(a: u8, b: u8, c: u8)
    ensures
        gf_mul(a, b ^ c) == gf_mul(a, b) ^ gf_mul(a, c),
{
    reveal(gf_mul);
    let a1 = xtime(a);
    let a2 = xtime(a1);
    let a3 = xtime(a2);
    let a4 = xtime(a3);
    let a5 = xtime(a4);
    let a6 = xtime(a5);
    let a7 = xtime(a6);
    lemma_select_bit_facts(a, a, b, c, 0);
    lemma_select_bit_facts(a1, a, b, c, 1);
    lemma_select_bit_facts(a2, a, b, c, 2);
    lemma_select_bit_facts(a3, a, b, c, 3);
    lemma_select_bit_facts(a4, a, b, c, 4);
    lemma_select_bit_facts(a5, a, b, c, 5);
    lemma_select_bit_facts(a6, a, b, c, 6);
    lemma_select_bit_facts(a7, a, b, c, 7);
    lemma_xor8_rearrange(select_bit(a, b, 0), select_bit(a1, b, 1), select_bit(a2, b, 2),
        select_bit(a3, b, 3), select_bit(a4, b, 4), select_bit(a5, b, 5), select_bit(a6, b, 6),
        select_bit(a7, b, 7), select_bit(a, c, 0), select_bit(a1, c, 1), select_bit(a2, c, 2),
        select_bit(a3, c, 3), select_bit(a4, c, 4), select_bit(a5, c, 5), select_bit(a6, c, 6),
        select_bit(a7, c, 7));
}

proof fn lemma_mul_distributive_left(x: u8, y: u8, c: u8)
    ensures
        gf_mul(x ^ y, c) == gf_mul(x, c) ^ gf_mul(y, c),
{
    reveal(gf_mul);
    let x1 = xtime(x);
    let x2 = xtime(x1);
    let x3 = xtime(x2);
    let x4 = xtime(x3);
    let x5 = xtime(x4);
    let x6 = xtime(x5);
    let x7 = xtime(x6);
    let y1 = xtime(y);
    let y2 = xtime(y1);
    let y3 = xtime(y2);
    let y4 = xtime(y3);
    let y5 = xtime(y4);
    let y6 = xtime(y5);
    let y7 = xtime(y6);
    lemma_xtime_linear(x, y);
    lemma_xtime_linear(x1, y1);
    lemma_xtime_linear(x2, y2);
    lemma_xtime_linear(x3, y3);
    lemma_xtime_linear(x4, y4);
    lemma_xtime_linear(x5, y5);
    lemma_xtime_linear(x6, y6);
    lemma_select_bit_facts(x, y, c, c, 0);
    lemma_select_bit_facts(x1, y1, c, c, 1);
    lemma_select_bit_facts(x2, y2, c, c, 2);
    lemma_select_bit_facts(x3, y3, c, c, 3);
    lemma_select_bit_facts(x4, y4, c, c, 4);
    lemma_select_bit_facts(x5, y5, c, c, 5);
    lemma_select_bit_facts(x6, y6, c, c, 6);
    lemma_select_bit_facts(x7, y7, c, c, 7);
    lemma_xor8_rearrange(select_bit(x, c, 0), select_bit(x1, c, 1), select_bit(x2, c, 2),
        select_bit(x3, c, 3), select_bit(x4, c, 4), select_bit(x5, c, 5), select_bit(x6, c, 6),
        select_bit(x7, c, 7), select_bit(y, c, 0), select_bit(y1, c, 1), select_bit(y2, c, 2),
        select_bit(y3, c, 3), select_bit(y4, c, 4), select_bit(y5, c, 5), select_bit(y6, c, 6),
        select_bit(y7, c, 7));
}

/// Multiplication distributes over addition (xor), in both arguments.
pub proof fn lemma_mul_distributive(a: u8, b: u8, c: u8)
    ensures
        gf_mul(a, b ^ c) == gf_mul(a, b) ^ gf_mul(a, c),
        gf_mul(b ^ c, a) == gf_mul(b, a) ^ gf_mul(c, a),
{
    lemma_mul_distributive_right(a, b, c);
    lemma_mul_distributive_left(b, c, a);
}

proof fn lemma_mul_one_left(a: u8)
    ensures
        gf_mul(1, a) == a,
{
    reveal(gf_mul);
    assert(gf_mul(1u8, a) == a) by (bit_vector);
}

/// gf_mul(2^k, a) is alpha^k times a, computed by repeated xtime.
pub proof fn lemma_mul_basis(a: u8)
    ensures
        gf_mul(2u8, a) == xtime(a),
        gf_mul(4u8, a) == xtime(xtime(a)),
        gf_mul(8u8, a) == xtime(xtime(xtime(a))),
        gf_mul(16u8, a) == xtime(xtime(xtime(xtime(a)))),
        gf_mul(32u8, a) == xtime(xtime(xtime(xtime(xtime(a))))),
        gf_mul(64u8, a) == xtime(xtime(xtime(xtime(xtime(xtime(a)))))),
        gf_mul(128u8, a) == xtime(xtime(xtime(xtime(xtime(xtime(xtime(a))))))),
{
    assert(xtime(1u8) == 2u8 && xtime(2u8) == 4u8 && xtime(4u8) == 8u8 && xtime(8u8) == 16u8
        && xtime(16u8) == 32u8 && xtime(32u8) == 64u8 && xtime(64u8) == 128u8) by (bit_vector);
    lemma_mul_one_left(a);
    lemma_mul_xtime(1u8, a);
    lemma_mul_xtime(2u8, a);
    lemma_mul_xtime(4u8, a);
    lemma_mul_xtime(8u8, a);
    lemma_mul_xtime(16u8, a);
    lemma_mul_xtime(32u8, a);
    lemma_mul_xtime(64u8, a);
}

/// Multiplication is commutative.
pub proof fn lemma_mul_commutative(a: u8, b: u8)
    ensures
        gf_mul(a, b) == gf_mul(b, a),
{
    reveal(gf_mul);
    let s0 = select_bit(1u8, b, 0);
    let s1 = select_bit(2u8, b, 1);
    let s2 = select_bit(4u8, b, 2);
    let s3 = select_bit(8u8, b, 3);
    let s4 = select_bit(16u8, b, 4);
    let s5 = select_bit(32u8, b, 5);
    let s6 = select_bit(64u8, b, 6);
    let s7 = select_bit(128u8, b, 7);
    assert(b == select_bit(1u8, b, 0) ^ select_bit(2u8, b, 1) ^ select_bit(4u8, b, 2) ^ select_bit(
        8u8,
        b,
        3,
    ) ^ select_bit(16u8, b, 4) ^ select_bit(32u8, b, 5) ^ select_bit(64u8, b, 6) ^ select_bit(
        128u8,
        b,
        7,
    )) by (bit_vector);
    lemma_mul_distributive_left(s0 ^ s1 ^ s2 ^ s3 ^ s4 ^ s5 ^ s6, s7, a);
    lemma_mul_distributive_left(s0 ^ s1 ^ s2 ^ s3 ^ s4 ^ s5, s6, a);
    lemma_mul_distributive_left(s0 ^ s1 ^ s2 ^ s3 ^ s4, s5, a);
    lemma_mul_distributive_left(s0 ^ s1 ^ s2 ^ s3, s4, a);
    lemma_mul_distributive_left(s0 ^ s1 ^ s2, s3, a);
    lemma_mul_distributive_left(s0 ^ s1, s2, a);
    lemma_mul_distributive_left(s0, s1, a);
    lemma_mul_select(1u8, b, 0, a);
    lemma_mul_select(2u8, b, 1, a);
    lemma_mul_select(4u8, b, 2, a);
    lemma_mul_select(8u8, b, 3, a);
    lemma_mul_select(16u8, b, 4, a);
    lemma_mul_select(32u8, b, 5, a);
    lemma_mul_select(64u8, b, 6, a);
    lemma_mul_select(128u8, b, 7, a);
    lemma_mul_one_left(a);
    lemma_mul_basis(a);
}

proof fn lemma_mul_zero_left(c: u8)
    ensures
        gf_mul(0, c) == 0,
{
    reveal(gf_mul);
    assert(xtime(0u8) == 0u8) by (bit_vector);
    assert(select_bit(0u8, c, 0) == 0u8);
    assert(0u8 ^ 0u8 == 0u8) by (bit_vector);
}

proof fn lemma_mul_select(x: u8, b: u8, k: u8, c: u8)
    ensures
        gf_mul(select_bit(x, b, k), c) == select_bit(gf_mul(x, c), b, k),
{
    reveal(gf_mul);
    lemma_mul_zero_left(c);
}

/// (a b) c == (a c) b
proof fn lemma_mul_swap_right(a: u8, b: u8, c: u8)
    ensures
        gf_mul(gf_mul(a, b), c) == gf_mul(gf_mul(a, c), b),
{
    reveal(gf_mul);
    let a1 = xtime(a);
    let a2 = xtime(a1);
    let a3 = xtime(a2);
    let a4 = xtime(a3);
    let a5 = xtime(a4);
    let a6 = xtime(a5);
    let a7 = xtime(a6);
    let t0 = select_bit(a, b, 0);
    let t1 = select_bit(a1, b, 1);
    let t2 = select_bit(a2, b, 2);
    let t3 = select_bit(a3, b, 3);
    let t4 = select_bit(a4, b, 4);
    let t5 = select_bit(a5, b, 5);
    let t6 = select_bit(a6, b, 6);
    let t7 = select_bit(a7, b, 7);
    assert(gf_mul(a, b) == t0 ^ t1 ^ t2 ^ t3 ^ t4 ^ t5 ^ t6 ^ t7);
    lemma_mul_distributive_left(t0 ^ t1 ^ t2 ^ t3 ^ t4 ^ t5 ^ t6, t7, c);
    lemma_mul_distributive_left(t0 ^ t1 ^ t2 ^ t3 ^ t4 ^ t5, t6, c);
    lemma_mul_distributive_left(t0 ^ t1 ^ t2 ^ t3 ^ t4, t5, c);
    lemma_mul_distributive_left(t0 ^ t1 ^ t2 ^ t3, t4, c);
    lemma_mul_distributive_left(t0 ^ t1 ^ t2, t3, c);
    lemma_mul_distributive_left(t0 ^ t1, t2, c);
    lemma_mul_distributive_left(t0, t1, c);
    lemma_mul_select(a, b, 0, c);
    lemma_mul_select(a1, b, 1, c);
    lemma_mul_select(a2, b, 2, c);
    lemma_mul_select(a3, b, 3, c);
    lemma_mul_select(a4, b, 4, c);
    lemma_mul_select(a5, b, 5, c);
    lemma_mul_select(a6, b, 6, c);
    lemma_mul_select(a7, b, 7, c);
    lemma_mul_xtime(a, c);
    lemma_mul_xtime(a1, c);
    lemma_mul_xtime(a2, c);
    lemma_mul_xtime(a3, c);
    lemma_mul_xtime(a4, c);
    lemma_mul_xtime(a5, c);
    lemma_mul_xtime(a6, c);
}

/// Multiplication is associative.
pub proof fn lemma_mul_associative(a: u8, b: u8, c: u8)
    ensures
        gf_mul(gf_mul(a, b), c) == gf_mul(a, gf_mul(b, c)),
{
    lemma_mul_swap_right(b, c, a);
    lemma_mul_commutative(a, gf_mul(b, c));
    lemma_mul_commutative(b, a);
}

/// One is the multiplicative identity and zero annihilates.
pub proof fn lemma_mul_identity_zero(a: u8)
    ensures
        gf_mul(a, 1) == a,
        gf_mul(1, a) == a,
        gf_mul(a, 0) == 0,
        gf_mul(0, a) == 0,
{
    lemma_mul_one_left(a);
    lemma_mul_commutative(a, 1);
    lemma_mul_zero_left(a);
    lemma_mul_commutative(a, 0);
}

/// `c` is the multiplicative inverse of `a`.
#[verifier::opaque]
pub open spec fn is_inverse_pair(a: u8, c: u8) -> bool {
    gf_mul(a, c) == 1
}

proof fn lemma_inverse_table()
    ensures
        is_inverse_pair(1u8, 1u8),
        is_inverse_pair(2u8, 142u8),
        is_inverse_pair(3u8, 244u8),
        is_inverse_pair(4u8, 71u8),
        is_inverse_pair(5u8, 167u8),
        is_inverse_pair(6u8, 122u8),
        is_inverse_pair(7u8, 186u8),
        is_inverse_pair(8u8, 173u8),
        is_inverse_pair(9u8, 157u8),
        is_inverse_pair(10u8, 221u8),
        is_inverse_pair(11u8, 152u8),
        is_inverse_pair(12u8, 61u8),
        is_inverse_pair(13u8, 170u8),
        is_inverse_pair(14u8, 93u8),
        is_inverse_pair(15u8, 150u8),
        is_inverse_pair(16u8, 216u8),
        is_inverse_pair(17u8, 114u8),
        is_inverse_pair(18u8, 192u8),
        is_inverse_pair(19u8, 88u8),
        is_inverse_pair(20u8, 224u8),
        is_inverse_pair(21u8, 62u8),
        is_inverse_pair(22u8, 76u8),
        is_inverse_pair(23u8, 102u8),
        is_inverse_pair(24u8, 144u8),
        is_inverse_pair(25u8, 222u8),
        is_inverse_pair(26u8, 85u8),
        is_inverse_pair(27u8, 128u8),
        is_inverse_pair(28u8, 160u8),
        is_inverse_pair(29u8, 131u8),
        is_inverse_pair(30u8, 75u8),
        is_inverse_pair(31u8, 42u8),
        is_inverse_pair(32u8, 108u8),
        is_inverse_pair(33u8, 237u8),
        is_inverse_pair(34u8, 57u8),
        is_inverse_pair(35u8, 81u8),
        is_inverse_pair(36u8, 96u8),
        is_inverse_pair(37u8, 86u8),
        is_inverse_pair(38u8, 44u8),
        is_inverse_pair(39u8, 138u8),
        is_inverse_pair(40u8, 112u8),
        is_inverse_pair(41u8, 208u8),
        is_inverse_pair(42u8, 31u8),
        is_inverse_pair(43u8, 74u8),
        is_inverse_pair(44u8, 38u8),
        is_inverse_pair(45u8, 139u8),
        is_inverse_pair(46u8, 51u8),
        is_inverse_pair(47u8, 110u8),
        is_inverse_pair(48u8, 72u8),
        is_inverse_pair(49u8, 137u8),
        is_inverse_pair(50u8, 111u8),
        is_inverse_pair(51u8, 46u8),
        is_inverse_pair(52u8, 164u8),
        is_inverse_pair(53u8, 195u8),
        is_inverse_pair(54u8, 64u8),
        is_inverse_pair(55u8, 94u8),
        is_inverse_pair(56u8, 80u8),
        is_inverse_pair(57u8, 34u8),
        is_inverse_pair(58u8, 207u8),
        is_inverse_pair(59u8, 169u8),
        is_inverse_pair(60u8, 171u8),
        is_inverse_pair(61u8, 12u8),
        is_inverse_pair(62u8, 21u8),
        is_inverse_pair(63u8, 225u8),
        is_inverse_pair(64u8, 54u8),
        is_inverse_pair(65u8, 95u8),
        is_inverse_pair(66u8, 248u8),
        is_inverse_pair(67u8, 213u8),
        is_inverse_pair(68u8, 146u8),
        is_inverse_pair(69u8, 78u8),
        is_inverse_pair(70u8, 166u8),
        is_inverse_pair(71u8, 4u8),
        is_inverse_pair(72u8, 48u8),
        is_inverse_pair(73u8, 136u8),
        is_inverse_pair(74u8, 43u8),
        is_inverse_pair(75u8, 30u8),
        is_inverse_pair(76u8, 22u8),
        is_inverse_pair(77u8, 103u8),
        is_inverse_pair(78u8, 69u8),
        is_inverse_pair(79u8, 147u8),
        is_inverse_pair(80u8, 56u8),
        is_inverse_pair(81u8, 35u8),
        is_inverse_pair(82u8, 104u8),
        is_inverse_pair(83u8, 140u8),
        is_inverse_pair(84u8, 129u8),
        is_inverse_pair(85u8, 26u8),
        is_inverse_pair(86u8, 37u8),
        is_inverse_pair(87u8, 97u8),
        is_inverse_pair(88u8, 19u8),
        is_inverse_pair(89u8, 193u8),
        is_inverse_pair(90u8, 203u8),
        is_inverse_pair(91u8, 99u8),
        is_inverse_pair(92u8, 151u8),
        is_inverse_pair(93u8, 14u8),
        is_inverse_pair(94u8, 55u8),
        is_inverse_pair(95u8, 65u8),
        is_inverse_pair(96u8, 36u8),
        is_inverse_pair(97u8, 87u8),
        is_inverse_pair(98u8, 202u8),
        is_inverse_pair(99u8, 91u8),
        is_inverse_pair(100u8, 185u8),
        is_inverse_pair(101u8, 196u8),
        is_inverse_pair(102u8, 23u8),
        is_inverse_pair(103u8, 77u8),
        is_inverse_pair(104u8, 82u8),
        is_inverse_pair(105u8, 141u8),
        is_inverse_pair(106u8, 239u8),
        is_inverse_pair(107u8, 179u8),
        is_inverse_pair(108u8, 32u8),
        is_inverse_pair(109u8, 236u8),
        is_inverse_pair(110u8, 47u8),
        is_inverse_pair(111u8, 50u8),
        is_inverse_pair(112u8, 40u8),
        is_inverse_pair(113u8, 209u8),
        is_inverse_pair(114u8, 17u8),
        is_inverse_pair(115u8, 217u8),
        is_inverse_pair(116u8, 233u8),
        is_inverse_pair(117u8, 251u8),
        is_inverse_pair(118u8, 218u8),
        is_inverse_pair(119u8, 121u8),
        is_inverse_pair(120u8, 219u8),
        is_inverse_pair(121u8, 119u8),
        is_inverse_pair(122u8, 6u8),
        is_inverse_pair(123u8, 187u8),
        is_inverse_pair(124u8, 132u8),
        is_inverse_pair(125u8, 205u8),
        is_inverse_pair(126u8, 254u8),
        is_inverse_pair(127u8, 252u8),
        is_inverse_pair(128u8, 27u8),
        is_inverse_pair(129u8, 84u8),
        is_inverse_pair(130u8, 161u8),
        is_inverse_pair(131u8, 29u8),
        is_inverse_pair(132u8, 124u8),
        is_inverse_pair(133u8, 204u8),
        is_inverse_pair(134u8, 228u8),
        is_inverse_pair(135u8, 176u8),
        is_inverse_pair(136u8, 73u8),
        is_inverse_pair(137u8, 49u8),
        is_inverse_pair(138u8, 39u8),
        is_inverse_pair(139u8, 45u8),
        is_inverse_pair(140u8, 83u8),
        is_inverse_pair(141u8, 105u8),
        is_inverse_pair(142u8, 2u8),
        is_inverse_pair(143u8, 245u8),
        is_inverse_pair(144u8, 24u8),
        is_inverse_pair(145u8, 223u8),
        is_inverse_pair(146u8, 68u8),
        is_inverse_pair(147u8, 79u8),
        is_inverse_pair(148u8, 155u8),
        is_inverse_pair(149u8, 188u8),
        is_inverse_pair(150u8, 15u8),
        is_inverse_pair(151u8, 92u8),
        is_inverse_pair(152u8, 11u8),
        is_inverse_pair(153u8, 220u8),
        is_inverse_pair(154u8, 189u8),
        is_inverse_pair(155u8, 148u8),
        is_inverse_pair(156u8, 172u8),
        is_inverse_pair(157u8, 9u8),
        is_inverse_pair(158u8, 199u8),
        is_inverse_pair(159u8, 162u8),
        is_inverse_pair(160u8, 28u8),
        is_inverse_pair(161u8, 130u8),
        is_inverse_pair(162u8, 159u8),
        is_inverse_pair(163u8, 198u8),
        is_inverse_pair(164u8, 52u8),
        is_inverse_pair(165u8, 194u8),
        is_inverse_pair(166u8, 70u8),
        is_inverse_pair(167u8, 5u8),
        is_inverse_pair(168u8, 206u8),
        is_inverse_pair(169u8, 59u8),
        is_inverse_pair(170u8, 13u8),
        is_inverse_pair(171u8, 60u8),
        is_inverse_pair(172u8, 156u8),
        is_inverse_pair(173u8, 8u8),
        is_inverse_pair(174u8, 190u8),
        is_inverse_pair(175u8, 183u8),
        is_inverse_pair(176u8, 135u8),
        is_inverse_pair(177u8, 229u8),
        is_inverse_pair(178u8, 238u8),
        is_inverse_pair(179u8, 107u8),
        is_inverse_pair(180u8, 235u8),
        is_inverse_pair(181u8, 242u8),
        is_inverse_pair(182u8, 191u8),
        is_inverse_pair(183u8, 175u8),
        is_inverse_pair(184u8, 197u8),
        is_inverse_pair(185u8, 100u8),
        is_inverse_pair(186u8, 7u8),
        is_inverse_pair(187u8, 123u8),
        is_inverse_pair(188u8, 149u8),
        is_inverse_pair(189u8, 154u8),
        is_inverse_pair(190u8, 174u8),
        is_inverse_pair(191u8, 182u8),
        is_inverse_pair(192u8, 18u8),
        is_inverse_pair(193u8, 89u8),
        is_inverse_pair(194u8, 165u8),
        is_inverse_pair(195u8, 53u8),
        is_inverse_pair(196u8, 101u8),
        is_inverse_pair(197u8, 184u8),
        is_inverse_pair(198u8, 163u8),
        is_inverse_pair(199u8, 158u8),
        is_inverse_pair(200u8, 210u8),
        is_inverse_pair(201u8, 247u8),
        is_inverse_pair(202u8, 98u8),
        is_inverse_pair(203u8, 90u8),
        is_inverse_pair(204u8, 133u8),
        is_inverse_pair(205u8, 125u8),
        is_inverse_pair(206u8, 168u8),
        is_inverse_pair(207u8, 58u8),
        is_inverse_pair(208u8, 41u8),
        is_inverse_pair(209u8, 113u8),
        is_inverse_pair(210u8, 200u8),
        is_inverse_pair(211u8, 246u8),
        is_inverse_pair(212u8, 249u8),
        is_inverse_pair(213u8, 67u8),
        is_inverse_pair(214u8, 215u8),
        is_inverse_pair(215u8, 214u8),
        is_inverse_pair(216u8, 16u8),
        is_inverse_pair(217u8, 115u8),
        is_inverse_pair(218u8, 118u8),
        is_inverse_pair(219u8, 120u8),
        is_inverse_pair(220u8, 153u8),
        is_inverse_pair(221u8, 10u8),
        is_inverse_pair(222u8, 25u8),
        is_inverse_pair(223u8, 145u8),
        is_inverse_pair(224u8, 20u8),
        is_inverse_pair(225u8, 63u8),
        is_inverse_pair(226u8, 230u8),
        is_inverse_pair(227u8, 240u8),
        is_inverse_pair(228u8, 134u8),
        is_inverse_pair(229u8, 177u8),
        is_inverse_pair(230u8, 226u8),
        is_inverse_pair(231u8, 241u8),
        is_inverse_pair(232u8, 250u8),
        is_inverse_pair(233u8, 116u8),
        is_inverse_pair(234u8, 243u8),
        is_inverse_pair(235u8, 180u8),
        is_inverse_pair(236u8, 109u8),
        is_inverse_pair(237u8, 33u8),
        is_inverse_pair(238u8, 178u8),
        is_inverse_pair(239u8, 106u8),
        is_inverse_pair(240u8, 227u8),
        is_inverse_pair(241u8, 231u8),
        is_inverse_pair(242u8, 181u8),
        is_inverse_pair(243u8, 234u8),
        is_inverse_pair(244u8, 3u8),
        is_inverse_pair(245u8, 143u8),
        is_inverse_pair(246u8, 211u8),
        is_inverse_pair(247u8, 201u8),
        is_inverse_pair(248u8, 66u8),
        is_inverse_pair(249u8, 212u8),
        is_inverse_pair(250u8, 232u8),
        is_inverse_pair(251u8, 117u8),
        is_inverse_pair(252u8, 127u8),
        is_inverse_pair(253u8, 255u8),
        is_inverse_pair(254u8, 126u8),
        is_inverse_pair(255u8, 253u8),
{
    reveal(gf_mul);
    reveal(is_inverse_pair);
    assert(gf_mul(1u8, 1u8) == 1u8 && gf_mul(2u8, 142u8) == 1u8 && gf_mul(3u8, 244u8) == 1u8 && gf_mul(4u8, 71u8) == 1u8 && gf_mul(5u8, 167u8) == 1u8 && gf_mul(6u8, 122u8) == 1u8 && gf_mul(7u8, 186u8) == 1u8 && gf_mul(8u8, 173u8) == 1u8 && gf_mul(9u8, 157u8) == 1u8 && gf_mul(10u8, 221u8) == 1u8 && gf_mul(11u8, 152u8) == 1u8 && gf_mul(12u8, 61u8) == 1u8 && gf_mul(13u8, 170u8) == 1u8 && gf_mul(14u8, 93u8) == 1u8 && gf_mul(15u8, 150u8) == 1u8 && gf_mul(16u8, 216u8) == 1u8 && gf_mul(17u8, 114u8) == 1u8 && gf_mul(18u8, 192u8) == 1u8 && gf_mul(19u8, 88u8) == 1u8 && gf_mul(20u8, 224u8) == 1u8 && gf_mul(21u8, 62u8) == 1u8 && gf_mul(22u8, 76u8) == 1u8 && gf_mul(23u8, 102u8) == 1u8 && gf_mul(24u8, 144u8) == 1u8 && gf_mul(25u8, 222u8) == 1u8 && gf_mul(26u8, 85u8) == 1u8 && gf_mul(27u8, 128u8) == 1u8 && gf_mul(28u8, 160u8) == 1u8 && gf_mul(29u8, 131u8) == 1u8 && gf_mul(30u8, 75u8) == 1u8 && gf_mul(31u8, 42u8) == 1u8 && gf_mul(32u8, 108u8) == 1u8 && gf_mul(33u8, 237u8) == 1u8 && gf_mul(34u8, 57u8) == 1u8 && gf_mul(35u8, 81u8) == 1u8 && gf_mul(36u8, 96u8) == 1u8 && gf_mul(37u8, 86u8) == 1u8 && gf_mul(38u8, 44u8) == 1u8 && gf_mul(39u8, 138u8) == 1u8 && gf_mul(40u8, 112u8) == 1u8 && gf_mul(41u8, 208u8) == 1u8 && gf_mul(42u8, 31u8) == 1u8 && gf_mul(43u8, 74u8) == 1u8 && gf_mul(44u8, 38u8) == 1u8 && gf_mul(45u8, 139u8) == 1u8 && gf_mul(46u8, 51u8) == 1u8 && gf_mul(47u8, 110u8) == 1u8 && gf_mul(48u8, 72u8) == 1u8 && gf_mul(49u8, 137u8) == 1u8 && gf_mul(50u8, 111u8) == 1u8 && gf_mul(51u8, 46u8) == 1u8 && gf_mul(52u8, 164u8) == 1u8 && gf_mul(53u8, 195u8) == 1u8 && gf_mul(54u8, 64u8) == 1u8 && gf_mul(55u8, 94u8) == 1u8 && gf_mul(56u8, 80u8) == 1u8 && gf_mul(57u8, 34u8) == 1u8 && gf_mul(58u8, 207u8) == 1u8 && gf_mul(59u8, 169u8) == 1u8 && gf_mul(60u8, 171u8) == 1u8 && gf_mul(61u8, 12u8) == 1u8 && gf_mul(62u8, 21u8) == 1u8 && gf_mul(63u8, 225u8) == 1u8 && gf_mul(64u8, 54u8) == 1u8 && gf_mul(65u8, 95u8) == 1u8 && gf_mul(66u8, 248u8) == 1u8 && gf_mul(67u8, 213u8) == 1u8 && gf_mul(68u8, 146u8) == 1u8 && gf_mul(69u8, 78u8) == 1u8 && gf_mul(70u8, 166u8) == 1u8 && gf_mul(71u8, 4u8) == 1u8 && gf_mul(72u8, 48u8) == 1u8 && gf_mul(73u8, 136u8) == 1u8 && gf_mul(74u8, 43u8) == 1u8 && gf_mul(75u8, 30u8) == 1u8 && gf_mul(76u8, 22u8) == 1u8 && gf_mul(77u8, 103u8) == 1u8 && gf_mul(78u8, 69u8) == 1u8 && gf_mul(79u8, 147u8) == 1u8 && gf_mul(80u8, 56u8) == 1u8 && gf_mul(81u8, 35u8) == 1u8 && gf_mul(82u8, 104u8) == 1u8 && gf_mul(83u8, 140u8) == 1u8 && gf_mul(84u8, 129u8) == 1u8 && gf_mul(85u8, 26u8) == 1u8 && gf_mul(86u8, 37u8) == 1u8 && gf_mul(87u8, 97u8) == 1u8 && gf_mul(88u8, 19u8) == 1u8 && gf_mul(89u8, 193u8) == 1u8 && gf_mul(90u8, 203u8) == 1u8 && gf_mul(91u8, 99u8) == 1u8 && gf_mul(92u8, 151u8) == 1u8 && gf_mul(93u8, 14u8) == 1u8 && gf_mul(94u8, 55u8) == 1u8 && gf_mul(95u8, 65u8) == 1u8 && gf_mul(96u8, 36u8) == 1u8 && gf_mul(97u8, 87u8) == 1u8 && gf_mul(98u8, 202u8) == 1u8 && gf_mul(99u8, 91u8) == 1u8 && gf_mul(100u8, 185u8) == 1u8 && gf_mul(101u8, 196u8) == 1u8 && gf_mul(102u8, 23u8) == 1u8 && gf_mul(103u8, 77u8) == 1u8 && gf_mul(104u8, 82u8) == 1u8 && gf_mul(105u8, 141u8) == 1u8 && gf_mul(106u8, 239u8) == 1u8 && gf_mul(107u8, 179u8) == 1u8 && gf_mul(108u8, 32u8) == 1u8 && gf_mul(109u8, 236u8) == 1u8 && gf_mul(110u8, 47u8) == 1u8 && gf_mul(111u8, 50u8) == 1u8 && gf_mul(112u8, 40u8) == 1u8 && gf_mul(113u8, 209u8) == 1u8 && gf_mul(114u8, 17u8) == 1u8 && gf_mul(115u8, 217u8) == 1u8 && gf_mul(116u8, 233u8) == 1u8 && gf_mul(117u8, 251u8) == 1u8 && gf_mul(118u8, 218u8) == 1u8 && gf_mul(119u8, 121u8) == 1u8 && gf_mul(120u8, 219u8) == 1u8 && gf_mul(121u8, 119u8) == 1u8 && gf_mul(122u8, 6u8) == 1u8 && gf_mul(123u8, 187u8) == 1u8 && gf_mul(124u8, 132u8) == 1u8 && gf_mul(125u8, 205u8) == 1u8 && gf_mul(126u8, 254u8) == 1u8 && gf_mul(127u8, 252u8) == 1u8 && gf_mul(128u8, 27u8) == 1u8 && gf_mul(129u8, 84u8) == 1u8 && gf_mul(130u8, 161u8) == 1u8 && gf_mul(131u8, 29u8) == 1u8 && gf_mul(132u8, 124u8) == 1u8 && gf_mul(133u8, 204u8) == 1u8 && gf_mul(134u8, 228u8) == 1u8 && gf_mul(135u8, 176u8) == 1u8 && gf_mul(136u8, 73u8) == 1u8 && gf_mul(137u8, 49u8) == 1u8 && gf_mul(138u8, 39u8) == 1u8 && gf_mul(139u8, 45u8) == 1u8 && gf_mul(140u8, 83u8) == 1u8 && gf_mul(141u8, 105u8) == 1u8 && gf_mul(142u8, 2u8) == 1u8 && gf_mul(143u8, 245u8) == 1u8 && gf_mul(144u8, 24u8) == 1u8 && gf_mul(145u8, 223u8) == 1u8 && gf_mul(146u8, 68u8) == 1u8 && gf_mul(147u8, 79u8) == 1u8 && gf_mul(148u8, 155u8) == 1u8 && gf_mul(149u8, 188u8) == 1u8 && gf_mul(150u8, 15u8) == 1u8 && gf_mul(151u8, 92u8) == 1u8 && gf_mul(152u8, 11u8) == 1u8 && gf_mul(153u8, 220u8) == 1u8 && gf_mul(154u8, 189u8) == 1u8 && gf_mul(155u8, 148u8) == 1u8 && gf_mul(156u8, 172u8) == 1u8 && gf_mul(157u8, 9u8) == 1u8 && gf_mul(158u8, 199u8) == 1u8 && gf_mul(159u8, 162u8) == 1u8 && gf_mul(160u8, 28u8) == 1u8 && gf_mul(161u8, 130u8) == 1u8 && gf_mul(162u8, 159u8) == 1u8 && gf_mul(163u8, 198u8) == 1u8 && gf_mul(164u8, 52u8) == 1u8 && gf_mul(165u8, 194u8) == 1u8 && gf_mul(166u8, 70u8) == 1u8 && gf_mul(167u8, 5u8) == 1u8 && gf_mul(168u8, 206u8) == 1u8 && gf_mul(169u8, 59u8) == 1u8 && gf_mul(170u8, 13u8) == 1u8 && gf_mul(171u8, 60u8) == 1u8 && gf_mul(172u8, 156u8) == 1u8 && gf_mul(173u8, 8u8) == 1u8 && gf_mul(174u8, 190u8) == 1u8 && gf_mul(175u8, 183u8) == 1u8 && gf_mul(176u8, 135u8) == 1u8 && gf_mul(177u8, 229u8) == 1u8 && gf_mul(178u8, 238u8) == 1u8 && gf_mul(179u8, 107u8) == 1u8 && gf_mul(180u8, 235u8) == 1u8 && gf_mul(181u8, 242u8) == 1u8 && gf_mul(182u8, 191u8) == 1u8 && gf_mul(183u8, 175u8) == 1u8 && gf_mul(184u8, 197u8) == 1u8 && gf_mul(185u8, 100u8) == 1u8 && gf_mul(186u8, 7u8) == 1u8 && gf_mul(187u8, 123u8) == 1u8 && gf_mul(188u8, 149u8) == 1u8 && gf_mul(189u8, 154u8) == 1u8 && gf_mul(190u8, 174u8) == 1u8 && gf_mul(191u8, 182u8) == 1u8 && gf_mul(192u8, 18u8) == 1u8 && gf_mul(193u8, 89u8) == 1u8 && gf_mul(194u8, 165u8) == 1u8 && gf_mul(195u8, 53u8) == 1u8 && gf_mul(196u8, 101u8) == 1u8 && gf_mul(197u8, 184u8) == 1u8 && gf_mul(198u8, 163u8) == 1u8 && gf_mul(199u8, 158u8) == 1u8 && gf_mul(200u8, 210u8) == 1u8 && gf_mul(201u8, 247u8) == 1u8 && gf_mul(202u8, 98u8) == 1u8 && gf_mul(203u8, 90u8) == 1u8 && gf_mul(204u8, 133u8) == 1u8 && gf_mul(205u8, 125u8) == 1u8 && gf_mul(206u8, 168u8) == 1u8 && gf_mul(207u8, 58u8) == 1u8 && gf_mul(208u8, 41u8) == 1u8 && gf_mul(209u8, 113u8) == 1u8 && gf_mul(210u8, 200u8) == 1u8 && gf_mul(211u8, 246u8) == 1u8 && gf_mul(212u8, 249u8) == 1u8 && gf_mul(213u8, 67u8) == 1u8 && gf_mul(214u8, 215u8) == 1u8 && gf_mul(215u8, 214u8) == 1u8 && gf_mul(216u8, 16u8) == 1u8 && gf_mul(217u8, 115u8) == 1u8 && gf_mul(218u8, 118u8) == 1u8 && gf_mul(219u8, 120u8) == 1u8 && gf_mul(220u8, 153u8) == 1u8 && gf_mul(221u8, 10u8) == 1u8 && gf_mul(222u8, 25u8) == 1u8 && gf_mul(223u8, 145u8) == 1u8 && gf_mul(224u8, 20u8) == 1u8 && gf_mul(225u8, 63u8) == 1u8 && gf_mul(226u8, 230u8) == 1u8 && gf_mul(227u8, 240u8) == 1u8 && gf_mul(228u8, 134u8) == 1u8 && gf_mul(229u8, 177u8) == 1u8 && gf_mul(230u8, 226u8) == 1u8 && gf_mul(231u8, 241u8) == 1u8 && gf_mul(232u8, 250u8) == 1u8 && gf_mul(233u8, 116u8) == 1u8 && gf_mul(234u8, 243u8) == 1u8 && gf_mul(235u8, 180u8) == 1u8 && gf_mul(236u8, 109u8) == 1u8 && gf_mul(237u8, 33u8) == 1u8 && gf_mul(238u8, 178u8) == 1u8 && gf_mul(239u8, 106u8) == 1u8 && gf_mul(240u8, 227u8) == 1u8 && gf_mul(241u8, 231u8) == 1u8 && gf_mul(242u8, 181u8) == 1u8 && gf_mul(243u8, 234u8) == 1u8 && gf_mul(244u8, 3u8) == 1u8 && gf_mul(245u8, 143u8) == 1u8 && gf_mul(246u8, 211u8) == 1u8 && gf_mul(247u8, 201u8) == 1u8 && gf_mul(248u8, 66u8) == 1u8 && gf_mul(249u8, 212u8) == 1u8 && gf_mul(250u8, 232u8) == 1u8 && gf_mul(251u8, 117u8) == 1u8 && gf_mul(252u8, 127u8) == 1u8 && gf_mul(253u8, 255u8) == 1u8 && gf_mul(254u8, 126u8) == 1u8 && gf_mul(255u8, 253u8) == 1u8) by (bit_vector);
}

/// Every nonzero element has `gf_inv` as its inverse.
pub proof fn lemma_mul_inverse(a: u8)
    requires
        a != 0,
    ensures
        gf_mul(a, gf_inv(a)) == 1,
        gf_mul(gf_inv(a), a) == 1,
{
    lemma_inverse_table();
    assert(is_inverse_pair(a, gf_inv(a)));
    assert(gf_mul(a, gf_inv(a)) == 1) by {
        reveal(is_inverse_pair);
    }
    lemma_mul_commutative(a, gf_inv(a));
}

/// The all-zero polynomial of length `n`.
pub open spec fn zeros(n: nat) -> Seq<u8> {
    Seq::new(n, |i: int| 0u8)
}

pub proof fn lemma_xor_facts(a: u8, b: u8)
    ensures
        a ^ 0u8 == a,
        0u8 ^ a == a,
        a ^ a == 0u8,
        a ^ b == b ^ a,
{
    assert(a ^ 0u8 == a && 0u8 ^ a == a && a ^ a == 0u8 && a ^ b == b ^ a) by (bit_vector);
}

pub proof fn lemma_xor_assoc(a: u8, b: u8, c: u8)
    ensures
        (a ^ b) ^ c == a ^ (b ^ c),
{
    assert((a ^ b) ^ c == a ^ (b ^ c)) by (bit_vector);
}

/// Evaluating the concatenation `s + t` shifts `s` by the length of `t`.
pub proof fn lemma_peval_concat(s: Seq<u8>, t: Seq<u8>, x: u8)
    ensures
        peval(s + t, x) == gf_mul(peval(s, x), gf_pow(x, t.len())) ^ peval(t, x),
    decreases t.len(),
{
    if t.len() == 0 {
        assert(s + t =~= s);
        lemma_mul_identity_zero(peval(s, x));
        lemma_xor_facts(peval(s, x), 0);
    } else {
        let t1 = t.drop_last();
        assert((s + t).drop_last() =~= s + t1);
        assert((s + t).last() == t.last());
        lemma_peval_concat(s, t1, x);
        let ps = peval(s, x);
        let pw = gf_pow(x, t1.len());
        lemma_mul_distributive(x, gf_mul(ps, pw), peval(t1, x));
        lemma_mul_associative(ps, pw, x);
        lemma_xor_assoc(gf_mul(gf_mul(ps, pw), x), gf_mul(peval(t1, x), x), t.last());
    }
}

/// The zero polynomial evaluates to zero.
pub proof fn lemma_peval_zeros(n: nat, x: u8)
    ensures
        peval(zeros(n), x) == 0,
    decreases n,
{
    if n > 0 {
        assert(zeros(n).drop_last() =~= zeros((n - 1) as nat));
        lemma_peval_zeros((n - 1) as nat, x);
        lemma_mul_identity_zero(x);
        lemma_xor_facts(0, 0);
    }
}

/// Evaluation is linear: `u + c * v` evaluates to `u(x) + c * v(x)`.
pub proof fn lemma_peval_linear(u: Seq<u8>, v: Seq<u8>, c: u8, x: u8)
    requires
        u.len() == v.len(),
    ensures
        peval(Seq::new(u.len(), |j: int| u[j] ^ gf_mul(v[j], c)), x) == peval(u, x) ^ gf_mul(
            c,
            peval(v, x),
        ),
    decreases u.len(),
{
    let w = Seq::new(u.len(), |j: int| u[j] ^ gf_mul(v[j], c));
    if u.len() == 0 {
        lemma_mul_identity_zero(c);
        lemma_xor_facts(0, 0);
    } else {
        let u1 = u.drop_last();
        let v1 = v.drop_last();
        let w1 = Seq::new(u1.len(), |j: int| u1[j] ^ gf_mul(v1[j], c));
        assert(w.drop_last() =~= w1);
        lemma_peval_linear(u1, v1, c, x);
        let pu = peval(u1, x);
        let pv = peval(v1, x);
        // w(x) = (pu ^ c pv) x ^ (u_last ^ v_last c)
        lemma_mul_distributive(x, pu, gf_mul(c, pv));
        lemma_mul_associative(c, pv, x);
        lemma_mul_commutative(v.last(), c);
        lemma_mul_distributive(c, gf_mul(pv, x), v.last());
        let a = gf_mul(pu, x);
        let b = gf_mul(c, gf_mul(pv, x));
        let d = u.last();
        let e = gf_mul(c, v.last());
        assert((a ^ b) ^ (d ^ e) == (a ^ d) ^ (b ^ e)) by (bit_vector);
    }
}

/// Prepending a zero coefficient does not change the value.
pub proof fn lemma_peval_leading_zero(u: Seq<u8>, x: u8)
    ensures
        peval(seq![0u8] + u, x) == peval(u, x),
{
    lemma_peval_concat(seq![0u8], u, x);
    let z = seq![0u8];
    assert(z.drop_last() =~= Seq::<u8>::empty());
    assert(peval(z.drop_last(), x) == 0u8);
    assert(z.last() == 0u8);
    lemma_mul_identity_zero(x);
    lemma_xor_facts(0, 0);
    assert(peval(z, x) == gf_mul(peval(z.drop_last(), x), x) ^ z.last());
    assert(peval(z, x) == 0u8);
    lemma_mul_identity_zero(gf_pow(x, u.len()));
    lemma_xor_facts(peval(u, x), 0);
}

/// Appending a zero coefficient multiplies the value by x.
pub proof fn lemma_peval_trailing_zero(u: Seq<u8>, x: u8)
    ensures
        peval(u.push(0u8), x) == gf_mul(peval(u, x), x),
{
    assert(u.push(0u8).drop_last() =~= u);
    lemma_xor_facts(gf_mul(peval(u, x), x), 0);
}

/// Exponents add: x^(a+b) = x^a * x^b.
pub proof fn lemma_pow_add(x: u8, a: nat, b: nat)
    ensures
        gf_pow(x, a + b) == gf_mul(gf_pow(x, a), gf_pow(x, b)),
    decreases b,
{
    if b == 0 {
        lemma_mul_identity_zero(gf_pow(x, a));
    } else {
        lemma_pow_add(x, a, (b - 1) as nat);
        assert((a + b - 1) as nat == a + (b - 1) as nat);
        lemma_mul_associative(gf_pow(x, a), gf_pow(x, (b - 1) as nat), x);
    }
}

/// Powers of powers multiply their exponents: (x^a)^b = x^(a*b).
pub proof fn lemma_pow_pow(x: u8, a: nat, b: nat)
    ensures
        gf_pow(gf_pow(x, a), b) == gf_pow(x, a * b),
    decreases b,
{
    if b > 0 {
        lemma_pow_pow(x, a, (b - 1) as nat);
        assert(a * b == a * (b - 1) as nat + a) by (nonlinear_arith)
            requires
                b > 0,
        ;
        lemma_pow_add(x, a * (b - 1) as nat, a);
    } else {
        assert(a * b == 0) by (nonlinear_arith)
            requires
                b == 0,
        ;
    }
}


/// alpha^k for k in 0..255, tabulated (alpha^255 = alpha^0 = 1).
pub open spec fn alpha_table(k: u8) -> u8 {
    match k {
        0u8 => 1u8,
        1u8 => 2u8,
        2u8 => 4u8,
        3u8 => 8u8,
        4u8 => 16u8,
        5u8 => 32u8,
        6u8 => 64u8,
        7u8 => 128u8,
        8u8 => 29u8,
        9u8 => 58u8,
        10u8 => 116u8,
        11u8 => 232u8,
        12u8 => 205u8,
        13u8 => 135u8,
        14u8 => 19u8,
        15u8 => 38u8,
        16u8 => 76u8,
        17u8 => 152u8,
        18u8 => 45u8,
        19u8 => 90u8,
        20u8 => 180u8,
        21u8 => 117u8,
        22u8 => 234u8,
        23u8 => 201u8,
        24u8 => 143u8,
        25u8 => 3u8,
        26u8 => 6u8,
        27u8 => 12u8,
        28u8 => 24u8,
        29u8 => 48u8,
        30u8 => 96u8,
        31u8 => 192u8,
        32u8 => 157u8,
        33u8 => 39u8,
        34u8 => 78u8,
        35u8 => 156u8,
        36u8 => 37u8,
        37u8 => 74u8,
        38u8 => 148u8,
        39u8 => 53u8,
        40u8 => 106u8,
        41u8 => 212u8,
        42u8 => 181u8,
        43u8 => 119u8,
        44u8 => 238u8,
        45u8 => 193u8,
        46u8 => 159u8,
        47u8 => 35u8,
        48u8 => 70u8,
        49u8 => 140u8,
        50u8 => 5u8,
        51u8 => 10u8,
        52u8 => 20u8,
        53u8 => 40u8,
        54u8 => 80u8,
        55u8 => 160u8,
        56u8 => 93u8,
        57u8 => 186u8,
        58u8 => 105u8,
        59u8 => 210u8,
        60u8 => 185u8,
        61u8 => 111u8,
        62u8 => 222u8,
        63u8 => 161u8,
        64u8 => 95u8,
        65u8 => 190u8,
        66u8 => 97u8,
        67u8 => 194u8,
        68u8 => 153u8,
        69u8 => 47u8,
        70u8 => 94u8,
        71u8 => 188u8,
        72u8 => 101u8,
        73u8 => 202u8,
        74u8 => 137u8,
        75u8 => 15u8,
        76u8 => 30u8,
        77u8 => 60u8,
        78u8 => 120u8,
        79u8 => 240u8,
        80u8 => 253u8,
        81u8 => 231u8,
        82u8 => 211u8,
        83u8 => 187u8,
        84u8 => 107u8,
        85u8 => 214u8,
        86u8 => 177u8,
        87u8 => 127u8,
        88u8 => 254u8,
        89u8 => 225u8,
        90u8 => 223u8,
        91u8 => 163u8,
        92u8 => 91u8,
        93u8 => 182u8,
        94u8 => 113u8,
        95u8 => 226u8,
        96u8 => 217u8,
        97u8 => 175u8,
        98u8 => 67u8,
        99u8 => 134u8,
        100u8 => 17u8,
        101u8 => 34u8,
        102u8 => 68u8,
        103u8 => 136u8,
        104u8 => 13u8,
        105u8 => 26u8,
        106u8 => 52u8,
        107u8 => 104u8,
        108u8 => 208u8,
        109u8 => 189u8,
        110u8 => 103u8,
        111u8 => 206u8,
        112u8 => 129u8,
        113u8 => 31u8,
        114u8 => 62u8,
        115u8 => 124u8,
        116u8 => 248u8,
        117u8 => 237u8,
        118u8 => 199u8,
        119u8 => 147u8,
        120u8 => 59u8,
        121u8 => 118u8,
        122u8 => 236u8,
        123u8 => 197u8,
        124u8 => 151u8,
        125u8 => 51u8,
        126u8 => 102u8,
        127u8 => 204u8,
        128u8 => 133u8,
        129u8 => 23u8,
        130u8 => 46u8,
        131u8 => 92u8,
        132u8 => 184u8,
        133u8 => 109u8,
        134u8 => 218u8,
        135u8 => 169u8,
        136u8 => 79u8,
        137u8 => 158u8,
        138u8 => 33u8,
        139u8 => 66u8,
        140u8 => 132u8,
        141u8 => 21u8,
        142u8 => 42u8,
        143u8 => 84u8,
        144u8 => 168u8,
        145u8 => 77u8,
        146u8 => 154u8,
        147u8 => 41u8,
        148u8 => 82u8,
        149u8 => 164u8,
        150u8 => 85u8,
        151u8 => 170u8,
        152u8 => 73u8,
        153u8 => 146u8,
        154u8 => 57u8,
        155u8 => 114u8,
        156u8 => 228u8,
        157u8 => 213u8,
        158u8 => 183u8,
        159u8 => 115u8,
        160u8 => 230u8,
        161u8 => 209u8,
        162u8 => 191u8,
        163u8 => 99u8,
        164u8 => 198u8,
        165u8 => 145u8,
        166u8 => 63u8,
        167u8 => 126u8,
        168u8 => 252u8,
        169u8 => 229u8,
        170u8 => 215u8,
        171u8 => 179u8,
        172u8 => 123u8,
        173u8 => 246u8,
        174u8 => 241u8,
        175u8 => 255u8,
        176u8 => 227u8,
        177u8 => 219u8,
        178u8 => 171u8,
        179u8 => 75u8,
        180u8 => 150u8,
        181u8 => 49u8,
        182u8 => 98u8,
        183u8 => 196u8,
        184u8 => 149u8,
        185u8 => 55u8,
        186u8 => 110u8,
        187u8 => 220u8,
        188u8 => 165u8,
        189u8 => 87u8,
        190u8 => 174u8,
        191u8 => 65u8,
        192u8 => 130u8,
        193u8 => 25u8,
        194u8 => 50u8,
        195u8 => 100u8,
        196u8 => 200u8,
        197u8 => 141u8,
        198u8 => 7u8,
        199u8 => 14u8,
        200u8 => 28u8,
        201u8 => 56u8,
        202u8 => 112u8,
        203u8 => 224u8,
        204u8 => 221u8,
        205u8 => 167u8,
        206u8 => 83u8,
        207u8 => 166u8,
        208u8 => 81u8,
        209u8 => 162u8,
        210u8 => 89u8,
        211u8 => 178u8,
        212u8 => 121u8,
        213u8 => 242u8,
        214u8 => 249u8,
        215u8 => 239u8,
        216u8 => 195u8,
        217u8 => 155u8,
        218u8 => 43u8,
        219u8 => 86u8,
        220u8 => 172u8,
        221u8 => 69u8,
        222u8 => 138u8,
        223u8 => 9u8,
        224u8 => 18u8,
        225u8 => 36u8,
        226u8 => 72u8,
        227u8 => 144u8,
        228u8 => 61u8,
        229u8 => 122u8,
        230u8 => 244u8,
        231u8 => 245u8,
        232u8 => 247u8,
        233u8 => 243u8,
        234u8 => 251u8,
        235u8 => 235u8,
        236u8 => 203u8,
        237u8 => 139u8,
        238u8 => 11u8,
        239u8 => 22u8,
        240u8 => 44u8,
        241u8 => 88u8,
        242u8 => 176u8,
        243u8 => 125u8,
        244u8 => 250u8,
        245u8 => 233u8,
        246u8 => 207u8,
        247u8 => 131u8,
        248u8 => 27u8,
        249u8 => 54u8,
        250u8 => 108u8,
        251u8 => 216u8,
        252u8 => 173u8,
        253u8 => 71u8,
        254u8 => 142u8,
        _ => 1u8,
    }
}

proof fn lemma_alpha_table_steps()
    ensures
        forall|k: u8| k < 255u8 ==> #[trigger] xtime(alpha_table(k)) == alpha_table((k + 1) as u8),
{
    assert(xtime(1u8) == 2u8 && xtime(2u8) == 4u8 && xtime(4u8) == 8u8 && xtime(8u8) == 16u8 && xtime(16u8) == 32u8 && xtime(32u8) == 64u8 && xtime(64u8) == 128u8 && xtime(128u8) == 29u8 && xtime(29u8) == 58u8 && xtime(58u8) == 116u8 && xtime(116u8) == 232u8 && xtime(232u8) == 205u8 && xtime(205u8) == 135u8 && xtime(135u8) == 19u8 && xtime(19u8) == 38u8 && xtime(38u8) == 76u8 && xtime(76u8) == 152u8 && xtime(152u8) == 45u8 && xtime(45u8) == 90u8 && xtime(90u8) == 180u8 && xtime(180u8) == 117u8 && xtime(117u8) == 234u8 && xtime(234u8) == 201u8 && xtime(201u8) == 143u8 && xtime(143u8) == 3u8 && xtime(3u8) == 6u8 && xtime(6u8) == 12u8 && xtime(12u8) == 24u8 && xtime(24u8) == 48u8 && xtime(48u8) == 96u8 && xtime(96u8) == 192u8 && xtime(192u8) == 157u8 && xtime(157u8) == 39u8 && xtime(39u8) == 78u8 && xtime(78u8) == 156u8 && xtime(156u8) == 37u8 && xtime(37u8) == 74u8 && xtime(74u8) == 148u8 && xtime(148u8) == 53u8 && xtime(53u8) == 106u8 && xtime(106u8) == 212u8 && xtime(212u8) == 181u8 && xtime(181u8) == 119u8 && xtime(119u8) == 238u8 && xtime(238u8) == 193u8 && xtime(193u8) == 159u8 && xtime(159u8) == 35u8 && xtime(35u8) == 70u8 && xtime(70u8) == 140u8 && xtime(140u8) == 5u8 && xtime(5u8) == 10u8 && xtime(10u8) == 20u8 && xtime(20u8) == 40u8 && xtime(40u8) == 80u8 && xtime(80u8) == 160u8 && xtime(160u8) == 93u8 && xtime(93u8) == 186u8 && xtime(186u8) == 105u8 && xtime(105u8) == 210u8 && xtime(210u8) == 185u8 && xtime(185u8) == 111u8 && xtime(111u8) == 222u8 && xtime(222u8) == 161u8 && xtime(161u8) == 95u8 && xtime(95u8) == 190u8 && xtime(190u8) == 97u8 && xtime(97u8) == 194u8 && xtime(194u8) == 153u8 && xtime(153u8) == 47u8 && xtime(47u8) == 94u8 && xtime(94u8) == 188u8 && xtime(188u8) == 101u8 && xtime(101u8) == 202u8 && xtime(202u8) == 137u8 && xtime(137u8) == 15u8 && xtime(15u8) == 30u8 && xtime(30u8) == 60u8 && xtime(60u8) == 120u8 && xtime(120u8) == 240u8 && xtime(240u8) == 253u8 && xtime(253u8) == 231u8 && xtime(231u8) == 211u8 && xtime(211u8) == 187u8 && xtime(187u8) == 107u8 && xtime(107u8) == 214u8 && xtime(214u8) == 177u8 && xtime(177u8) == 127u8 && xtime(127u8) == 254u8 && xtime(254u8) == 225u8 && xtime(225u8) == 223u8 && xtime(223u8) == 163u8 && xtime(163u8) == 91u8 && xtime(91u8) == 182u8 && xtime(182u8) == 113u8 && xtime(113u8) == 226u8 && xtime(226u8) == 217u8 && xtime(217u8) == 175u8 && xtime(175u8) == 67u8 && xtime(67u8) == 134u8 && xtime(134u8) == 17u8 && xtime(17u8) == 34u8 && xtime(34u8) == 68u8 && xtime(68u8) == 136u8 && xtime(136u8) == 13u8 && xtime(13u8) == 26u8 && xtime(26u8) == 52u8 && xtime(52u8) == 104u8 && xtime(104u8) == 208u8 && xtime(208u8) == 189u8 && xtime(189u8) == 103u8 && xtime(103u8) == 206u8 && xtime(206u8) == 129u8 && xtime(129u8) == 31u8 && xtime(31u8) == 62u8 && xtime(62u8) == 124u8 && xtime(124u8) == 248u8 && xtime(248u8) == 237u8 && xtime(237u8) == 199u8 && xtime(199u8) == 147u8 && xtime(147u8) == 59u8 && xtime(59u8) == 118u8 && xtime(118u8) == 236u8 && xtime(236u8) == 197u8 && xtime(197u8) == 151u8 && xtime(151u8) == 51u8 && xtime(51u8) == 102u8 && xtime(102u8) == 204u8 && xtime(204u8) == 133u8 && xtime(133u8) == 23u8 && xtime(23u8) == 46u8 && xtime(46u8) == 92u8 && xtime(92u8) == 184u8 && xtime(184u8) == 109u8 && xtime(109u8) == 218u8 && xtime(218u8) == 169u8 && xtime(169u8) == 79u8 && xtime(79u8) == 158u8 && xtime(158u8) == 33u8 && xtime(33u8) == 66u8 && xtime(66u8) == 132u8 && xtime(132u8) == 21u8 && xtime(21u8) == 42u8 && xtime(42u8) == 84u8 && xtime(84u8) == 168u8 && xtime(168u8) == 77u8 && xtime(77u8) == 154u8 && xtime(154u8) == 41u8 && xtime(41u8) == 82u8 && xtime(82u8) == 164u8 && xtime(164u8) == 85u8 && xtime(85u8) == 170u8 && xtime(170u8) == 73u8 && xtime(73u8) == 146u8 && xtime(146u8) == 57u8 && xtime(57u8) == 114u8 && xtime(114u8) == 228u8 && xtime(228u8) == 213u8 && xtime(213u8) == 183u8 && xtime(183u8) == 115u8 && xtime(115u8) == 230u8 && xtime(230u8) == 209u8 && xtime(209u8) == 191u8 && xtime(191u8) == 99u8 && xtime(99u8) == 198u8 && xtime(198u8) == 145u8 && xtime(145u8) == 63u8 && xtime(63u8) == 126u8 && xtime(126u8) == 252u8 && xtime(252u8) == 229u8 && xtime(229u8) == 215u8 && xtime(215u8) == 179u8 && xtime(179u8) == 123u8 && xtime(123u8) == 246u8 && xtime(246u8) == 241u8 && xtime(241u8) == 255u8 && xtime(255u8) == 227u8 && xtime(227u8) == 219u8 && xtime(219u8) == 171u8 && xtime(171u8) == 75u8 && xtime(75u8) == 150u8 && xtime(150u8) == 49u8 && xtime(49u8) == 98u8 && xtime(98u8) == 196u8 && xtime(196u8) == 149u8 && xtime(149u8) == 55u8 && xtime(55u8) == 110u8 && xtime(110u8) == 220u8 && xtime(220u8) == 165u8 && xtime(165u8) == 87u8 && xtime(87u8) == 174u8 && xtime(174u8) == 65u8 && xtime(65u8) == 130u8 && xtime(130u8) == 25u8 && xtime(25u8) == 50u8 && xtime(50u8) == 100u8 && xtime(100u8) == 200u8 && xtime(200u8) == 141u8 && xtime(141u8) == 7u8 && xtime(7u8) == 14u8 && xtime(14u8) == 28u8 && xtime(28u8) == 56u8 && xtime(56u8) == 112u8 && xtime(112u8) == 224u8 && xtime(224u8) == 221u8 && xtime(221u8) == 167u8 && xtime(167u8) == 83u8 && xtime(83u8) == 166u8 && xtime(166u8) == 81u8 && xtime(81u8) == 162u8 && xtime(162u8) == 89u8 && xtime(89u8) == 178u8 && xtime(178u8) == 121u8 && xtime(121u8) == 242u8 && xtime(242u8) == 249u8 && xtime(249u8) == 239u8 && xtime(239u8) == 195u8 && xtime(195u8) == 155u8 && xtime(155u8) == 43u8 && xtime(43u8) == 86u8 && xtime(86u8) == 172u8 && xtime(172u8) == 69u8 && xtime(69u8) == 138u8 && xtime(138u8) == 9u8 && xtime(9u8) == 18u8 && xtime(18u8) == 36u8 && xtime(36u8) == 72u8 && xtime(72u8) == 144u8 && xtime(144u8) == 61u8 && xtime(61u8) == 122u8 && xtime(122u8) == 244u8 && xtime(244u8) == 245u8 && xtime(245u8) == 247u8 && xtime(247u8) == 243u8 && xtime(243u8) == 251u8 && xtime(251u8) == 235u8 && xtime(235u8) == 203u8 && xtime(203u8) == 139u8 && xtime(139u8) == 11u8 && xtime(11u8) == 22u8 && xtime(22u8) == 44u8 && xtime(44u8) == 88u8 && xtime(88u8) == 176u8 && xtime(176u8) == 125u8 && xtime(125u8) == 250u8 && xtime(250u8) == 233u8 && xtime(233u8) == 207u8 && xtime(207u8) == 131u8 && xtime(131u8) == 27u8 && xtime(27u8) == 54u8 && xtime(54u8) == 108u8 && xtime(108u8) == 216u8 && xtime(216u8) == 173u8 && xtime(173u8) == 71u8 && xtime(71u8) == 142u8 && xtime(142u8) == 1u8) by (bit_vector);
    assert forall|k: u8| k < 255u8 implies #[trigger] xtime(alpha_table(k)) == alpha_table((k + 1) as u8) by {
    }
}

proof fn lemma_alpha_pow_table(k: nat)
    requires
        k <= 255,
    ensures
        alpha_pow(k) == alpha_table(k as u8),
    decreases k,
{
    if k > 0 {
        lemma_alpha_pow_table((k - 1) as nat);
        lemma_mul_commutative(alpha_pow((k - 1) as nat), 2u8);
        lemma_mul_basis(alpha_pow((k - 1) as nat));
        lemma_alpha_table_steps();
        assert(xtime(alpha_table(((k - 1) as nat) as u8)) == alpha_table((((k - 1) as nat) as u8 + 1) as u8));
        assert((((k - 1) as nat) as u8 + 1) as u8 == k as u8);
    }
}

/// alpha has order 255: alpha^255 = 1 and alpha^k != 1 for 0 < k < 255.
pub proof fn lemma_alpha_order(k: nat)
    ensures
        alpha_pow(255) == 1u8,
        0 < k < 255 ==> alpha_pow(k) != 1u8,
{
    lemma_alpha_pow_table(255);
    if 0 < k < 255 {
        lemma_alpha_pow_table(k);
        assert(alpha_table(k as u8) != 1u8);
    }
}

/// The carry-less product of `a` and `b`: the xor of `a` shifted left by each set bit of `b`.
pub open spec fn carryless_product(a: u8, b: u8) -> u16 {
    let x = a as u16;
    (if b & 1u8 != 0 { x } else { 0u16 }) ^ (if b & 2u8 != 0 { x << 1u16 } else { 0u16 }) ^ (if b & 4u8
        != 0 { x << 2u16 } else { 0u16 }) ^ (if b & 8u8 != 0 { x << 3u16 } else { 0u16 }) ^ (if b
        & 16u8 != 0 { x << 4u16 } else { 0u16 }) ^ (if b & 32u8 != 0 { x << 5u16 } else { 0u16 }) ^ (
    if b & 64u8 != 0 { x << 6u16 } else { 0u16 }) ^ (if b & 128u8 != 0 { x << 7u16 } else { 0u16 })
}

/// Reduction of a polynomial of degree below 15 modulo x^8 + x^4 + x^3 + x^2 + 1: from the
/// top bit down, each set bit at or above 8 is cleared by adding a shifted 0x11D.
pub open spec fn reduce_0x11d(p: u16) -> u8 {
    let p6 = if p & 0x4000u16 != 0 { p ^ (0x11Du16 << 6u16) } else { p };
    let p5 = if p6 & 0x2000u16 != 0 { p6 ^ (0x11Du16 << 5u16) } else { p6 };
    let p4 = if p5 & 0x1000u16 != 0 { p5 ^ (0x11Du16 << 4u16) } else { p5 };
    let p3 = if p4 & 0x0800u16 != 0 { p4 ^ (0x11Du16 << 3u16) } else { p4 };
    let p2 = if p3 & 0x0400u16 != 0 { p3 ^ (0x11Du16 << 2u16) } else { p3 };
    let p1 = if p2 & 0x0200u16 != 0 { p2 ^ (0x11Du16 << 1u16) } else { p2 };
    let p0 = if p1 & 0x0100u16 != 0 { p1 ^ 0x11Du16 } else { p1 };
    p0 as u8
}

/// Field multiplication is the carry-less product reduced modulo 0x11D.
#[verifier::rlimit(100)]
pub proof fn lemma_mul_is_reduced_product(a: u8, b: u8)
    ensures
        gf_mul(a, b) == reduce_0x11d(carryless_product(a, b)),
{
    reveal(gf_mul);
    assert(gf_mul(a, b) == reduce_0x11d(carryless_product(a, b))) by (bit_vector);
}

} // verus!
