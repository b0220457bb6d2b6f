//! Reed-Solomon forward error correction over GF(2^8).
//!
//! Field: GF(2^8) with primitive polynomial 0x11D, generator alpha = 2.
//! Default block: 239 data bytes and 16 parity bytes (255 in all), which
//! corrects up to 8 damaged bytes per block.

use crate::gf256::{
    alpha_pow, gf_inv, gf_mul, lemma_mul_associative, lemma_mul_basis, lemma_mul_commutative,
    lemma_mul_distributive, lemma_mul_identity_zero, lemma_mul_inverse, lemma_peval_leading_zero,
    lemma_peval_concat, lemma_peval_linear, lemma_peval_trailing_zero, lemma_peval_zeros,
    lemma_xor_facts, gf_pow, peval, select_bit, xtime, zeros,
};
use crate::fec_single::{
    asc_eval, conv, conv_term, lemma_alpha_pow_nonzero, lemma_asc_eval_constant,
    lemma_asc_eval_linear, lemma_chien_test, lemma_single_error_omega,
    lemma_clean_block, lemma_located_block, lemma_single_error_recurrence, lemma_single_error_second_step,
    lemma_single_error_unique, one_error_per_block, single_error_restorable,
    single_error_syndromes,
};
use crate::text::{push_decimal, push_str};
use vstd::prelude::*;

verus! {

/// Default number of data bytes per block.
pub const DEFAULT_DATA_BLOCK_LEN: usize = 239;

/// Default number of parity bytes per block (2t = 16, so t = 8).
pub const DEFAULT_PARITY_LEN: usize = 16;

/// Number of precomputed powers of alpha.
pub const ALPHA_TABLE_LEN: usize = 512;

fn xtime_exec(a: u8) -> (r: u8)
    ensures
        r == xtime(a),
{
    if a & 0x80u8 == 0 {
        a << 1u8
    } else {
        (a << 1u8) ^ 0x1Du8
    }
}

fn select_bit_exec(a: u8, b: u8, k: u8) -> (r: u8)
    requires
        k < 8,
    ensures
        r == select_bit(a, b, k),
{
    if (b >> k) & 1u8 == 1u8 {
        a
    } else {
        0u8
    }
}

proof fn lemma_alpha_pow_step(n: nat)
    ensures
        alpha_pow(n + 1) == xtime(alpha_pow(n)),
{
    lemma_mul_commutative(alpha_pow(n), 2u8);
    lemma_mul_basis(alpha_pow(n));
    assert(alpha_pow(n + 1) == gf_mul(alpha_pow(n), 2u8));
}

/// GF(2^8) arithmetic with a table of the powers of alpha.
pub struct GaloisField {
    exp: Vec<u8>,
}

impl GaloisField {
    #[verifier::type_invariant]
    spec fn table_holds_powers(&self) -> bool {
        &&& self.exp@.len() == ALPHA_TABLE_LEN
        &&& forall|i: int| 0 <= i < ALPHA_TABLE_LEN ==> self.exp@[i] == alpha_pow(i as nat)
    }

    /// The table of precomputed values.
    pub closed spec fn powers(&self) -> Seq<u8> {
        self.exp@
    }

    /// Builds the table of the powers of alpha: entry `i` is alpha^i.
    pub fn new() -> (r: Self)
        ensures
            r.powers() == Seq::new(ALPHA_TABLE_LEN as nat, |i: int| alpha_pow(i as nat)),
    {
        let mut exp: Vec<u8> = Vec::with_capacity(ALPHA_TABLE_LEN);
        let mut x: u8 = 1;
        let mut i: usize = 0;
        while i < ALPHA_TABLE_LEN
            invariant
                i <= ALPHA_TABLE_LEN,
                exp@.len() == i,
                x == alpha_pow(i as nat),
                forall|j: int| 0 <= j < i ==> exp@[j] == alpha_pow(j as nat),
            decreases ALPHA_TABLE_LEN - i,
        {
            exp.push(x);
            proof {
                lemma_alpha_pow_step(i as nat);
            }
            x = xtime_exec(x);
            i = i + 1;
        }
        proof {
            assert(exp@ =~= Seq::new(ALPHA_TABLE_LEN as nat, |i: int| alpha_pow(i as nat)));
        }
        GaloisField { exp }
    }

    /// alpha^i.
    pub fn pow_alpha(&self, i: usize) -> (r: u8)
        requires
            i < ALPHA_TABLE_LEN,
        ensures
            r == alpha_pow(i as nat),
    {
        proof {
            use_type_invariant(self);
        }
        self.exp[i]
    }

    /// Field product of `a` and `b`.
    pub fn mul(&self, a: u8, b: u8) -> (r: u8)
        ensures
            r == gf_mul(a, b),
    {
        proof {
            reveal(gf_mul);
        }
        let a1 = xtime_exec(a);
        let a2 = xtime_exec(a1);
        let a3 = xtime_exec(a2);
        let a4 = xtime_exec(a3);
        let a5 = xtime_exec(a4);
        let a6 = xtime_exec(a5);
        let a7 = xtime_exec(a6);
        select_bit_exec(a, b, 0) ^ select_bit_exec(a1, b, 1) ^ select_bit_exec(a2, b, 2)
            ^ select_bit_exec(a3, b, 3) ^ select_bit_exec(a4, b, 4) ^ select_bit_exec(a5, b, 5)
            ^ select_bit_exec(a6, b, 6) ^ select_bit_exec(a7, b, 7)
    }

    /// Multiplicative inverse of a nonzero element.
    pub fn inv(&self, a: u8) -> (r: u8)
        requires
            a != 0,
        ensures
            r == gf_inv(a),
            gf_mul(a, r) == 1,
    {
        proof {
            lemma_mul_inverse(a);
        }
        match a {
            0u8 => 0u8,
            1u8 => 1u8,
            2u8 => 142u8,
            3u8 => 244u8,
            4u8 => 71u8,
            5u8 => 167u8,
            6u8 => 122u8,
            7u8 => 186u8,
            8u8 => 173u8,
            9u8 => 157u8,
            10u8 => 221u8,
            11u8 => 152u8,
            12u8 => 61u8,
            13u8 => 170u8,
            14u8 => 93u8,
            15u8 => 150u8,
            16u8 => 216u8,
            17u8 => 114u8,
            18u8 => 192u8,
            19u8 => 88u8,
            20u8 => 224u8,
            21u8 => 62u8,
            22u8 => 76u8,
            23u8 => 102u8,
            24u8 => 144u8,
            25u8 => 222u8,
            26u8 => 85u8,
            27u8 => 128u8,
            28u8 => 160u8,
            29u8 => 131u8,
            30u8 => 75u8,
            31u8 => 42u8,
            32u8 => 108u8,
            33u8 => 237u8,
            34u8 => 57u8,
            35u8 => 81u8,
            36u8 => 96u8,
            37u8 => 86u8,
            38u8 => 44u8,
            39u8 => 138u8,
            40u8 => 112u8,
            41u8 => 208u8,
            42u8 => 31u8,
            43u8 => 74u8,
            44u8 => 38u8,
            45u8 => 139u8,
            46u8 => 51u8,
            47u8 => 110u8,
            48u8 => 72u8,
            49u8 => 137u8,
            50u8 => 111u8,
            51u8 => 46u8,
            52u8 => 164u8,
            53u8 => 195u8,
            54u8 => 64u8,
            55u8 => 94u8,
            56u8 => 80u8,
            57u8 => 34u8,
            58u8 => 207u8,
            59u8 => 169u8,
            60u8 => 171u8,
            61u8 => 12u8,
            62u8 => 21u8,
            63u8 => 225u8,
            64u8 => 54u8,
            65u8 => 95u8,
            66u8 => 248u8,
            67u8 => 213u8,
            68u8 => 146u8,
            69u8 => 78u8,
            70u8 => 166u8,
            71u8 => 4u8,
            72u8 => 48u8,
            73u8 => 136u8,
            74u8 => 43u8,
            75u8 => 30u8,
            76u8 => 22u8,
            77u8 => 103u8,
            78u8 => 69u8,
            79u8 => 147u8,
            80u8 => 56u8,
            81u8 => 35u8,
            82u8 => 104u8,
            83u8 => 140u8,
            84u8 => 129u8,
            85u8 => 26u8,
            86u8 => 37u8,
            87u8 => 97u8,
            88u8 => 19u8,
            89u8 => 193u8,
            90u8 => 203u8,
            91u8 => 99u8,
            92u8 => 151u8,
            93u8 => 14u8,
            94u8 => 55u8,
            95u8 => 65u8,
            96u8 => 36u8,
            97u8 => 87u8,
            98u8 => 202u8,
            99u8 => 91u8,
            100u8 => 185u8,
            101u8 => 196u8,
            102u8 => 23u8,
            103u8 => 77u8,
            104u8 => 82u8,
            105u8 => 141u8,
            106u8 => 239u8,
            107u8 => 179u8,
            108u8 => 32u8,
            109u8 => 236u8,
            110u8 => 47u8,
            111u8 => 50u8,
            112u8 => 40u8,
            113u8 => 209u8,
            114u8 => 17u8,
            115u8 => 217u8,
            116u8 => 233u8,
            117u8 => 251u8,
            118u8 => 218u8,
            119u8 => 121u8,
            120u8 => 219u8,
            121u8 => 119u8,
            122u8 => 6u8,
            123u8 => 187u8,
            124u8 => 132u8,
            125u8 => 205u8,
            126u8 => 254u8,
            127u8 => 252u8,
            128u8 => 27u8,
            129u8 => 84u8,
            130u8 => 161u8,
            131u8 => 29u8,
            132u8 => 124u8,
            133u8 => 204u8,
            134u8 => 228u8,
            135u8 => 176u8,
            136u8 => 73u8,
            137u8 => 49u8,
            138u8 => 39u8,
            139u8 => 45u8,
            140u8 => 83u8,
            141u8 => 105u8,
            142u8 => 2u8,
            143u8 => 245u8,
            144u8 => 24u8,
            145u8 => 223u8,
            146u8 => 68u8,
            147u8 => 79u8,
            148u8 => 155u8,
            149u8 => 188u8,
            150u8 => 15u8,
            151u8 => 92u8,
            152u8 => 11u8,
            153u8 => 220u8,
            154u8 => 189u8,
            155u8 => 148u8,
            156u8 => 172u8,
            157u8 => 9u8,
            158u8 => 199u8,
            159u8 => 162u8,
            160u8 => 28u8,
            161u8 => 130u8,
            162u8 => 159u8,
            163u8 => 198u8,
            164u8 => 52u8,
            165u8 => 194u8,
            166u8 => 70u8,
            167u8 => 5u8,
            168u8 => 206u8,
            169u8 => 59u8,
            170u8 => 13u8,
            171u8 => 60u8,
            172u8 => 156u8,
            173u8 => 8u8,
            174u8 => 190u8,
            175u8 => 183u8,
            176u8 => 135u8,
            177u8 => 229u8,
            178u8 => 238u8,
            179u8 => 107u8,
            180u8 => 235u8,
            181u8 => 242u8,
            182u8 => 191u8,
            183u8 => 175u8,
            184u8 => 197u8,
            185u8 => 100u8,
            186u8 => 7u8,
            187u8 => 123u8,
            188u8 => 149u8,
            189u8 => 154u8,
            190u8 => 174u8,
            191u8 => 182u8,
            192u8 => 18u8,
            193u8 => 89u8,
            194u8 => 165u8,
            195u8 => 53u8,
            196u8 => 101u8,
            197u8 => 184u8,
            198u8 => 163u8,
            199u8 => 158u8,
            200u8 => 210u8,
            201u8 => 247u8,
            202u8 => 98u8,
            203u8 => 90u8,
            204u8 => 133u8,
            205u8 => 125u8,
            206u8 => 168u8,
            207u8 => 58u8,
            208u8 => 41u8,
            209u8 => 113u8,
            210u8 => 200u8,
            211u8 => 246u8,
            212u8 => 249u8,
            213u8 => 67u8,
            214u8 => 215u8,
            215u8 => 214u8,
            216u8 => 16u8,
            217u8 => 115u8,
            218u8 => 118u8,
            219u8 => 120u8,
            220u8 => 153u8,
            221u8 => 10u8,
            222u8 => 25u8,
            223u8 => 145u8,
            224u8 => 20u8,
            225u8 => 63u8,
            226u8 => 230u8,
            227u8 => 240u8,
            228u8 => 134u8,
            229u8 => 177u8,
            230u8 => 226u8,
            231u8 => 241u8,
            232u8 => 250u8,
            233u8 => 116u8,
            234u8 => 243u8,
            235u8 => 180u8,
            236u8 => 109u8,
            237u8 => 33u8,
            238u8 => 178u8,
            239u8 => 106u8,
            240u8 => 227u8,
            241u8 => 231u8,
            242u8 => 181u8,
            243u8 => 234u8,
            244u8 => 3u8,
            245u8 => 143u8,
            246u8 => 211u8,
            247u8 => 201u8,
            248u8 => 66u8,
            249u8 => 212u8,
            250u8 => 232u8,
            251u8 => 117u8,
            252u8 => 127u8,
            253u8 => 255u8,
            254u8 => 126u8,
            _ => 253u8,
        }
    }

    /// Field quotient `a / b` for nonzero `b`.
    pub fn div(&self, a: u8, b: u8) -> (r: u8)
        requires
            b != 0,
        ensures
            r == gf_mul(a, gf_inv(b)),
            gf_mul(r, b) == a,
            a == 0 ==> r == 0,
    {
        let ib = self.inv(b);
        let r = self.mul(a, ib);
        proof {
            lemma_mul_associative(a, ib, b);
            lemma_mul_commutative(ib, b);
            lemma_mul_identity_zero(a);
            lemma_mul_identity_zero(ib);
        }
        r
    }

    /// Horner evaluation of `poly` (highest coefficient first) at `x`.
    pub fn poly_eval(&self, poly: &[u8], x: u8) -> (r: u8)
        ensures
            r == peval(poly@, x),
    {
        if poly.len() == 0 {
            return 0;
        }
        let mut y = poly[0];
        proof {
            let p1 = poly@.subrange(0, 1);
            assert(p1.drop_last() =~= Seq::<u8>::empty());
            lemma_mul_identity_zero(x);
            lemma_xor_facts(poly@[0], 0);
            assert(peval(p1, x) == gf_mul(peval(p1.drop_last(), x), x) ^ p1.last());
        }
        let mut i: usize = 1;
        while i < poly.len()
            invariant
                1 <= i <= poly@.len(),
                y == peval(poly@.subrange(0, i as int), x),
            decreases poly@.len() - i,
        {
            proof {
                assert(poly@.subrange(0, i + 1).drop_last() =~= poly@.subrange(0, i as int));
            }
            y = self.mul(y, x) ^ poly[i];
            i = i + 1;
        }
        proof {
            assert(poly@.subrange(0, poly@.len() as int) =~= poly@);
        }
        y
    }
}

/// The product (x + alpha^0) ... (x + alpha^(n-1)), highest coefficient first, built one
/// factor at a time.
pub open spec fn rs_generator(n: nat) -> Seq<u8>
    decreases n,
{
    if n == 0 {
        seq![1u8]
    } else {
        let g = rs_generator((n - 1) as nat);
        let root = alpha_pow((n - 1) as nat);
        Seq::new(g.len() + 1, |j: int| g.push(0u8)[j] ^ gf_mul((seq![0u8] + g)[j], root))
    }
}

/// Polynomial whose roots are alpha^0 .. alpha^(n-1) (monic, highest coefficient first).
pub open spec fn is_generator_poly(g: Seq<u8>, n: nat) -> bool {
    &&& g.len() == n + 1
    &&& g[0] == 1
    &&& forall|i: nat| i < n ==> #[trigger] peval(g, alpha_pow(i)) == 0
}

proof fn lemma_generator_step(g: Seq<u8>, root: u8, a: u8)
    ensures
        peval(
            Seq::new(g.len() + 1, |j: int| g.push(0u8)[j] ^ gf_mul((seq![0u8] + g)[j], root)),
            a,
        ) == gf_mul(peval(g, a), a ^ root),
{
    let u = g.push(0u8);
    let v = seq![0u8] + g;
    lemma_peval_linear(u, v, root, a);
    lemma_peval_trailing_zero(g, a);
    lemma_peval_leading_zero(g, a);
    lemma_mul_commutative(root, peval(g, a));
    lemma_mul_distributive(peval(g, a), a, root);
}

/// Builds g(x) = (x - alpha^0)(x - alpha^1)...(x - alpha^(parity_len-1)).
pub fn rs_generator_poly(parity_len: usize) -> (g: Vec<u8>)
    requires
        parity_len <= ALPHA_TABLE_LEN,
    ensures
        is_generator_poly(g@, parity_len as nat),
        g@ == rs_generator(parity_len as nat),
{
    let gf = GaloisField::new();
    let mut g: Vec<u8> = vec![1u8];
    proof {
        assert(g@ =~= seq![1u8]);
    }
    let mut i: usize = 0;
    while i < parity_len
        invariant
            i <= parity_len <= ALPHA_TABLE_LEN,
            is_generator_poly(g@, i as nat),
            g@ == rs_generator(i as nat),
        decreases parity_len - i,
    {
        let root = gf.pow_alpha(i);
        let n = g.len();
        let mut next_g: Vec<u8> = vec![0u8; n + 1];
        let ghost u = g@.push(0u8);
        let ghost v = seq![0u8] + g@;
        proof {
            lemma_mul_identity_zero(root);
        }
        let mut j: usize = 0;
        while j < n
            invariant
                n == g@.len(),
                u == g@.push(0u8),
                v == seq![0u8] + g@,
                next_g@.len() == n + 1,
                j <= n,
                forall|t: int| 0 <= t < j ==> next_g@[t] == u[t] ^ gf_mul(v[t], root),
                next_g@[j as int] == gf_mul(v[j as int], root),
                forall|t: int| j < t <= n ==> next_g@[t] == 0u8,
            decreases n - j,
        {
            let gj = g[j];
            proof {
                lemma_xor_facts(next_g@[j as int], gj);
                lemma_xor_facts(gf_mul(gj, root), 0);
                assert(v[j + 1] == g@[j as int]);
                assert(u[j as int] == gj);
            }
            next_g.set(j, next_g[j] ^ gj);
            let m = gf.mul(gj, root);
            next_g.set(j + 1, next_g[j + 1] ^ m);
            j = j + 1;
        }
        proof {
            lemma_xor_facts(gf_mul(v[n as int], root), 0);
            assert(next_g@ =~= Seq::new((n + 1) as nat, |t: int| u[t] ^ gf_mul(v[t], root)));
            assert forall|k: nat| k < i + 1 implies #[trigger] peval(next_g@, alpha_pow(k)) == 0 by {
                lemma_generator_step(g@, root, alpha_pow(k));
                if k < i {
                    assert(peval(g@, alpha_pow(k)) == 0);
                    lemma_mul_identity_zero(alpha_pow(k) ^ root);
                } else {
                    lemma_xor_facts(root, root);
                    lemma_mul_identity_zero(peval(g@, alpha_pow(k)));
                }
            }
            lemma_xor_facts(1u8, 0);
        }
        g = next_g;
        i = i + 1;
    }
    g
}

/// Every root alpha^i (i < p) of `c` is zero: `c` is a Reed-Solomon codeword with p parity symbols.
pub open spec fn is_codeword(c: Seq<u8>, p: nat) -> bool {
    forall|i: nat| i < p ==> #[trigger] peval(c, alpha_pow(i)) == 0
}

/// The register after one step of the parity shift register: shift left, then add
/// `fb` times the non-leading generator coefficients.
pub open spec fn lfsr_next(r: Seq<u8>, gen: Seq<u8>, fb: u8) -> Seq<u8> {
    let t = r.subrange(1, r.len() as int).push(0u8);
    Seq::new(r.len(), |j: int| t[j] ^ gf_mul(gen[j + 1], fb))
}

proof fn lemma_peval_single(c: u8, a: u8)
    ensures
        peval(seq![c], a) == c,
{
    let z = seq![c];
    assert(z.drop_last() =~= Seq::<u8>::empty());
    lemma_mul_identity_zero(a);
    lemma_xor_facts(c, 0);
    assert(peval(z, a) == gf_mul(peval(z.drop_last(), a), a) ^ z.last());
}

/// One step of the parity register keeps `message prefix ++ register` a multiple of the
/// generator at each of its roots.
#[verifier::spinoff_prover]
#[verifier::rlimit(50)]
proof fn lemma_lfsr_step(s: Seq<u8>, r: Seq<u8>, b: u8, gen: Seq<u8>, a: u8)
    requires
        r.len() >= 1,
        gen.len() == r.len() + 1,
        gen[0] == 1,
        peval(gen, a) == 0,
        peval(s + r, a) == 0,
    ensures
        peval(s.push(b) + lfsr_next(r, gen, b ^ r[0]), a) == 0,
{
    let p = r.len();
    let r0 = r[0];
    let fb = b ^ r0;
    let t = r.subrange(1, p as int);
    let g2 = gen.subrange(1, (p + 1) as int);
    let rn = lfsr_next(r, gen, fb);
    let big_a = gf_pow(a, p);
    let a1 = gf_pow(a, (p - 1) as nat);
    let ps = peval(s, a);
    let pt = peval(t, a);
    // register value
    assert(r =~= seq![r0] + t);
    lemma_peval_concat(seq![r0], t, a);
    lemma_peval_single(r0, a);
    assert(t.len() == p - 1);
    // next register value
    assert(rn =~= Seq::new(p, |j: int| t.push(0u8)[j] ^ gf_mul(g2[j], fb)));
    lemma_peval_linear(t.push(0u8), g2, fb, a);
    lemma_peval_trailing_zero(t, a);
    // generator root
    assert(gen =~= seq![1u8] + g2);
    lemma_peval_concat(seq![1u8], g2, a);
    lemma_peval_single(1u8, a);
    lemma_mul_identity_zero(big_a);
    let pg = peval(g2, a);
    assert(big_a ^ pg == 0u8);
    assert(pg == big_a) by (bit_vector)
        requires
            big_a ^ pg == 0u8,
    ;
    // hypothesis and goal
    lemma_peval_concat(s, r, a);
    lemma_peval_concat(s.push(b), rn, a);
    assert(s.push(b).drop_last() =~= s);
    let psb = peval(s.push(b), a);
    assert(psb == gf_mul(ps, a) ^ b);
    assert(big_a == gf_mul(a1, a));
    let m = gf_mul(ps, gf_mul(a, big_a));
    let n = gf_mul(r0, big_a);
    let pta = gf_mul(pt, a);
    let ba = gf_mul(b, big_a);
    // X = (ps a + b) A = m + bA
    lemma_mul_distributive(big_a, gf_mul(ps, a), b);
    lemma_mul_associative(ps, a, big_a);
    // Y = pt a + fb A = pt a + b A + r0 A
    lemma_mul_distributive(big_a, b, r0);
    // hypothesis times a
    let h1 = gf_mul(ps, big_a);
    let h2 = gf_mul(r0, a1);
    lemma_mul_distributive(a, h1, h2 ^ pt);
    lemma_mul_distributive(a, h2, pt);
    lemma_mul_identity_zero(a);
    lemma_mul_associative(ps, big_a, a);
    lemma_mul_commutative(big_a, a);
    lemma_mul_associative(r0, a1, a);
    let x = m ^ ba;
    let y = pta ^ (ba ^ n);
    assert(gf_mul(h1, a) ^ (gf_mul(h2, a) ^ pta) == 0u8);
    assert(gf_mul(h1, a) == m);
    assert(gf_mul(h2, a) == n);
    assert(x ^ y == 0u8) by (bit_vector)
        requires
            m ^ (n ^ pta) == 0u8,
            x == m ^ ba,
            y == pta ^ (ba ^ n),
    ;
}

/// The parity register after shifting `data` through the register of generator `gen`
/// (`p` parity bytes), starting from all zeros.
pub open spec fn lfsr_run(gen: Seq<u8>, p: nat, data: Seq<u8>) -> Seq<u8>
    decreases data.len(),
{
    if data.len() == 0 {
        zeros(p)
    } else {
        let r = lfsr_run(gen, p, data.drop_last());
        lfsr_next(r, gen, data.last() ^ r[0])
    }
}

/// Number of blocks of at most `d` bytes that a message of `len` bytes splits into.
pub open spec fn num_blocks(len: nat, d: nat) -> nat
    decreases len,
{
    if d == 0 || len == 0 {
        0
    } else if len <= d {
        1
    } else {
        1 + num_blocks((len - d) as nat, d)
    }
}

/// The block of `msg` that starts at `start`, padded with zeros to `d` bytes.
pub open spec fn padded_chunk(msg: Seq<u8>, d: nat, start: nat) -> Seq<u8> {
    let end = if start + d <= msg.len() {
        start + d
    } else {
        msg.len() as nat
    };
    msg.subrange(start as int, end as int) + zeros((d - (end - start)) as nat)
}

/// `parity` holds, block by block, valid Reed-Solomon parity for `msg`.
pub open spec fn parity_protects(msg: Seq<u8>, parity: Seq<u8>, d: nat, p: nat) -> bool {
    &&& parity.len() >= num_blocks(msg.len(), d) * p
    &&& forall|b: nat|
        b < num_blocks(msg.len(), d) ==> #[trigger] is_codeword(
            padded_chunk(msg, d, b * d) + parity.subrange((b * p) as int, (b * p + p) as int),
            p,
        )
}

/// Result of Reed-Solomon inspection and repair.
#[derive(Debug, Clone, PartialEq, Eq)]
pub enum FecStatus {
    /// No data byte needed repair.
    Intact,
    /// Data bytes were repaired in place.
    Repaired { corrected_byte_count: usize, repaired_offsets: Vec<usize> },
    /// The damage could not be repaired.
    Unrecoverable { reason: String },
}

/// Reed-Solomon codec for blocks of `data_block_len` data bytes and `parity_len` parity bytes.
pub struct ReedSolomonCodec {
    data_block_len: usize,
    parity_len: usize,
    generator: Vec<u8>,
    gf: GaloisField,
}

impl ReedSolomonCodec {
    #[verifier::type_invariant]
    spec fn well_formed(&self) -> bool {
        &&& self.data_block_len + self.parity_len <= 255
        &&& is_generator_poly(self.generator@, self.parity_len as nat)
    }

    /// Number of data bytes per block.
    pub closed spec fn block_data_len(&self) -> nat {
        self.data_block_len as nat
    }

    /// Number of parity bytes per block.
    pub closed spec fn block_parity_len(&self) -> nat {
        self.parity_len as nat
    }

    /// The parity this codec computes for one block of data.
    pub closed spec fn block_parity(&self, data: Seq<u8>) -> Seq<u8> {
        lfsr_run(self.generator@, self.parity_len as nat, data)
    }

    /// A codec for blocks of `data_block_len` data bytes and `parity_len` parity bytes
    /// (at most 255 in all).
    pub fn new(data_block_len: usize, parity_len: usize) -> (r: Self)
        requires
            data_block_len + parity_len <= 255,
        ensures
            r.block_data_len() == data_block_len,
            r.block_parity_len() == parity_len,
            forall|data: Seq<u8>|
                #[trigger] r.block_parity(data) == lfsr_run(
                    rs_generator(parity_len as nat),
                    parity_len as nat,
                    data,
                ),
    {
        let generator = rs_generator_poly(parity_len);
        ReedSolomonCodec { data_block_len, parity_len, generator, gf: GaloisField::new() }
    }

    /// The default codec: 239 data bytes and 16 parity bytes per block.
    pub fn default_codec() -> (r: Self)
        ensures
            r.block_data_len() == DEFAULT_DATA_BLOCK_LEN,
            r.block_parity_len() == DEFAULT_PARITY_LEN,
            forall|data: Seq<u8>|
                #[trigger] r.block_parity(data) == lfsr_run(
                    rs_generator(DEFAULT_PARITY_LEN as nat),
                    DEFAULT_PARITY_LEN as nat,
                    data,
                ),
    {
        Self::new(DEFAULT_DATA_BLOCK_LEN, DEFAULT_PARITY_LEN)
    }

    /// Parity bytes for one block of exactly `data_block_len` bytes: the unique
    /// `parity_len` bytes that make `data ++ parity` a codeword.
    pub fn encode_block(&self, data: &[u8]) -> (parity: Vec<u8>)
        requires
            data@.len() == self.block_data_len(),
            self.block_parity_len() >= 1 || self.block_data_len() == 0,
        ensures
            parity@.len() == self.block_parity_len(),
            is_codeword(data@ + parity@, self.block_parity_len()),
            parity@ == self.block_parity(data@),
    {
        proof {
            use_type_invariant(self);
        }
        let p = self.parity_len;
        let mut rem: Vec<u8> = vec![0u8; p];
        proof {
            assert(rem@ =~= zeros(p as nat));
            assert(data@.subrange(0, 0) =~= Seq::<u8>::empty());
            assert forall|i: nat| i < p implies #[trigger] peval(
                data@.subrange(0, 0) + rem@,
                alpha_pow(i),
            ) == 0 by {
                assert(data@.subrange(0, 0) + rem@ =~= zeros(p as nat));
                lemma_peval_zeros(p as nat, alpha_pow(i));
            }
        }
        let mut k: usize = 0;
        while k < data.len()
            invariant
                p == self.parity_len,
                p >= 1 || data@.len() == 0,
                is_generator_poly(self.generator@, p as nat),
                k <= data@.len(),
                rem@.len() == p,
                rem@ == lfsr_run(self.generator@, p as nat, data@.subrange(0, k as int)),
                forall|i: nat| i < p ==> #[trigger] peval(
                    data@.subrange(0, k as int) + rem@,
                    alpha_pow(i),
                ) == 0,
            decreases data@.len() - k,
        {
            let byte = data[k];
            let fb = byte ^ rem[0];
            let mut next: Vec<u8> = Vec::with_capacity(p);
            let mut j: usize = 0;
            while j < p
                invariant
                    p == self.parity_len,
                    p >= 1,
                    self.generator@.len() == p + 1,
                    rem@.len() == p,
                    j <= p,
                    next@.len() == j,
                    forall|t: int| 0 <= t < j ==> next@[t] == lfsr_next(
                        rem@,
                        self.generator@,
                        fb,
                    )[t],
                decreases p - j,
            {
                let shifted = if j + 1 < p {
                    rem[j + 1]
                } else {
                    0u8
                };
                let g = self.generator[j + 1];
                let v = if fb != 0 {
                    shifted ^ self.gf.mul(g, fb)
                } else {
                    proof {
                        lemma_mul_identity_zero(g);
                        lemma_xor_facts(shifted, 0);
                    }
                    shifted
                };
                next.push(v);
                j = j + 1;
            }
            proof {
                assert(next@ =~= lfsr_next(rem@, self.generator@, fb));
                assert(data@.subrange(0, k + 1) =~= data@.subrange(0, k as int).push(byte));
                assert(data@.subrange(0, k + 1).drop_last() =~= data@.subrange(0, k as int));
                assert forall|i: nat| i < p implies #[trigger] peval(
                    data@.subrange(0, k + 1) + next@,
                    alpha_pow(i),
                ) == 0 by {
                    lemma_lfsr_step(
                        data@.subrange(0, k as int),
                        rem@,
                        byte,
                        self.generator@,
                        alpha_pow(i),
                    );
                }
            }
            rem = next;
            k = k + 1;
        }
        proof {
            assert(data@.subrange(0, data@.len() as int) =~= data@);
        }
        rem
    }

    /// Copies `msg[start..end]` and pads it with zeros to `data_block_len` bytes.
    fn padded_block(&self, msg: &[u8], start: usize, end: usize) -> (r: Vec<u8>)
        requires
            start < end <= msg@.len(),
            end == (if start + self.block_data_len() <= msg@.len() {
                start + self.block_data_len()
            } else {
                msg@.len() as int
            }),
        ensures
            r@ == padded_chunk(msg@, self.block_data_len(), start as nat),
            r@.len() == self.block_data_len(),
    {
        let d = self.data_block_len;
        let mut padded: Vec<u8> = Vec::with_capacity(d);
        let mut t = start;
        while t < end
            invariant
                start <= t <= end <= msg@.len(),
                padded@ =~= msg@.subrange(start as int, t as int),
            decreases end - t,
        {
            padded.push(msg[t]);
            t = t + 1;
        }
        let ghost chunk = padded@;
        while padded.len() < d
            invariant
                chunk.len() == end - start,
                end - start <= d,
                padded@.len() >= chunk.len(),
                padded@.len() <= d,
                padded@ =~= chunk + zeros((padded@.len() - chunk.len()) as nat),
            decreases d - padded@.len(),
        {
            padded.push(0u8);
        }
        padded
    }

    /// Parity for a message of any length: the message is split into blocks of
    /// `data_block_len` bytes (the last one zero-padded) and the parity of each block
    /// is appended in order.
    pub fn encode(&self, message: &[u8]) -> (parity: Vec<u8>)
        requires
            self.block_data_len() >= 1,
            self.block_parity_len() >= 1 || message@.len() == 0,
        ensures
            parity@.len() == num_blocks(message@.len(), self.block_data_len())
                * self.block_parity_len(),
            parity_protects(
                message@,
                parity@,
                self.block_data_len(),
                self.block_parity_len(),
            ),
            forall|j: nat|
                j < num_blocks(message@.len(), self.block_data_len()) ==> parity@.subrange(
                    (j * self.block_parity_len()) as int,
                    (j * self.block_parity_len() + self.block_parity_len()) as int,
                ) == self.block_parity(
                    #[trigger] padded_chunk(message@, self.block_data_len(), j * self.block_data_len()),
                ),
    {
        let d = self.data_block_len;
        let p = self.parity_len;
        let len = message.len();
        let ghost msg = message@;
        let mut all: Vec<u8> = Vec::new();
        let mut off: usize = 0;
        let ghost mut b: nat = 0;
        while off < len
            invariant
                d == self.block_data_len(),
                p == self.block_parity_len(),
                d >= 1,
                p >= 1 || len == 0,
                len == msg.len(),
                msg == message@,
                off <= len,
                off < len ==> off == b * d,
                all@.len() == b * p,
                b + num_blocks((len - off) as nat, d as nat) == num_blocks(len as nat, d as nat),
                forall|bb: nat|
                    bb < b ==> #[trigger] is_codeword(
                        padded_chunk(msg, d as nat, bb * (d as nat)) + all@.subrange(
                            (bb * p) as int,
                            (bb * p + p) as int,
                        ),
                        p as nat,
                    ),
                forall|bb: nat|
                    bb < b ==> all@.subrange((bb * p) as int, (bb * p + p) as int) == self.block_parity(
                        #[trigger] padded_chunk(msg, d as nat, bb * (d as nat)),
                    ),
            decreases len - off,
        {
            let end = if len - off > d {
                off + d
            } else {
                len
            };
            let padded = self.padded_block(message, off, end);
            let par = self.encode_block(&padded);
            let ghost old_all = all@;
            let mut k: usize = 0;
            while k < par.len()
                invariant
                    k <= par@.len(),
                    all@ =~= old_all + par@.subrange(0, k as int),
                decreases par@.len() - k,
            {
                all.push(par[k]);
                k = k + 1;
            }
            proof {
                assert(all@ =~= old_all + par@);
                assert(all@.subrange((b * p) as int, (b * p + p) as int) =~= par@);
                assert forall|bb: nat| bb < b + 1 implies #[trigger] is_codeword(
                    padded_chunk(msg, d as nat, bb * (d as nat)) + all@.subrange(
                        (bb * p) as int,
                        (bb * p + p) as int,
                    ),
                    p as nat,
                ) by {
                    if bb < b {
                        assert(bb * p + p <= b * p) by (nonlinear_arith)
                            requires
                                bb < b,
                        ;
                        assert(all@.subrange((bb * p) as int, (bb * p + p) as int)
                            =~= old_all.subrange((bb * p) as int, (bb * p + p) as int));
                    }
                }
                assert forall|bb: nat| bb < b + 1 implies all@.subrange((bb * p) as int, (bb * p + p) as int)
                    == self.block_parity(#[trigger] padded_chunk(msg, d as nat, bb * (d as nat))) by {
                    if bb < b {
                        assert(bb * p + p <= b * p) by (nonlinear_arith)
                            requires
                                bb < b,
                        ;
                        assert(all@.subrange((bb * p) as int, (bb * p + p) as int)
                            =~= old_all.subrange((bb * p) as int, (bb * p + p) as int));
                    }
                }
                assert((b + 1) * p == b * p + p) by (nonlinear_arith);
                assert((b + 1) * d == b * d + d) by (nonlinear_arith);
            }
            off = end;
            proof {
                b = b + 1;
            }
        }
        all
    }

    /// Syndromes of a block: its value at alpha^0 .. alpha^(parity_len-1).
    fn compute_syndromes(&self, block: &[u8]) -> (syndromes: Vec<u8>)
        ensures
            syndromes@.len() == self.block_parity_len(),
            forall|i: int|
                0 <= i < self.block_parity_len() ==> syndromes@[i] == peval(
                    block@,
                    alpha_pow(i as nat),
                ),
    {
        proof {
            use_type_invariant(self);
        }
        let mut syndromes: Vec<u8> = Vec::with_capacity(self.parity_len);
        let mut i: usize = 0;
        while i < self.parity_len
            invariant
                self.parity_len <= 255,
                i <= self.parity_len,
                syndromes@.len() == i,
                forall|t: int| 0 <= t < i ==> syndromes@[t] == peval(block@, alpha_pow(t as nat)),
            decreases self.parity_len - i,
        {
            let root = self.gf.pow_alpha(i);
            syndromes.push(self.gf.poly_eval(block, root));
            i = i + 1;
        }
        syndromes
    }

    /// Evaluates `poly` (lowest coefficient first) at `x`.
    fn eval_ascending(&self, poly: &Vec<u8>, x: u8) -> (r: u8)
        ensures
            r == asc_eval(poly@, x, poly@.len()),
    {
        let mut sum: u8 = 0;
        let mut x_pow: u8 = 1;
        let mut j: usize = 0;
        while j < poly.len()
            invariant
                j <= poly@.len(),
                sum == asc_eval(poly@, x, j as nat),
                x_pow == gf_pow(x, j as nat),
            decreases poly@.len() - j,
        {
            sum = sum ^ self.gf.mul(poly[j], x_pow);
            x_pow = self.gf.mul(x_pow, x);
            j = j + 1;
        }
        sum
    }

    /// Locates and corrects errors in one block (`data_block_len + parity_len` bytes) from
    /// its syndromes: Berlekamp-Massey for the error locator, Chien search for its roots,
    /// Forney for the error values. On success returns the corrected positions. When the
    /// syndromes are those of a single damaged byte and there are at least two of them,
    /// that byte is found and restored.
    #[verifier::spinoff_prover]
    #[verifier::rlimit(60)]
    fn repair_block(&self, block: &mut Vec<u8>, syndromes: &Vec<u8>) -> (r: Result<
        Vec<usize>,
        String,
    >)
        requires
            old(block)@.len() == self.block_data_len() + self.block_parity_len(),
            syndromes@.len() == self.block_parity_len(),
        ensures
            final(block)@.len() == old(block)@.len(),
            r is Ok ==> {
                let pos = r->Ok_0@;
                &&& pos.len() <= self.block_parity_len() / 2
                &&& forall|a: int, b: int| 0 <= a < b < pos.len() ==> pos[a] < pos[b]
                &&& forall|a: int| 0 <= a < pos.len() ==> pos[a] < old(block)@.len()
                &&& forall|t: int|
                    0 <= t < old(block)@.len() && !pos.contains(t as usize) ==> final(block)@[t]
                        == old(block)@[t]
            },
            forall|pos: nat, y: u8|
                #[trigger] single_error_syndromes(syndromes@, old(block)@.len(), pos, y)
                    && self.block_parity_len() >= 2 ==> r is Ok && r->Ok_0@ == seq![pos as usize]
                    && final(block)@ == old(block)@.update(pos as int, old(block)@[pos as int] ^ y),
    {
        proof {
            use_type_invariant(self);
        }
        let p = self.parity_len;
        let max_errors = p / 2;
        let ghost original = block@;
        let ghost nl: nat = block@.len();
        let ghost se = exists|pos: nat, y: u8|
            #[trigger] single_error_syndromes(syndromes@, nl, pos, y) && p >= 2;
        let ghost (epos, ey): (nat, u8) = choose|pos: nat, y: u8|
            #[trigger] single_error_syndromes(syndromes@, nl, pos, y) && p >= 2;
        let ghost ex: u8 = alpha_pow((nl - 1 - epos) as nat);
        proof {
            if se {
                lemma_alpha_pow_nonzero((nl - 1 - epos) as nat);
                assert(syndromes@[0] == gf_mul(ey, gf_pow(ex, 0)));
                lemma_mul_identity_zero(ey);
                assert(syndromes@[0] == ey);
            }
        }
        // Berlekamp-Massey
        let mut lambda: Vec<u8> = vec![1u8];
        let mut b: Vec<u8> = vec![1u8];
        proof {
            assert(lambda@ =~= seq![1u8]);
            assert(b@ =~= seq![1u8]);
        }
        let mut l: usize = 0;
        let mut k: usize = 1;
        let mut n: usize = 0;
        while n < p
            invariant
                p == self.parity_len,
                p <= 255,
                syndromes@.len() == p,
                n <= p,
                1 <= lambda@.len() <= n + 1,
                b@.len() >= 1,
                k >= 1,
                k + b@.len() <= n + 2,
                l <= n,
                block@ == original,
                se ==> single_error_syndromes(syndromes@, nl, epos, ey) && p >= 2 && ex != 0
                    && syndromes@[0] == ey,
                se ==> ex == alpha_pow((nl - 1 - epos) as nat),
                se && n == 0 ==> lambda@ == seq![1u8] && b@ == seq![1u8] && l == 0 && k == 1,
                se && n == 1 ==> lambda@ == seq![1u8, ey] && b@ == seq![gf_inv(ey)] && l == 1
                    && k == 1,
                se && n >= 2 ==> lambda@ == seq![1u8, ex] && l == 1,
            decreases p - n,
        {
            let mut delta = syndromes[n];
            let mut j: usize = 1;
            while j <= l
                invariant
                    l <= n < p,
                    syndromes@.len() == p,
                    1 <= j <= l + 1,
                    se ==> (n == 0 ==> l == 0) && (n >= 1 ==> l == 1 && lambda@.len() == 2),
                    se && j == 1 ==> delta == syndromes@[n as int],
                    se && j == 2 ==> delta == syndromes@[n as int] ^ gf_mul(
                        lambda@[1],
                        syndromes@[n - 1],
                    ),
                decreases l + 1 - j,
            {
                if j < lambda.len() && n >= j {
                    delta = delta ^ self.gf.mul(lambda[j], syndromes[n - j]);
                }
                j = j + 1;
            }
            proof {
                if se && n >= 2 {
                    assert(syndromes@[n as int] == gf_mul(ey, gf_pow(ex, n as nat)));
                    assert(syndromes@[n - 1] == gf_mul(ey, gf_pow(ex, (n - 1) as nat)));
                    lemma_single_error_recurrence(ey, ex, n as nat);
                }
                if se && n == 1 {
                    assert(syndromes@[1] == gf_mul(ey, gf_pow(ex, 1)));
                    lemma_mul_identity_zero(ex);
                    assert(gf_pow(ex, 1) == ex);
                    lemma_single_error_second_step(ey, ex);
                }
            }
            if delta != 0 {
                let temp_lambda = lambda.clone();
                proof {
                    assert(temp_lambda@ =~= lambda@);
                }
                let mut shifted_b: Vec<u8> = vec![0u8; k];
                let mut t: usize = 0;
                while t < b.len()
                    invariant
                        t <= b@.len(),
                        shifted_b@.len() == k + t,
                        k + b@.len() <= n + 2,
                        shifted_b@ =~= zeros(k as nat) + b@.subrange(0, t as int),
                    decreases b@.len() - t,
                {
                    shifted_b.push(b[t]);
                    t = t + 1;
                }
                proof {
                    assert(b@.subrange(0, b@.len() as int) =~= b@);
                }
                while lambda.len() < shifted_b.len()
                    invariant
                        lambda@.len() >= 1,
                        lambda@.len() <= n + 2,
                        shifted_b@.len() <= n + 2,
                        lambda@.len() >= temp_lambda@.len(),
                        lambda@.len() <= temp_lambda@.len() || lambda@.len() <= shifted_b@.len(),
                        lambda@ =~= temp_lambda@ + zeros((lambda@.len() - temp_lambda@.len()) as nat),
                    decreases shifted_b@.len() - lambda@.len(),
                {
                    lambda.push(0u8);
                }
                let ghost ext = lambda@;
                let mut idx: usize = 0;
                while idx < shifted_b.len()
                    invariant
                        idx <= shifted_b@.len() <= lambda@.len(),
                        lambda@.len() <= n + 2,
                        lambda@.len() >= 1,
                        lambda@.len() == ext.len(),
                        forall|i: int|
                            0 <= i < idx ==> #[trigger] lambda@[i] == ext[i] ^ gf_mul(
                                delta,
                                shifted_b@[i],
                            ),
                        forall|i: int| idx <= i < ext.len() ==> #[trigger] lambda@[i] == ext[i],
                    decreases shifted_b@.len() - idx,
                {
                    let v = lambda[idx] ^ self.gf.mul(delta, shifted_b[idx]);
                    lambda.set(idx, v);
                    idx = idx + 1;
                }
                proof {
                    if se && n == 0 {
                        assert(shifted_b@ =~= seq![0u8, 1u8]);
                        assert(ext =~= seq![1u8, 0u8]);
                        lemma_mul_identity_zero(delta);
                        lemma_xor_facts(1u8, 0u8);
                        lemma_xor_facts(delta, 0u8);
                        assert(lambda@ =~= seq![1u8, ey]);
                    }
                    if se && n == 1 {
                        assert(shifted_b@ =~= seq![0u8, gf_inv(ey)]);
                        assert(ext =~= seq![1u8, ey]);
                        lemma_mul_identity_zero(delta);
                        lemma_xor_facts(1u8, 0u8);
                        lemma_mul_identity_zero(gf_inv(ey));
                        assert(lambda@ =~= seq![1u8, ex]);
                    }
                }
                if 2 * l <= n {
                    let inv_delta = self.gf.inv(delta);
                    let mut nb: Vec<u8> = Vec::with_capacity(temp_lambda.len());
                    let mut t: usize = 0;
                    while t < temp_lambda.len()
                        invariant
                            t <= temp_lambda@.len(),
                            nb@.len() == t,
                            forall|i: int|
                                0 <= i < t ==> #[trigger] nb@[i] == gf_mul(temp_lambda@[i], inv_delta),
                        decreases temp_lambda@.len() - t,
                    {
                        nb.push(self.gf.mul(temp_lambda[t], inv_delta));
                        t = t + 1;
                    }
                    proof {
                        if se && n == 0 {
                            assert(nb@ =~= seq![gf_mul(1u8, gf_inv(ey))]);
                            lemma_mul_identity_zero(gf_inv(ey));
                        }
                    }
                    b = nb;
                    l = n + 1 - l;
                    k = 1;
                } else {
                    k = k + 1;
                }
            } else {
                k = k + 1;
            }
            n = n + 1;
        }
        if l > max_errors {
            let mut msg = String::new();
            push_str(&mut msg, "Too many errors detected (");
            push_decimal(&mut msg, l as u64);
            push_str(&mut msg, " > ");
            push_decimal(&mut msg, max_errors as u64);
            push_str(&mut msg, " capacity)");
            proof {
                assert forall|pos: nat, y: u8|
                    #[trigger] single_error_syndromes(syndromes@, nl, pos, y) && p >= 2 implies false by {
                    assert(se);
                }
            }
            return Err(msg);
        }
        // Chien search
        let block_len = block.len();
        let mut error_positions: Vec<usize> = Vec::new();
        let mut i: usize = 0;
        while i < block_len
            invariant
                block_len == block@.len(),
                block_len == nl,
                block_len <= 255,
                i <= block_len,
                block@ == original,
                1 <= lambda@.len() <= 256,
                error_positions@.len() <= i,
                forall|a: int, c: int|
                    0 <= a < c < error_positions@.len() ==> error_positions@[a]
                        < error_positions@[c],
                forall|a: int| 0 <= a < error_positions@.len() ==> error_positions@[a] < i,
                se ==> single_error_syndromes(syndromes@, nl, epos, ey) && ex == alpha_pow(
                    (nl - 1 - epos) as nat,
                ) && lambda@ == seq![1u8, ex],
                se ==> error_positions@ == (if i > epos {
                    seq![epos as usize]
                } else {
                    Seq::<usize>::empty()
                }),
            decreases block_len - i,
        {
            let exp_val = (255 - (block_len - 1 - i) % 255) % 255;
            let x_inv = self.gf.pow_alpha(exp_val);
            let sum = self.eval_ascending(&lambda, x_inv);
            proof {
                if se {
                    lemma_asc_eval_linear(ex, x_inv);
                    lemma_chien_test((nl - 1 - epos) as nat, (block_len - 1 - i) as nat);
                    let v = gf_mul(ex, x_inv);
                    assert((1u8 ^ v == 0u8) <==> v == 1u8) by (bit_vector);
                    assert(sum == 0 <==> i == epos);
                }
            }
            if sum == 0 {
                error_positions.push(i);
            }
            i = i + 1;
        }
        if error_positions.len() != l {
            let mut msg = String::new();
            push_str(&mut msg, "Chien search found ");
            push_decimal(&mut msg, error_positions.len() as u64);
            push_str(&mut msg, " error locations but Lambda degree was ");
            push_decimal(&mut msg, l as u64);
            proof {
                assert forall|pos: nat, y: u8|
                    #[trigger] single_error_syndromes(syndromes@, nl, pos, y) && p >= 2 implies false by {
                    assert(se);
                }
            }
            return Err(msg);
        }
        // Forney: error evaluator Omega(x) = S(x) Lambda(x) mod x^(2t)
        let mut omega: Vec<u8> = vec![0u8; p];
        let mut oi: usize = 0;
        while oi < p
            invariant
                omega@.len() == p,
                syndromes@.len() == p,
                p <= 255,
                oi <= p,
                block@ == original,
                1 <= lambda@.len() <= 256,
                forall|t: int| 0 <= t < p ==> #[trigger] omega@[t] == conv(syndromes@, lambda@, oi as nat, t),
            decreases p - oi,
        {
            let mut oj: usize = 0;
            while oj < lambda.len()
                invariant
                    omega@.len() == p,
                    syndromes@.len() == p,
                    p <= 255,
                    oi < p,
                    oj <= lambda@.len(),
                    lambda@.len() <= 256,
                    forall|t: int|
                        0 <= t < p ==> #[trigger] omega@[t] == (if 0 <= t - oi < oj {
                            conv(syndromes@, lambda@, oi as nat, t) ^ conv_term(
                                syndromes@,
                                lambda@,
                                oi as int,
                                t,
                            )
                        } else {
                            conv(syndromes@, lambda@, oi as nat, t)
                        }),
                decreases lambda@.len() - oj,
            {
                if oi + oj < p {
                    let v = omega[oi + oj] ^ self.gf.mul(syndromes[oi], lambda[oj]);
                    omega.set(oi + oj, v);
                }
                oj = oj + 1;
            }
            proof {
                assert forall|t: int| 0 <= t < p implies #[trigger] omega@[t] == conv(
                    syndromes@,
                    lambda@,
                    (oi + 1) as nat,
                    t,
                ) by {
                    lemma_xor_facts(conv(syndromes@, lambda@, oi as nat, t), 0u8);
                }
            }
            oi = oi + 1;
        }
        proof {
            if se {
                assert forall|t: int| 0 <= t < p implies #[trigger] omega@[t] == (if t == 0 {
                    ey
                } else {
                    0u8
                }) by {
                    assert forall|j: int| 0 <= j < syndromes@.len() implies #[trigger] syndromes@[j]
                        == gf_mul(ey, gf_pow(ex, j as nat)) by {
                    }
                    lemma_single_error_omega(syndromes@, ey, ex, t);
                }
            }
        }
        let mut q: usize = 0;
        while q < error_positions.len()
            invariant
                block_len == block@.len(),
                block_len == original.len(),
                block_len == nl,
                original == old(block)@,
                block_len <= 255,
                p <= 255,
                omega@.len() == p,
                q <= error_positions@.len(),
                1 <= lambda@.len() <= 256,
                forall|a: int, c: int|
                    0 <= a < c < error_positions@.len() ==> error_positions@[a]
                        < error_positions@[c],
                forall|a: int| 0 <= a < error_positions@.len() ==> error_positions@[a] < block_len,
                forall|t: int|
                    0 <= t < block_len && !error_positions@.contains(t as usize) ==> block@[t]
                        == original[t],
                se ==> single_error_syndromes(syndromes@, nl, epos, ey) && ex == alpha_pow(
                    (nl - 1 - epos) as nat,
                ) && lambda@ == seq![1u8, ex] && error_positions@ == seq![epos as usize] && ex
                    != 0 && p >= 2,
                se ==> forall|t: int| 0 <= t < p ==> #[trigger] omega@[t] == (if t == 0 {
                    ey
                } else {
                    0u8
                }),
                p == self.parity_len,
                se <==> exists|pos: nat, y: u8|
                    #[trigger] single_error_syndromes(syndromes@, nl, pos, y) && p >= 2,
                se && q == 0 ==> block@ == original,
                se && q == 1 ==> block@ == original.update(epos as int, original[epos as int] ^ ey),
            decreases error_positions@.len() - q,
        {
            let pos = error_positions[q];
            let exp_val = (255 - (block_len - 1 - pos) % 255) % 255;
            let x_inv = self.gf.pow_alpha(exp_val);
            let num = self.eval_ascending(&omega, x_inv);
            proof {
                if se {
                    lemma_asc_eval_constant(omega@, x_inv, p as nat);
                    assert(num == ey);
                }
            }
            let mut den: u8 = 0;
            let mut x_pow: u8 = 1;
            let mut j: usize = 1;
            while j < lambda.len()
                invariant
                    j >= 1,
                    j <= lambda@.len(),
                    se ==> lambda@ == seq![1u8, ex],
                    se && j == 1 ==> den == 0u8 && x_pow == 1u8,
                    se && j == 2 ==> den == ex,
                decreases lambda@.len() - j,
            {
                if j % 2 == 1 {
                    den = den ^ self.gf.mul(lambda[j], x_pow);
                }
                proof {
                    if se && j == 1 {
                        lemma_mul_identity_zero(ex);
                        lemma_xor_facts(ex, 0u8);
                    }
                }
                x_pow = self.gf.mul(x_pow, x_inv);
                j = j + 1;
            }
            if den == 0 {
                let mut msg = String::new();
                push_str(&mut msg, "Derivative vanished at error root in Forney algorithm");
                proof {
                    assert forall|pos: nat, y: u8|
                        #[trigger] single_error_syndromes(syndromes@, nl, pos, y) && p >= 2 implies false by {
                        assert(se);
                    }
                }
                return Err(msg);
            }
            let x_k = self.gf.pow_alpha((block_len - 1 - pos) % 255);
            let error_val = self.gf.mul(self.gf.div(num, den), x_k);
            proof {
                if se {
                    assert(x_k == ex);
                    assert(error_val == ey);
                }
            }
            let v = block[pos] ^ error_val;
            proof {
                assert(error_positions@.contains(pos));
            }
            block.set(pos, v);
            q = q + 1;
        }
        proof {
            if se {
                assert(block@ =~= original.update(epos as int, original[epos as int] ^ ey));
            }
            assert forall|pos: nat, y: u8|
                #[trigger] single_error_syndromes(syndromes@, nl, pos, y) && p >= 2 implies error_positions@
                == seq![pos as usize] && block@ == original.update(pos as int, original[pos as int] ^ y) by {
                assert(se);
                lemma_single_error_unique(syndromes@, nl, pos, y, epos, ey);
            }
        }
        Ok(error_positions)
    }

    /// Number of blocks a message of `len` bytes splits into.
    fn count_blocks(&self, len: usize) -> (n: usize)
        requires
            self.block_data_len() >= 1,
        ensures
            n == num_blocks(len as nat, self.block_data_len()),
    {
        let d = self.data_block_len;
        let mut off: usize = 0;
        let mut n: usize = 0;
        while off < len
            invariant
                d >= 1,
                d == self.block_data_len(),
                off <= len,
                n <= off,
                n + num_blocks((len - off) as nat, d as nat) == num_blocks(len as nat, d as nat),
            decreases len - off,
        {
            off = if len - off > d {
                off + d
            } else {
                len
            };
            n = n + 1;
        }
        n
    }

    /// Checks `data` against `parity` block by block and repairs damaged data bytes in
    /// place. Blocks are `data_block_len` bytes (the last one zero-padded); each has
    /// `parity_len` parity bytes, in order. Data that the parity protects comes back
    /// intact, and data with at most one damaged byte per block (and at least two parity
    /// bytes per block) comes back as the protected message.
    pub fn decode_and_repair(&self, data: &mut [u8], parity: &[u8]) -> (status: FecStatus)
        requires
            self.block_data_len() >= 1,
            num_blocks(old(data)@.len(), self.block_data_len()) * self.block_parity_len()
                <= usize::MAX,
        ensures
            final(data)@.len() == old(data)@.len(),
            parity@.len() < num_blocks(old(data)@.len(), self.block_data_len())
                * self.block_parity_len() ==> status is Unrecoverable && final(data)@
                == old(data)@,
            status is Intact ==> final(data)@ == old(data)@,
            status matches FecStatus::Repaired { corrected_byte_count, repaired_offsets } ==> {
                let offs = repaired_offsets@;
                &&& corrected_byte_count == offs.len()
                &&& offs.len() >= 1
                &&& forall|a: int, b: int| 0 <= a < b < offs.len() ==> offs[a] < offs[b]
                &&& forall|a: int| 0 <= a < offs.len() ==> offs[a] < old(data)@.len()
                &&& forall|t: int|
                    0 <= t < old(data)@.len() && !offs.contains(t as usize) ==> final(data)@[t]
                        == old(data)@[t]
            },
            parity_protects(
                old(data)@,
                parity@,
                self.block_data_len(),
                self.block_parity_len(),
            ) ==> status is Intact && final(data)@ == old(data)@,
            forall|m: Seq<u8>|
                #[trigger] single_error_restorable(
                    old(data)@,
                    m,
                    parity@,
                    self.block_data_len(),
                    self.block_parity_len(),
                ) ==> final(data)@ == m && !(status is Unrecoverable),
    {
        proof {
            use_type_invariant(self);
        }
        let d = self.data_block_len;
        let p = self.parity_len;
        let len = data.len();
        let ghost msg = data@;
        let nblocks = self.count_blocks(len);
        let expected_parity_len = nblocks * p;
        if parity.len() < expected_parity_len {
            let mut reason = String::new();
            push_str(&mut reason, "Parity buffer truncated: expected ");
            push_decimal(&mut reason, expected_parity_len as u64);
            push_str(&mut reason, " bytes, received ");
            push_decimal(&mut reason, parity.len() as u64);
            push_str(&mut reason, " bytes");
            proof {
                assert forall|m: Seq<u8>|
                    #[trigger] single_error_restorable(msg, m, parity@, d as nat, p as nat) implies false by {
                    assert(num_blocks(m.len(), d as nat) == nblocks);
                }
            }
            return FecStatus::Unrecoverable { reason };
        }
        let mut total_repaired: usize = 0;
        let mut repaired_offsets: Vec<usize> = Vec::new();
        let mut data_offset: usize = 0;
        let mut parity_offset: usize = 0;
        let ghost mut b: nat = 0;
        while data_offset < len
            invariant
                d == self.block_data_len(),
                p == self.block_parity_len(),
                d >= 1,
                d + p <= 255,
                len == data@.len(),
                len == msg.len(),
                msg == old(data)@,
                data_offset <= len,
                data_offset < len ==> data_offset == b * d,
                parity_offset == b * p,
                b + num_blocks((len - data_offset) as nat, d as nat) == nblocks,
                nblocks == num_blocks(len as nat, d as nat),
                parity@.len() >= nblocks * p,
                nblocks * p <= usize::MAX,
                total_repaired == repaired_offsets@.len(),
                forall|a: int, c: int|
                    0 <= a < c < repaired_offsets@.len() ==> repaired_offsets@[a]
                        < repaired_offsets@[c],
                forall|a: int| 0 <= a < repaired_offsets@.len() ==> repaired_offsets@[a] < data_offset,
                forall|a: int| 0 <= a < repaired_offsets@.len() ==> repaired_offsets@[a] >= a,
                forall|t: int|
                    0 <= t < len && !repaired_offsets@.contains(t as usize) ==> data@[t] == msg[t],
                parity_protects(msg, parity@, d as nat, p as nat) ==> data@ == msg
                    && repaired_offsets@.len() == 0,
                forall|m: Seq<u8>|
                    #[trigger] single_error_restorable(msg, m, parity@, d as nat, p as nat)
                        ==> one_error_per_block(msg, m, d as nat, data_offset as nat) && (forall|t: int|
                        0 <= t < data_offset ==> data@[t] == m[t]),
            decreases len - data_offset,
        {
            proof {
                assert(num_blocks((len - data_offset) as nat, d as nat) >= 1);
                assert(b + 1 <= nblocks);
                assert((b + 1) * p <= nblocks * p) by (nonlinear_arith)
                    requires
                        b + 1 <= nblocks,
                ;
                assert((b + 1) * p == b * p + p) by (nonlinear_arith);
            }
            let chunk_len = if len - data_offset > d {
                d
            } else {
                len - data_offset
            };
            let ghost data_before = data@;
            proof {
                assert forall|t: int| data_offset <= t < len implies #[trigger] data@[t] == msg[t] by {
                    if repaired_offsets@.contains(t as usize) {
                        let w = choose|w: int|
                            0 <= w < repaired_offsets@.len() && repaired_offsets@[w] == t as usize;
                        assert(repaired_offsets@[w] < data_offset);
                    }
                }
            }
            let mut block: Vec<u8> = Vec::with_capacity(d + p);
            let mut t: usize = 0;
            while t < chunk_len
                invariant
                    data_offset + chunk_len <= len,
                    len == data@.len(),
                    t <= chunk_len,
                    block@ =~= data@.subrange(data_offset as int, (data_offset + t) as int),
                decreases chunk_len - t,
            {
                block.push(data[data_offset + t]);
                t = t + 1;
            }
            let ghost chunk = block@;
            while block.len() < d
                invariant
                    chunk.len() == chunk_len,
                    chunk_len <= d,
                    block@.len() >= chunk_len,
                    block@.len() <= d,
                    block@ =~= chunk + zeros((block@.len() - chunk_len) as nat),
                decreases d - block@.len(),
            {
                block.push(0u8);
            }
            let ghost padded = block@;
            let mut t: usize = 0;
            while t < p
                invariant
                    parity_offset + p <= parity@.len(),
                    parity_offset + p <= usize::MAX,
                    t <= p,
                    padded.len() == d,
                    block@ =~= padded + parity@.subrange(
                        parity_offset as int,
                        (parity_offset + t) as int,
                    ),
                decreases p - t,
            {
                block.push(parity[parity_offset + t]);
                t = t + 1;
            }
            let syndromes = self.compute_syndromes(block.as_slice());
            let mut has_errors = false;
            let mut si: usize = 0;
            while si < syndromes.len()
                invariant
                    si <= syndromes@.len(),
                    has_errors <==> exists|x: int| 0 <= x < si && syndromes@[x] != 0u8,
                decreases syndromes@.len() - si,
            {
                if syndromes[si] != 0 {
                    has_errors = true;
                }
                si = si + 1;
            }
            let ghost blk = block@;
            proof {
                assert(chunk =~= msg.subrange(data_offset as int, (data_offset + chunk_len) as int));
                assert(blk =~= padded_chunk(msg, d as nat, b * (d as nat)) + parity@.subrange(
                    (b * p) as int,
                    (b * p + p) as int,
                ));
            }
            proof {
                if parity_protects(msg, parity@, d as nat, p as nat) {
                    assert(data@ == msg);
                    assert(padded =~= padded_chunk(msg, d as nat, b * (d as nat)));
                    assert(block@ =~= padded_chunk(msg, d as nat, b * (d as nat)) + parity@.subrange(
                        (b * p) as int,
                        (b * p + p) as int,
                    ));
                    let dn = d as nat;
                    let pn = p as nat;
                    assert(is_codeword(
                        padded_chunk(msg, dn, b * dn) + parity@.subrange(
                            (b * pn) as int,
                            (b * pn + pn) as int,
                        ),
                        pn,
                    ));
                    assert(is_codeword(block@, p as nat));
                    assert forall|x: int| 0 <= x < p implies syndromes@[x] == 0u8 by {
                        assert(peval(block@, alpha_pow(x as nat)) == 0);
                    }
                    assert(!has_errors);
                }
            }
            if has_errors {
                match self.repair_block(&mut block, &syndromes) {
                    Ok(corrected_indices) => {
                        let ghost blk_repaired = block@;
                        let mut q: usize = 0;
                        let ghost offs_before = repaired_offsets@;
                        while q < corrected_indices.len()
                            invariant
                                len == data@.len(),
                                len == msg.len(),
                                data_offset + chunk_len <= len,
                                data_offset < len,
                                block@.len() == d + p,
                                q <= corrected_indices@.len(),
                                forall|a: int, c: int|
                                    0 <= a < c < corrected_indices@.len() ==> corrected_indices@[a]
                                        < corrected_indices@[c],
                                forall|a: int|
                                    0 <= a < corrected_indices@.len() ==> corrected_indices@[a]
                                        < d + p,
                                total_repaired == repaired_offsets@.len(),
                                offs_before.len() <= repaired_offsets@.len(),
                                repaired_offsets@.len() - offs_before.len() <= q,
                                forall|a: int|
                                    0 <= a < offs_before.len() ==> repaired_offsets@[a]
                                        == offs_before[a],
                                forall|a: int| 0 <= a < offs_before.len() ==> offs_before[a] < data_offset,
                                forall|a: int|
                                    offs_before.len() <= a < repaired_offsets@.len()
                                        ==> repaired_offsets@[a] >= data_offset,
                                forall|a: int|
                                    0 <= a < repaired_offsets@.len() ==> repaired_offsets@[a] >= a,
                                forall|a: int, c: int|
                                    0 <= a < c < repaired_offsets@.len() ==> repaired_offsets@[a]
                                        < repaired_offsets@[c],
                                forall|a: int|
                                    0 <= a < repaired_offsets@.len() ==> repaired_offsets@[a]
                                        < data_offset + chunk_len,
                                q > 0 && repaired_offsets@.len() > offs_before.len() ==> repaired_offsets@.last()
                                    < data_offset + corrected_indices@[q - 1] + 1,
                                forall|t: int|
                                    0 <= t < len && !repaired_offsets@.contains(t as usize)
                                        ==> data@[t] == msg[t],
                                block@ == blk_repaired,
                                data_before.len() == len,
                                forall|tt: int|
                                    0 <= tt < len && (forall|a: int|
                                        0 <= a < q ==> data_offset + corrected_indices@[a] != tt)
                                        ==> #[trigger] data@[tt] == data_before[tt],
                                forall|a: int|
                                    0 <= a < q && corrected_indices@[a] < chunk_len
                                        ==> #[trigger] data@[data_offset + corrected_indices@[a]]
                                        == block@[corrected_indices@[a] as int],
                            decreases corrected_indices@.len() - q,
                        {
                            let idx = corrected_indices[q];
                            if idx < chunk_len {
                                proof {
                                    let n = repaired_offsets@.len();
                                    if n > offs_before.len() {
                                        assert(corrected_indices@[q - 1] < idx);
                                        assert(repaired_offsets@[n - 1] >= n - 1);
                                    } else if n > 0 {
                                        assert(repaired_offsets@[n - 1] == offs_before[n - 1]);
                                        assert(repaired_offsets@[n - 1] >= n - 1);
                                    }
                                    assert(total_repaired <= data_offset + idx);
                                }
                                let ghost offs_prev = repaired_offsets@;
                                let ghost data_prev = data@;
                                data[data_offset + idx] = block[idx];
                                repaired_offsets.push(data_offset + idx);
                                proof {
                                    assert forall|t: int|
                                        0 <= t < len && !repaired_offsets@.contains(
                                            t as usize,
                                        ) implies data@[t] == msg[t] by {
                                        if offs_prev.contains(t as usize) {
                                            let w = choose|w: int|
                                                0 <= w < offs_prev.len() && offs_prev[w] == t as usize;
                                            assert(repaired_offsets@[w] == t as usize);
                                        }
                                        assert(repaired_offsets@[offs_prev.len() as int] == (
                                        data_offset + idx) as usize);
                                        assert(t != data_offset + idx);
                                        assert(data@[t] == data_prev[t]);
                                    }
                                }
                                total_repaired = total_repaired + 1;
                                proof {
                                    let n = repaired_offsets@.len();
                                    assert(repaired_offsets@[n - 1] == (data_offset + idx) as usize);
                                    assert(repaired_offsets@.contains((data_offset + idx) as usize));
                                }
                            }
                            q = q + 1;
                        }
                        proof {
                            assert forall|m: Seq<u8>|
                                #[trigger] single_error_restorable(msg, m, parity@, d as nat, p as nat) implies
                                one_error_per_block(msg, m, d as nat, (data_offset + chunk_len) as nat) && (
                                forall|t: int| 0 <= t < data_offset + chunk_len ==> data@[t] == m[t]) by {
                                let (pos, y) = lemma_located_block(
                                    msg,
                                    m,
                                    parity@,
                                    d as nat,
                                    p as nat,
                                    b,
                                    data_offset as nat,
                                    chunk_len as nat,
                                    blk,
                                    syndromes@,
                                );
                                assert(single_error_syndromes(syndromes@, blk.len(), pos, y));
                                assert(corrected_indices@ == seq![pos as usize]);
                                assert forall|t: int| 0 <= t < data_offset + chunk_len implies data@[t] == m[t] by {
                                    if t == data_offset + pos {
                                        assert(corrected_indices@[0] == pos as usize);
                                    } else if t >= data_offset {
                                        assert(forall|a: int|
                                            0 <= a < corrected_indices@.len() ==> data_offset
                                                + corrected_indices@[a] != t);
                                        assert(data@[t] == data_before[t]);
                                    } else {
                                        assert(forall|a: int|
                                            0 <= a < corrected_indices@.len() ==> data_offset
                                                + corrected_indices@[a] != t);
                                        assert(data@[t] == data_before[t]);
                                    }
                                }
                            }
                        }
                    },
                    Err(e) => {
                        let mut reason = String::new();
                        push_str(&mut reason, "Unrecoverable corruption in block: ");
                        push_str(&mut reason, e.as_str());
                        proof {
                            assert forall|m: Seq<u8>|
                                #[trigger] single_error_restorable(msg, m, parity@, d as nat, p as nat) implies false by {
                                let (pos, y) = lemma_located_block(
                                    msg,
                                    m,
                                    parity@,
                                    d as nat,
                                    p as nat,
                                    b,
                                    data_offset as nat,
                                    chunk_len as nat,
                                    blk,
                                    syndromes@,
                                );
                                assert(single_error_syndromes(syndromes@, blk.len(), pos, y));
                            }
                        }
                        return FecStatus::Unrecoverable { reason };
                    },
                }
            } else {
                proof {
                    assert forall|m: Seq<u8>|
                        #[trigger] single_error_restorable(msg, m, parity@, d as nat, p as nat) implies
                        one_error_per_block(msg, m, d as nat, (data_offset + chunk_len) as nat) && (forall|t: int|
                        0 <= t < data_offset + chunk_len ==> data@[t] == m[t]) by {
                        lemma_clean_block(
                            msg,
                            m,
                            parity@,
                            d as nat,
                            p as nat,
                            b,
                            data_offset as nat,
                            chunk_len as nat,
                            blk,
                            syndromes@,
                        );
                    }
                }
            }
            data_offset = data_offset + chunk_len;
            parity_offset = parity_offset + p;
            proof {
                b = b + 1;
                assert((b - 1) * d + d == b * d) by (nonlinear_arith);
            }
        }
        if total_repaired > 0 {
            FecStatus::Repaired { corrected_byte_count: total_repaired, repaired_offsets }
        } else {
            FecStatus::Intact
        }
    }
}

} // verus!
