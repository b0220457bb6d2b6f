//! Facts about a Reed-Solomon block with exactly one damaged byte: its syndromes, the
//! error locator that Berlekamp-Massey builds for them, and the Chien and Forney steps.

use crate::gf256::{
    alpha_pow, gf_inv, gf_mul, gf_pow, lemma_alpha_order, lemma_mul_associative,
    lemma_mul_commutative, lemma_mul_distributive, lemma_mul_identity_zero, lemma_mul_inverse,
    lemma_peval_concat, lemma_peval_linear, lemma_peval_zeros, lemma_pow_add, lemma_pow_pow,
    lemma_xor_assoc, lemma_xor_facts, peval, zeros,
};
use crate::fec::{is_codeword, num_blocks, padded_chunk, parity_protects};
use vstd::prelude::*;

verus! {

/// `x` and `m` differ in at most one position of `[lo, hi)`.
pub open spec fn at_most_one_diff(x: Seq<u8>, m: Seq<u8>, lo: int, hi: int) -> bool {
    forall|i: int, j: int| #![trigger x[i], x[j]] lo <= i < j < hi && x[i] != m[i] ==> x[j] == m[j]
}

/// Cutting `x` into blocks of `d` bytes from `start` on, `x` differs from `m` in at most
/// one byte of each block.
pub open spec fn one_error_per_block(x: Seq<u8>, m: Seq<u8>, d: nat, start: nat) -> bool
    decreases x.len() + d - start,
{
    if d == 0 || start >= x.len() {
        true
    } else {
        &&& at_most_one_diff(
            x,
            m,
            start as int,
            if start + d <= x.len() { (start + d) as int } else { x.len() as int },
        )
        &&& one_error_per_block(x, m, d, start + d)
    }
}

/// `s` are the syndromes of a block of `n` bytes whose only error is the nonzero value
/// `y` added at position `pos`: `s[j] = y * X^j` with the locator `X = alpha^(n-1-pos)`.
pub open spec fn single_error_syndromes(s: Seq<u8>, n: nat, pos: nat, y: u8) -> bool {
    &&& y != 0
    &&& pos < n
    &&& n <= 255
    &&& forall|j: int| 0 <= j < s.len() ==> #[trigger] s[j] == gf_mul(y, gf_pow(alpha_pow((n - 1 - pos) as nat), j as nat))
}

/// Sum of `p[i] * x^i` for `i < m` (a polynomial stored lowest coefficient first).
pub open spec fn asc_eval(p: Seq<u8>, x: u8, m: nat) -> u8
    decreases m,
{
    if m == 0 {
        0u8
    } else {
        asc_eval(p, x, (m - 1) as nat) ^ gf_mul(p[m - 1], gf_pow(x, (m - 1) as nat))
    }
}

/// The contribution of `s[i] * lam[t - i]` to coefficient `t` of the product `s * lam`.
pub open spec fn conv_term(s: Seq<u8>, lam: Seq<u8>, i: int, t: int) -> u8 {
    if 0 <= t - i < lam.len() {
        gf_mul(s[i], lam[t - i])
    } else {
        0u8
    }
}

/// Coefficient `t` of the product of `s` (its first `m` terms) and `lam`.
pub open spec fn conv(s: Seq<u8>, lam: Seq<u8>, m: nat, t: int) -> u8
    decreases m,
{
    if m == 0 {
        0u8
    } else {
        conv(s, lam, (m - 1) as nat, t) ^ conv_term(s, lam, m - 1, t)
    }
}

/// Field elements other than zero have no zero divisors: c*u = c*v with c != 0 gives u = v.
pub proof fn lemma_mul_cancel(c: u8, u: u8, v: u8)
    requires
        c != 0,
        gf_mul(c, u) == gf_mul(c, v),
    ensures
        u == v,
{
    lemma_mul_inverse(c);
    lemma_mul_associative(gf_inv(c), c, u);
    lemma_mul_associative(gf_inv(c), c, v);
    lemma_mul_identity_zero(u);
    lemma_mul_identity_zero(v);
}

/// Every power of alpha is nonzero.
pub proof fn lemma_alpha_pow_nonzero(a: nat)
    ensures
        alpha_pow(a) != 0,
    decreases a,
{
    if a > 0 {
        lemma_alpha_pow_nonzero((a - 1) as nat);
        let prev = alpha_pow((a - 1) as nat);
        if alpha_pow(a) == 0 {
            lemma_mul_identity_zero(2u8);
            lemma_mul_commutative(prev, 2u8);
            lemma_mul_identity_zero(0u8);
            assert(gf_mul(2u8, prev) == gf_mul(2u8, 0u8));
            lemma_mul_cancel(2u8, prev, 0u8);
        }
    }
}

/// alpha^m = 1 for m < 510 exactly at m = 0 and m = 255.
pub proof fn lemma_alpha_is_one(m: nat)
    requires
        m < 510,
    ensures
        alpha_pow(m) == 1u8 <==> (m == 0 || m == 255),
{
    lemma_alpha_order(m);
    if m > 255 {
        let r = (m - 255) as nat;
        lemma_alpha_order(r);
        lemma_pow_add(2u8, 255, r);
        assert(255 + r == m);
        lemma_mul_identity_zero(alpha_pow(r));
    }
}

/// Distinct exponents below 255 give distinct powers of alpha.
pub proof fn lemma_alpha_injective(a: nat, b: nat)
    requires
        a < 255,
        b < 255,
        alpha_pow(a) == alpha_pow(b),
    ensures
        a == b,
{
    if a < b {
        let d = (b - a) as nat;
        lemma_pow_add(2u8, a, d);
        assert(a + d == b);
        lemma_alpha_pow_nonzero(a);
        lemma_mul_identity_zero(alpha_pow(a));
        lemma_mul_cancel(alpha_pow(a), alpha_pow(d), 1u8);
        lemma_alpha_order(d);
    } else if b < a {
        let d = (a - b) as nat;
        lemma_pow_add(2u8, b, d);
        assert(b + d == a);
        lemma_alpha_pow_nonzero(b);
        lemma_mul_identity_zero(alpha_pow(b));
        lemma_mul_cancel(alpha_pow(b), alpha_pow(d), 1u8);
        lemma_alpha_order(d);
    }
}

/// The Chien test: for locator exponents `e`, `ei` below 255, `alpha^e` times the
/// candidate `alpha^((255 - ei % 255) % 255)` is 1 exactly when `e == ei`.
pub proof fn lemma_chien_test(e: nat, ei: nat)
    requires
        e < 255,
        ei < 255,
    ensures
        gf_mul(alpha_pow(e), alpha_pow(((255 - ei % 255) as nat % 255) as nat)) == 1u8 <==> e == ei,
{
    let c = ((255 - ei % 255) as nat % 255) as nat;
    lemma_pow_add(2u8, e, c);
    if ei == 0 {
        assert(c == 0);
        lemma_alpha_is_one(e + c);
    } else {
        assert(c == 255 - ei);
        lemma_alpha_is_one(e + c);
    }
}

/// Syndromes of a codeword with one byte changed: the codeword's value plus `y` times the
/// locator's power.
pub proof fn lemma_single_error_peval(c: Seq<u8>, pos: nat, y: u8, j: nat)
    requires
        pos < c.len(),
    ensures
        peval(c.update(pos as int, c[pos as int] ^ y), alpha_pow(j)) == peval(c, alpha_pow(j)) ^ gf_mul(
            y,
            gf_pow(alpha_pow((c.len() - 1 - pos) as nat), j),
        ),
{
    let n = c.len();
    let m = (n - 1 - pos) as nat;
    let x = alpha_pow(j);
    let e = zeros(pos).push(y) + zeros(m);
    assert(e.len() == n);
    let r = c.update(pos as int, c[pos as int] ^ y);
    assert forall|i: int| 0 <= i < n implies #[trigger] r[i] == c[i] ^ gf_mul(e[i], 1u8) by {
        lemma_mul_identity_zero(e[i]);
        lemma_xor_facts(c[i], 0u8);
    }
    assert(r =~= Seq::new(n, |i: int| c[i] ^ gf_mul(e[i], 1u8)));
    lemma_peval_linear(c, e, 1u8, x);
    lemma_mul_identity_zero(peval(e, x));
    // peval(e) = y * x^m
    lemma_peval_concat(zeros(pos).push(y), zeros(m), x);
    lemma_peval_zeros(m, x);
    lemma_peval_zeros(pos, x);
    assert(zeros(pos).push(y).drop_last() =~= zeros(pos));
    lemma_mul_identity_zero(x);
    lemma_xor_facts(y, 0u8);
    assert(peval(zeros(pos).push(y), x) == y);
    lemma_xor_facts(gf_mul(y, gf_pow(x, m)), 0u8);
    assert(peval(e, x) == gf_mul(y, gf_pow(x, m)));
    // (alpha^j)^m = (alpha^m)^j
    lemma_pow_pow(2u8, j, m);
    lemma_pow_pow(2u8, m, j);
    assert(j * m == m * j) by (nonlinear_arith);
}

/// The value and the locator of a single error are determined by its first two syndromes.
pub proof fn lemma_single_error_unique(s: Seq<u8>, n: nat, pos1: nat, y1: u8, pos2: nat, y2: u8)
    requires
        s.len() >= 2,
        single_error_syndromes(s, n, pos1, y1),
        single_error_syndromes(s, n, pos2, y2),
    ensures
        pos1 == pos2,
        y1 == y2,
{
    let x1 = alpha_pow((n - 1 - pos1) as nat);
    let x2 = alpha_pow((n - 1 - pos2) as nat);
    assert(s[0] == gf_mul(y1, gf_pow(x1, 0)));
    assert(s[0] == gf_mul(y2, gf_pow(x2, 0)));
    lemma_mul_identity_zero(y1);
    lemma_mul_identity_zero(y2);
    assert(s[1] == gf_mul(y1, gf_pow(x1, 1)));
    assert(s[1] == gf_mul(y2, gf_pow(x2, 1)));
    lemma_mul_identity_zero(x1);
    lemma_mul_identity_zero(x2);
    assert(gf_pow(x1, 1) == x1);
    assert(gf_pow(x2, 1) == x2);
    lemma_mul_cancel(y1, x1, x2);
    lemma_alpha_injective((n - 1 - pos1) as nat, (n - 1 - pos2) as nat);
}

/// For a single error, every syndrome past the first is the previous one times the
/// locator, so Berlekamp-Massey finds no discrepancy once its locator is `1 + X z`.
pub proof fn lemma_single_error_recurrence(y: u8, x: u8, n: nat)
    requires
        n >= 1,
    ensures
        gf_mul(y, gf_pow(x, n)) ^ gf_mul(x, gf_mul(y, gf_pow(x, (n - 1) as nat))) == 0u8,
{
    let pm = gf_pow(x, (n - 1) as nat);
    assert(gf_pow(x, n) == gf_mul(pm, x));
    lemma_mul_associative(y, pm, x);
    lemma_mul_commutative(x, gf_mul(y, pm));
    lemma_xor_facts(gf_mul(y, gf_pow(x, n)), 0u8);
}

/// The second Berlekamp-Massey step for a single error turns `1 + Y z` into `1 + X z`.
pub proof fn lemma_single_error_second_step(y: u8, x: u8)
    requires
        y != 0,
    ensures
        ({
            let delta = gf_mul(y, x) ^ gf_mul(y, y);
            &&& delta != 0 ==> y ^ gf_mul(delta, gf_mul(1u8, gf_inv(y))) == x
            &&& delta == 0 ==> y == x
        }),
{
    let delta = gf_mul(y, x) ^ gf_mul(y, y);
    let iy = gf_inv(y);
    lemma_mul_identity_zero(iy);
    lemma_mul_inverse(y);
    lemma_mul_commutative(delta, iy);
    lemma_mul_distributive(iy, gf_mul(y, x), gf_mul(y, y));
    lemma_mul_commutative(gf_mul(y, x), iy);
    lemma_mul_commutative(gf_mul(y, y), iy);
    lemma_mul_associative(iy, y, x);
    lemma_mul_associative(iy, y, y);
    lemma_mul_identity_zero(x);
    lemma_mul_identity_zero(y);
    assert(gf_mul(delta, iy) == x ^ y);
    lemma_xor_assoc(y, x, y);
    lemma_xor_facts(x, y);
    lemma_xor_facts(y, 0u8);
    assert(y ^ (y ^ x) == x) by (bit_vector);
    if delta == 0 {
        let a = gf_mul(y, x);
        let b = gf_mul(y, y);
        assert(a == b) by (bit_vector)
            requires
                a ^ b == 0u8,
        ;
        lemma_mul_cancel(y, x, y);
    }
}

/// Evaluating `1 + X z` (stored `[1, X]`) at `z`.
pub proof fn lemma_asc_eval_linear(x: u8, z: u8)
    ensures
        asc_eval(seq![1u8, x], z, 2) == 1u8 ^ gf_mul(x, z),
{
    let p = seq![1u8, x];
    lemma_mul_identity_zero(1u8);
    lemma_mul_identity_zero(z);
    assert(gf_pow(z, 0) == 1u8);
    assert(gf_pow(z, 1) == gf_mul(1u8, z));
    assert(asc_eval(p, z, 0) == 0u8);
    assert(asc_eval(p, z, 1) == 0u8 ^ gf_mul(1u8, 1u8));
    lemma_xor_facts(1u8, 0u8);
}

/// A polynomial whose only nonzero coefficient (among the first `m`) is the constant one
/// evaluates to that constant.
pub proof fn lemma_asc_eval_constant(w: Seq<u8>, z: u8, m: nat)
    requires
        1 <= m <= w.len(),
        forall|t: int| 1 <= t < m ==> w[t] == 0u8,
    ensures
        asc_eval(w, z, m) == w[0],
    decreases m,
{
    if m == 1 {
        lemma_mul_identity_zero(w[0]);
        lemma_xor_facts(w[0], 0u8);
        assert(gf_pow(z, 0) == 1u8);
        assert(asc_eval(w, z, 0) == 0u8);
        assert(asc_eval(w, z, 1) == 0u8 ^ gf_mul(w[0], gf_pow(z, 0)));
    } else {
        lemma_asc_eval_constant(w, z, (m - 1) as nat);
        lemma_mul_identity_zero(gf_pow(z, (m - 1) as nat));
        lemma_xor_facts(w[0], 0u8);
        assert(w[m - 1] == 0u8);
        assert(asc_eval(w, z, m) == asc_eval(w, z, (m - 1) as nat) ^ gf_mul(w[m - 1], gf_pow(z, (m - 1) as nat)));
    }
}

/// Coefficient `t` of `s * [l0, l1]`, as the first `m` terms of `s` contribute to it.
pub proof fn lemma_conv_two(s: Seq<u8>, lam: Seq<u8>, m: nat, t: int)
    requires
        lam.len() == 2,
        0 <= t,
    ensures
        conv(s, lam, m, t) == (if m + 1 <= t {
            0u8
        } else if m == t {
            if t >= 1 { gf_mul(s[t - 1], lam[1]) } else { 0u8 }
        } else if t >= 1 {
            gf_mul(s[t - 1], lam[1]) ^ gf_mul(s[t], lam[0])
        } else {
            gf_mul(s[0], lam[0])
        }),
    decreases m,
{
    if m > 0 {
        lemma_conv_two(s, lam, (m - 1) as nat, t);
        let i = m - 1;
        let prev = conv(s, lam, (m - 1) as nat, t);
        let term = conv_term(s, lam, i, t);
        assert(conv(s, lam, m, t) == prev ^ term);
        lemma_xor_facts(term, 0u8);
        lemma_xor_facts(prev, 0u8);
        if m + 1 <= t {
            assert(term == 0u8);
        } else if m == t {
            assert(prev == 0u8);
        } else if m == t + 1 {
            assert(term == gf_mul(s[t], lam[0]));
            if t == 0 {
                assert(prev == 0u8);
            }
        } else {
            assert(term == 0u8);
        }
    }
}

/// For single-error syndromes and the locator `[1, X]`, the error evaluator
/// `S * Lambda mod z^p` is the constant `Y`.
pub proof fn lemma_single_error_omega(s: Seq<u8>, y: u8, x: u8, t: int)
    requires
        0 <= t < s.len(),
        forall|j: int| 0 <= j < s.len() ==> #[trigger] s[j] == gf_mul(y, gf_pow(x, j as nat)),
    ensures
        conv(s, seq![1u8, x], s.len(), t) == (if t == 0 { y } else { 0u8 }),
{
    let lam = seq![1u8, x];
    lemma_conv_two(s, lam, s.len(), t);
    lemma_mul_identity_zero(s[t]);
    if t >= 1 {
        lemma_mul_commutative(s[t - 1], x);
        lemma_single_error_recurrence(y, x, t as nat);
        assert(s[t - 1] == gf_mul(y, gf_pow(x, (t - 1) as nat)));
        let a = gf_mul(x, s[t - 1]);
        let b = s[t];
        assert(b ^ a == 0u8);
        assert(a ^ b == 0u8) by (bit_vector)
            requires
                b ^ a == 0u8,
        ;
    } else {
        lemma_mul_identity_zero(y);
        assert(s[0] == gf_mul(y, gf_pow(x, 0)));
    }
}

/// `damaged` is the message `m`, protected by `parity` (blocks of `d` data bytes, `p >= 2`
/// parity bytes), with at most one byte changed in each block.
pub open spec fn single_error_restorable(damaged: Seq<u8>, m: Seq<u8>, parity: Seq<u8>, d: nat, p: nat) -> bool {
    &&& parity_protects(m, parity, d, p)
    &&& p >= 2
    &&& damaged.len() == m.len()
    &&& one_error_per_block(damaged, m, d, 0)
}

/// Block `b` of `msg` (data cut every `d` bytes, `p` parity bytes from `parity`) has its
/// one error `y` at position `pos`: the syndromes are those of that error, correcting it
/// gives the block of `m`, and every other byte of the block is `m`'s.
pub open spec fn located_error(
    msg: Seq<u8>,
    m: Seq<u8>,
    parity: Seq<u8>,
    d: nat,
    p: nat,
    b: nat,
    syn: Seq<u8>,
    pos: nat,
    y: u8,
) -> bool {
    let lo = (b * d) as int;
    let hi = if b * d + d <= msg.len() { (b * d + d) as int } else { msg.len() as int };
    let blk = padded_chunk(msg, d, b * d) + parity.subrange((b * p) as int, (b * p + p) as int);
    let bm = padded_chunk(m, d, b * d) + parity.subrange((b * p) as int, (b * p + p) as int);
    &&& single_error_syndromes(syn, d + p, pos, y)
    &&& lo + pos < hi
    &&& bm == blk.update(pos as int, blk[pos as int] ^ y)
    &&& m[lo + pos] == bm[pos as int]
    &&& forall|t: int| lo <= t < hi && t != lo + pos ==> #[trigger] msg[t] == m[t]
}

/// A block cut from a message that differs from the protected message `m` in at most one
/// byte: either its syndromes are all zero and it holds `m`'s bytes, or its syndromes are
/// those of that one byte, and correcting it gives `m`'s block.
#[verifier::spinoff_prover]
#[verifier::rlimit(40)]
pub proof fn lemma_damaged_block(
    msg: Seq<u8>,
    m: Seq<u8>,
    parity: Seq<u8>,
    d: nat,
    p: nat,
    b: nat,
    block: Seq<u8>,
    syn: Seq<u8>,
)
    requires
        parity_protects(m, parity, d, p),
        msg.len() == m.len(),
        d >= 1,
        d + p <= 255,
        b < num_blocks(msg.len(), d),
        b * d < msg.len(),
        at_most_one_diff(
            msg,
            m,
            (b * d) as int,
            if b * d + d <= msg.len() { (b * d + d) as int } else { msg.len() as int },
        ),
        block == padded_chunk(msg, d, b * d) + parity.subrange((b * p) as int, (b * p + p) as int),
        syn.len() == p,
        forall|i: int| 0 <= i < p ==> #[trigger] syn[i] == peval(block, alpha_pow(i as nat)),
    ensures
        ({
            let lo = (b * d) as int;
            let hi = if b * d + d <= msg.len() { (b * d + d) as int } else { msg.len() as int };
            let bm = padded_chunk(m, d, b * d) + parity.subrange((b * p) as int, (b * p + p) as int);
            ||| (forall|i: int| 0 <= i < p ==> #[trigger] syn[i] == 0u8) && (forall|t: int|
                lo <= t < hi ==> #[trigger] msg[t] == m[t])
            ||| exists|pos: nat, y: u8| #[trigger] located_error(msg, m, parity, d, p, b, syn, pos, y)
        }),
{
    let lo = (b * d) as int;
    let hi = if b * d + d <= msg.len() { (b * d + d) as int } else { msg.len() as int };
    let ps = parity.subrange((b * p) as int, (b * p + p) as int);
    let bm = padded_chunk(m, d, b * d) + ps;
    let nb = num_blocks(msg.len(), d);
    assert(num_blocks(m.len(), d) == nb);
    assert((b + 1) * p <= nb * p) by (nonlinear_arith)
        requires
            b + 1 <= nb,
    ;
    assert((b + 1) * p == b * p + p) by (nonlinear_arith);
    assert(is_codeword(bm, p));
    assert(block.len() == d + p);
    assert(bm.len() == d + p);
    if forall|t: int| lo <= t < hi ==> #[trigger] msg[t] == m[t] {
        assert(block =~= bm);
        assert forall|i: int| 0 <= i < p implies #[trigger] syn[i] == 0u8 by {
            assert(peval(bm, alpha_pow(i as nat)) == 0);
        }
    } else {
        let t0 = choose|t: int| lo <= t < hi && #[trigger] msg[t] != m[t];
        let pos = (t0 - lo) as nat;
        let y = msg[t0] ^ m[t0];
        assert forall|t: int| lo <= t < hi && t != t0 implies #[trigger] msg[t] == m[t] by {
            if t < t0 {
                if msg[t] != m[t] {
                    assert(msg[t0] == m[t0]);
                }
            } else {
                assert(msg[t] == m[t]);
            }
        }
        let a = msg[t0];
        let c = m[t0];
        assert(y != 0u8) by (bit_vector)
            requires
                a != c,
                y == a ^ c,
        ;
        assert(a ^ y == c && c ^ y == a) by (bit_vector)
            requires
                y == a ^ c,
        ;
        assert(block[pos as int] == a);
        assert(bm[pos as int] == c);
        assert(bm =~= block.update(pos as int, block[pos as int] ^ y));
        assert(block =~= bm.update(pos as int, bm[pos as int] ^ y));
        assert forall|j: int| 0 <= j < syn.len() implies #[trigger] syn[j] == gf_mul(
            y,
            gf_pow(alpha_pow((d + p - 1 - pos) as nat), j as nat),
        ) by {
            lemma_single_error_peval(bm, pos, y, j as nat);
            assert(peval(bm, alpha_pow(j as nat)) == 0);
            lemma_xor_facts(gf_mul(y, gf_pow(alpha_pow((d + p - 1 - pos) as nat), j as nat)), 0u8);
        }
        assert(single_error_syndromes(syn, d + p, pos, y));
        assert(located_error(msg, m, parity, d, p, b, syn, pos, y));
    }
}

/// The current block (from `lo`, `clen` bytes) of a restorable message, when some
/// syndrome is nonzero: the one damaged byte, its position and error value.
pub proof fn lemma_located_block(
    msg: Seq<u8>,
    m: Seq<u8>,
    parity: Seq<u8>,
    d: nat,
    p: nat,
    b: nat,
    lo: nat,
    clen: nat,
    blk: Seq<u8>,
    syn: Seq<u8>,
) -> (r: (nat, u8))
    requires
        single_error_restorable(msg, m, parity, d, p),
        d >= 1,
        d + p <= 255,
        one_error_per_block(msg, m, d, lo),
        lo == b * d,
        lo < msg.len(),
        clen == (if msg.len() - lo > d { d } else { (msg.len() - lo) as nat }),
        b < num_blocks(msg.len(), d),
        blk == padded_chunk(msg, d, b * d) + parity.subrange((b * p) as int, (b * p + p) as int),
        syn.len() == p,
        forall|i: int| 0 <= i < p ==> #[trigger] syn[i] == peval(blk, alpha_pow(i as nat)),
        exists|i: int| 0 <= i < p && syn[i] != 0u8,
    ensures
        one_error_per_block(msg, m, d, lo + clen),
        single_error_syndromes(syn, d + p, r.0, r.1),
        r.0 < clen,
        padded_chunk(m, d, b * d) + parity.subrange((b * p) as int, (b * p + p) as int) == blk.update(
            r.0 as int,
            blk[r.0 as int] ^ r.1,
        ),
        m[(lo + r.0) as int] == blk[r.0 as int] ^ r.1,
        forall|t: int| lo <= t < lo + clen && t != lo + r.0 ==> #[trigger] msg[t] == m[t],
{
    assert(one_error_per_block(msg, m, d, lo + d) && at_most_one_diff(
        msg,
        m,
        lo as int,
        if lo + d <= msg.len() { (lo + d) as int } else { msg.len() as int },
    ));
    if clen < d {
        assert(lo + clen == msg.len());
    }
    lemma_damaged_block(msg, m, parity, d, p, b, blk, syn);
    let bm = padded_chunk(m, d, b * d) + parity.subrange((b * p) as int, (b * p + p) as int);
    let (pos, y) = choose|pos: nat, y: u8| #[trigger] located_error(msg, m, parity, d, p, b, syn, pos, y);
    (pos, y)
}

/// The current block of a restorable message, when every syndrome is zero: it holds the
/// protected message's bytes.
pub proof fn lemma_clean_block(
    msg: Seq<u8>,
    m: Seq<u8>,
    parity: Seq<u8>,
    d: nat,
    p: nat,
    b: nat,
    lo: nat,
    clen: nat,
    blk: Seq<u8>,
    syn: Seq<u8>,
)
    requires
        single_error_restorable(msg, m, parity, d, p),
        d >= 1,
        d + p <= 255,
        one_error_per_block(msg, m, d, lo),
        lo == b * d,
        lo < msg.len(),
        clen == (if msg.len() - lo > d { d } else { (msg.len() - lo) as nat }),
        b < num_blocks(msg.len(), d),
        blk == padded_chunk(msg, d, b * d) + parity.subrange((b * p) as int, (b * p + p) as int),
        syn.len() == p,
        forall|i: int| 0 <= i < p ==> #[trigger] syn[i] == peval(blk, alpha_pow(i as nat)),
        forall|i: int| 0 <= i < p ==> #[trigger] syn[i] == 0u8,
    ensures
        one_error_per_block(msg, m, d, lo + clen),
        forall|t: int| lo <= t < lo + clen ==> #[trigger] msg[t] == m[t],
{
    assert(one_error_per_block(msg, m, d, lo + d) && at_most_one_diff(
        msg,
        m,
        lo as int,
        if lo + d <= msg.len() { (lo + d) as int } else { msg.len() as int },
    ));
    if clen < d {
        assert(lo + clen == msg.len());
    }
    lemma_damaged_block(msg, m, parity, d, p, b, blk, syn);
    let bm = padded_chunk(m, d, b * d) + parity.subrange((b * p) as int, (b * p + p) as int);
    if exists|pos: nat, y: u8| #[trigger] located_error(msg, m, parity, d, p, b, syn, pos, y) {
        let (pos, y) = choose|pos: nat, y: u8| #[trigger] located_error(msg, m, parity, d, p, b, syn, pos, y);
        assert(syn[0] == gf_mul(y, gf_pow(alpha_pow((d + p - 1 - pos) as nat), 0)));
        lemma_mul_identity_zero(y);
    }
}

} // verus!
