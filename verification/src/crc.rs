//! The 32-bit integrity code over an entry's key and value bytes.
//!
//! The code is a polynomial hash over an odd base, reduced modulo `2^32`:
//! deterministic, a pure function of the two byte sequences, and provably
//! sensitive to a change of any single byte of either input
//! (`lemma_checksum_key_sensitive`, `lemma_checksum_value_sensitive`).
//! Header metadata is not covered: a corrupted header field cannot be seen
//! by this check alone.

use vstd::prelude::*;
use vstd::arithmetic::div_mod::{
    lemma_add_mod_noop, lemma_fundamental_div_mod, lemma_mod_bound, lemma_mod_breakdown,
    lemma_mod_equivalence, lemma_mod_mod, lemma_mod_multiples_basic, lemma_mul_mod_noop,
    lemma_mul_mod_noop_left, lemma_small_mod,
};
use vstd::arithmetic::mul::{
    lemma_mul_is_associative, lemma_mul_is_commutative, lemma_mul_is_distributive_add_other_way,
    lemma_mul_is_distributive_sub_other_way, lemma_mul_nonnegative,
};
use vstd::arithmetic::power::{lemma_pow0, lemma_pow1, lemma_pow_adds, lemma_pow_positive, pow};
use vstd::arithmetic::power2::{lemma2_to64, lemma_pow2, pow2};

verus! {

/// Base of the polynomial checksum. Odd on purpose: every power of an odd
/// base is a unit modulo `2^32`, which is what makes single-byte damage
/// provably change the code.
pub const CHECKSUM_BASE: u64 = 16777619;

/// The checksum is reduced to 32 bits.
pub const CHECKSUM_MOD: u64 = 0x1_0000_0000;

/// The exact, unreduced polynomial of a byte sequence over `CHECKSUM_BASE`.
pub open spec fn poly(s: Seq<u8>) -> nat
    decreases s.len(),
{
    if s.len() == 0 {
        0
    } else {
        poly(s.drop_last()) * (CHECKSUM_BASE as nat) + (s.last() as nat)
    }
}

/// The 32-bit integrity code of a key and a value: the reduced polynomial of
/// the key bytes followed by the value bytes.
pub open spec fn checksum(key: Seq<u8>, value: Seq<u8>) -> u32 {
    (poly(key + value) % (CHECKSUM_MOD as nat)) as u32
}

/// Extending a sequence by one byte extends its polynomial by one step.
pub proof fn lemma_poly_push(s: Seq<u8>, b: u8)
    ensures
        poly(s.push(b)) == poly(s) * (CHECKSUM_BASE as nat) + b,
{
    assert(s.push(b).drop_last() =~= s);
    assert(s.push(b).last() == b);
}

/// One reduced polynomial step preserves the reduced value.
proof fn lemma_step_mod(h: int, b: u8)
    ensures
        ((h % (CHECKSUM_MOD as int)) * (CHECKSUM_BASE as int) + b) % (CHECKSUM_MOD as int)
            == (h * (CHECKSUM_BASE as int) + b) % (CHECKSUM_MOD as int),
{
    let m = CHECKSUM_MOD as int;
    let base = CHECKSUM_BASE as int;
    lemma_mul_mod_noop_left(h, base, m);
    lemma_add_mod_noop((h % m) * base, b as int, m);
    lemma_add_mod_noop(h * base, b as int, m);
    lemma_small_mod(b as nat, CHECKSUM_MOD as nat);
}

/// The integrity code over a key and a value.
///
/// Deterministic: equal inputs always give equal results, here and on every
/// machine, because the result is `checksum` of the two byte sequences.
pub fn hash(key: &Vec<u8>, value: &Vec<u8>) -> (r: u32)
    ensures
        r == checksum(key@, value@),
{
    let mut h: u64 = 0;
    let mut i: usize = 0;
    while i < key.len()
        invariant
            i <= key@.len(),
            h == poly(key@.take(i as int)) % (CHECKSUM_MOD as nat),
            h < CHECKSUM_MOD,
        decreases key@.len() - i,
    {
        proof {
            lemma_poly_push(key@.take(i as int), key@[i as int]);
            assert(key@.take(i as int).push(key@[i as int]) =~= key@.take(i as int + 1));
            lemma_step_mod(poly(key@.take(i as int)) as int, key@[i as int]);
        }
        h = (h * CHECKSUM_BASE + key[i] as u64) % CHECKSUM_MOD;
        i = i + 1;
    }
    proof {
        assert(key@.take(key@.len() as int) =~= key@);
    }
    let mut j: usize = 0;
    while j < value.len()
        invariant
            j <= value@.len(),
            h == poly(key@ + value@.take(j as int)) % (CHECKSUM_MOD as nat),
            h < CHECKSUM_MOD,
        decreases value@.len() - j,
    {
        proof {
            lemma_poly_push(key@ + value@.take(j as int), value@[j as int]);
            assert((key@ + value@.take(j as int)).push(value@[j as int])
                =~= key@ + value@.take(j as int + 1));
            lemma_step_mod(poly(key@ + value@.take(j as int)) as int, value@[j as int]);
        }
        h = (h * CHECKSUM_BASE + value[j] as u64) % CHECKSUM_MOD;
        j = j + 1;
    }
    proof {
        assert(key@ + value@.take(value@.len() as int) =~= key@ + value@);
    }
    h as u32
}

/// The polynomial of a concatenation splits into its parts.
pub proof fn lemma_poly_append(a: Seq<u8>, b: Seq<u8>)
    ensures
        poly(a + b) == poly(a) * pow(CHECKSUM_BASE as int, b.len() as nat) + poly(b),
    decreases b.len(),
{
    let base = CHECKSUM_BASE as int;
    if b.len() == 0 {
        assert(a + b =~= a);
        lemma_pow0(base);
    } else {
        let b1 = b.drop_last();
        let x = b.last();
        lemma_poly_append(a, b1);
        assert(a + b =~= (a + b1).push(x));
        lemma_poly_push(a + b1, x);
        assert(b1.push(x) =~= b);
        lemma_poly_push(b1, x);
        let pa = poly(a) as int;
        let p1 = poly(b1) as int;
        let e1 = pow(base, b1.len() as nat);
        lemma_pow_adds(base, b1.len() as nat, 1);
        lemma_pow1(base);
        assert(pow(base, b.len() as nat) == e1 * base);
        assert(poly(a + b) == (pa * e1 + p1) * base + x);
        lemma_mul_is_distributive_add_other_way(base, pa * e1, p1);
        assert((pa * e1 + p1) * base == (pa * e1) * base + p1 * base);
        lemma_mul_is_associative(pa, e1, base);
        assert(poly(b) == p1 * base + x);
        assert(poly(a + b) == pa * (e1 * base) + (p1 * base + x));
    }
}

/// The polynomial split at one position: prefix, the byte there, suffix.
pub proof fn lemma_poly_decompose(s: Seq<u8>, i: int)
    requires
        0 <= i < s.len(),
    ensures
        poly(s) == poly(s.take(i)) * pow(CHECKSUM_BASE as int, (s.len() - i) as nat) + (
        s[i] as int) * pow(CHECKSUM_BASE as int, (s.len() - i - 1) as nat) + poly(s.skip(i + 1)),
{
    let base = CHECKSUM_BASE as int;
    let mid = seq![s[i]] + s.skip(i + 1);
    assert(s =~= s.take(i) + mid);
    lemma_poly_append(s.take(i), mid);
    lemma_poly_append(seq![s[i]], s.skip(i + 1));
    assert(seq![s[i]].drop_last() =~= Seq::<u8>::empty());
    assert(poly(Seq::<u8>::empty()) == 0);
    assert(seq![s[i]].last() == s[i]);
    assert(poly(seq![s[i]]) == poly(seq![s[i]].drop_last()) * (CHECKSUM_BASE as nat) + (seq![
        s[i],
    ].last() as nat));
    assert(poly(seq![s[i]]) == s[i]);
    assert(mid.len() == s.len() - i);
    let e1 = pow(base, (s.len() - i - 1) as nat);
    lemma_pow_adds(base, 1, (s.len() - i - 1) as nat);
    lemma_pow1(base);
    assert(pow(base, (s.len() - i) as nat) == base * e1);
    let pk = poly(s.skip(i + 1)) as int;
    assert(poly(mid) == (s[i] as int) * e1 + pk);
}

/// Every power of the odd base is odd.
pub proof fn lemma_pow_base_odd(k: nat)
    ensures
        pow(CHECKSUM_BASE as int, k) % 2 == 1,
    decreases k,
{
    let base = CHECKSUM_BASE as int;
    if k == 0 {
        lemma_pow0(base);
    } else {
        lemma_pow_base_odd((k - 1) as nat);
        let p = pow(base, (k - 1) as nat);
        lemma_pow_adds(base, (k - 1) as nat, 1);
        lemma_pow1(base);
        assert(pow(base, k) == p * base);
        lemma_mul_mod_noop(base, p, 2);
        assert(((base % 2) * (p % 2)) % 2 == (base * p) % 2);
        assert(base % 2 == 1);
    }
}

/// A multiple of an odd number that vanishes modulo a power of two already
/// vanished: powers of two share no factor with an odd number.
proof fn lemma_odd_factor_vanishes(d: int, m: int, k: nat)
    requires
        0 <= d,
        0 <= m,
        m % 2 == 1,
        (d * m) % (pow2(k) as int) == 0,
    ensures
        d % (pow2(k) as int) == 0,
    decreases k,
{
    lemma2_to64();
    if k == 0 {
        lemma_fundamental_div_mod(d, 1);
        lemma_mod_bound(d, 1);
    } else {
        let p = pow2((k - 1) as nat) as int;
        vstd::arithmetic::power2::lemma_pow2_pos((k - 1) as nat);
        vstd::arithmetic::power2::lemma_pow2_unfold(k);
        assert(pow2(k) as int == 2 * p);
        lemma_mod_mod(d * m, 2, p);
        assert((d * m) % 2 == 0);
        if d % 2 != 0 {
            lemma_mod_bound(d, 2);
            lemma_mod_bound(m, 2);
            lemma_mul_mod_noop(d, m, 2);
            assert(false);
        }
        lemma_fundamental_div_mod(d, 2);
        let d2 = d / 2;
        assert(d == 2 * d2);
        lemma_mul_is_associative(2, d2, m);
        assert(d * m == 2 * (d2 * m));
        lemma_mul_nonnegative(d, m);
        lemma_mod_breakdown(d * m, 2, p);
        assert((d * m) / 2 == d2 * m) by {
            vstd::arithmetic::div_mod::lemma_div_multiples_vanish(d2 * m, 2);
        };
        assert(2 * ((d2 * m) % p) == 0);
        lemma_odd_factor_vanishes(d2, m, (k - 1) as nat);
        lemma_fundamental_div_mod(d2, p);
        let q = d2 / p;
        assert(d2 == p * q);
        lemma_mul_is_associative(2, p, q);
        assert(d == (2 * p) * q) by {
            lemma_mul_is_commutative(p, q);
            lemma_mul_is_associative(2, q, p);
            lemma_mul_is_commutative(2 * q, p);
            lemma_mul_is_commutative(2 * p, q);
            lemma_mul_is_associative(2, p, q);
        };
        lemma_mul_is_commutative(2 * p, q);
        lemma_mod_multiples_basic(q, 2 * p);
    }
}

/// Two equal-length byte sequences that differ in exactly one byte have
/// different reduced polynomials.
proof fn lemma_poly_mod_single_diff_ordered(s: Seq<u8>, t: Seq<u8>, i: int)
    requires
        s.len() == t.len(),
        0 <= i < s.len(),
        s[i] > t[i],
        forall|j: int| 0 <= j < s.len() && j != i ==> s[j] == t[j],
    ensures
        poly(s) % (CHECKSUM_MOD as nat) != poly(t) % (CHECKSUM_MOD as nat),
{
    let m = CHECKSUM_MOD as int;
    let base = CHECKSUM_BASE as int;
    assert(s.take(i) =~= t.take(i));
    assert(s.skip(i + 1) =~= t.skip(i + 1));
    lemma_poly_decompose(s, i);
    lemma_poly_decompose(t, i);
    let k = (s.len() - i - 1) as nat;
    let pw = pow(base, k);
    lemma_pow_positive(base, k);
    let d = s[i] - t[i];
    lemma_mul_is_distributive_sub_other_way(pw, s[i] as int, t[i] as int);
    assert(poly(s) as int - poly(t) as int == d * pw);
    if poly(s) % (CHECKSUM_MOD as nat) == poly(t) % (CHECKSUM_MOD as nat) {
        lemma_mod_equivalence(poly(s) as int, poly(t) as int, m);
        assert((d * pw) % m == 0);
        lemma_pow_base_odd(k);
        lemma2_to64();
        lemma_pow2(32);
        assert(pow2(32) as int == m);
        lemma_odd_factor_vanishes(d, pw, 32);
        lemma_small_mod(d as nat, CHECKSUM_MOD as nat);
        assert(false);
    }
}

/// As `lemma_poly_mod_single_diff_ordered`, for either order of the bytes.
proof fn lemma_poly_mod_single_diff(s: Seq<u8>, t: Seq<u8>, i: int)
    requires
        s.len() == t.len(),
        0 <= i < s.len(),
        s[i] != t[i],
        forall|j: int| 0 <= j < s.len() && j != i ==> s[j] == t[j],
    ensures
        poly(s) % (CHECKSUM_MOD as nat) != poly(t) % (CHECKSUM_MOD as nat),
{
    if s[i] > t[i] {
        lemma_poly_mod_single_diff_ordered(s, t, i);
    } else {
        lemma_poly_mod_single_diff_ordered(t, s, i);
    }
}

/// Law: changing any single byte of the key, with the value unchanged,
/// changes the checksum — so the validity check of an otherwise valid entry
/// turns false.
pub proof fn lemma_checksum_key_sensitive(k1: Seq<u8>, k2: Seq<u8>, value: Seq<u8>, i: int)
    requires
        k1.len() == k2.len(),
        0 <= i < k1.len(),
        k1[i] != k2[i],
        forall|j: int| 0 <= j < k1.len() && j != i ==> k1[j] == k2[j],
    ensures
        checksum(k1, value) != checksum(k2, value),
{
    let s = k1 + value;
    let t = k2 + value;
    assert forall|j: int| 0 <= j < s.len() && j != i implies s[j] == t[j] by {
        if j < k1.len() {
            assert(s[j] == k1[j] && t[j] == k2[j]);
        } else {
            assert(s[j] == value[j - k1.len()] && t[j] == value[j - k1.len()]);
        }
    }
    lemma_poly_mod_single_diff(s, t, i);
    lemma_mod_bound(poly(s) as int, CHECKSUM_MOD as int);
    lemma_mod_bound(poly(t) as int, CHECKSUM_MOD as int);
}

/// Law: changing any single byte of the value, with the key unchanged,
/// changes the checksum — so the validity check of an otherwise valid entry
/// turns false.
pub proof fn lemma_checksum_value_sensitive(key: Seq<u8>, v1: Seq<u8>, v2: Seq<u8>, i: int)
    requires
        v1.len() == v2.len(),
        0 <= i < v1.len(),
        v1[i] != v2[i],
        forall|j: int| 0 <= j < v1.len() && j != i ==> v1[j] == v2[j],
    ensures
        checksum(key, v1) != checksum(key, v2),
{
    let s = key + v1;
    let t = key + v2;
    let di = key.len() + i;
    assert(s[di] == v1[i] && t[di] == v2[i]);
    assert forall|j: int| 0 <= j < s.len() && j != di implies s[j] == t[j] by {
        if j < key.len() {
            assert(s[j] == key[j] && t[j] == key[j]);
        } else {
            assert(s[j] == v1[j - key.len()] && t[j] == v2[j - key.len()]);
        }
    }
    lemma_poly_mod_single_diff(s, t, di);
    lemma_mod_bound(poly(s) as int, CHECKSUM_MOD as int);
    lemma_mod_bound(poly(t) as int, CHECKSUM_MOD as int);
}

} // verus!
