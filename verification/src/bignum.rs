//! Fixed-width unsigned integers held as big-endian byte strings.

use vstd::prelude::*;
use vstd::arithmetic::div_mod::lemma_fundamental_div_mod_converse;

verus! {

/// The natural number that the big-endian byte string `s` encodes.
pub open spec fn be_nat(s: Seq<u8>) -> nat
    decreases s.len(),
{
    if s.len() == 0 {
        0
    } else {
        be_nat(s.drop_last()) * 256 + s.last() as nat
    }
}

/// `256` to the power `e`.
pub open spec fn pow256(e: nat) -> nat
    decreases e,
{
    if e == 0 {
        1
    } else {
        256 * pow256((e - 1) as nat)
    }
}

/// The `len` low-order bytes of `v`, most significant first.
pub open spec fn nat_to_be(len: nat, v: nat) -> Seq<u8>
    decreases len,
{
    if len == 0 {
        Seq::empty()
    } else {
        nat_to_be((len - 1) as nat, v / 256).push((v % 256) as u8)
    }
}

/// `n` zero bytes.
pub open spec fn zeros(n: nat) -> Seq<u8> {
    Seq::new(n, |i: int| 0u8)
}

pub proof fn lemma_pow256_positive(e: nat)
    ensures
        pow256(e) >= 1,
    decreases e,
{
    if e > 0 {
        lemma_pow256_positive((e - 1) as nat);
    }
}

/// `256^a <= 256^b` for `a <= b`.
pub proof fn lemma_pow256_monotone(a: nat, b: nat)
    requires
        a <= b,
    ensures
        pow256(a) <= pow256(b),
    decreases b,
{
    if a < b {
        lemma_pow256_monotone(a, (b - 1) as nat);
        lemma_pow256_positive((b - 1) as nat);
    }
}

/// A byte string with a non-zero leading byte encodes at least `256^(len-1)`.
pub proof fn lemma_be_leading_byte(s: Seq<u8>)
    requires
        s.len() >= 1,
        s[0] >= 1,
    ensures
        be_nat(s) >= pow256((s.len() - 1) as nat),
{
    lemma_be_skip_step(s, 0);
    assert(s.skip(0) =~= s);
    let p = pow256((s.len() - 1) as nat);
    let f = s[0];
    assert(f * p >= p) by (nonlinear_arith)
        requires
            f >= 1,
            p >= 0,
    ;
}

pub proof fn lemma_be_push(s: Seq<u8>, x: u8)
    ensures
        be_nat(s.push(x)) == be_nat(s) * 256 + x,
{
    assert(s.push(x).drop_last() =~= s);
}

pub proof fn lemma_be_take_step(s: Seq<u8>, i: int)
    requires
        0 <= i < s.len(),
    ensures
        be_nat(s.take(i + 1)) == be_nat(s.take(i)) * 256 + s[i],
{
    assert(s.take(i + 1).drop_last() =~= s.take(i));
}

pub proof fn lemma_be_take_all(s: Seq<u8>)
    ensures
        s.take(s.len() as int) == s,
{
    assert(s.take(s.len() as int) =~= s);
}

/// A byte string of length `len` encodes a number below `256^len`.
pub proof fn lemma_be_nat_bound(s: Seq<u8>)
    ensures
        be_nat(s) < pow256(s.len()),
    decreases s.len(),
{
    if s.len() > 0 {
        lemma_be_nat_bound(s.drop_last());
    }
}

pub proof fn lemma_be_cons(x: u8, t: Seq<u8>)
    ensures
        be_nat(seq![x] + t) == x * pow256(t.len()) + be_nat(t),
    decreases t.len(),
{
    let u = seq![x] + t;
    if t.len() == 0 {
        assert(u.drop_last() =~= Seq::<u8>::empty());
        assert(u.last() == x);
        assert(pow256(0) == 1);
        assert(be_nat(u) == be_nat(u.drop_last()) * 256 + x);
        assert(be_nat(Seq::<u8>::empty()) == 0);
    } else {
        assert(u.drop_last() =~= seq![x] + t.drop_last());
        assert(u.last() == t.last());
        lemma_be_cons(x, t.drop_last());
        let p = pow256((t.len() - 1) as nat);
        assert(pow256(t.len()) == 256 * p);
        assert((x * p) * 256 == x * (256 * p)) by (nonlinear_arith);
        assert(be_nat(t) == be_nat(t.drop_last()) * 256 + t.last());
        assert(be_nat(u) == be_nat(u.drop_last()) * 256 + u.last());
        assert((x * p + be_nat(t.drop_last())) * 256 == (x * p) * 256 + be_nat(t.drop_last()) * 256) by (nonlinear_arith);
    }
}

/// The value of a suffix, split at its first byte.
pub proof fn lemma_be_skip_step(s: Seq<u8>, i: int)
    requires
        0 <= i < s.len(),
    ensures
        be_nat(s.skip(i)) == s[i] * pow256((s.len() - i - 1) as nat) + be_nat(s.skip(i + 1)),
{
    assert(s.skip(i) =~= seq![s[i]] + s.skip(i + 1));
    lemma_be_cons(s[i], s.skip(i + 1));
}

/// Leading zero bytes do not change the value.
pub proof fn lemma_be_zeros_prefix(m: nat, s: Seq<u8>)
    ensures
        be_nat(zeros(m) + s) == be_nat(s),
    decreases s.len(),
{
    if s.len() == 0 {
        lemma_be_zeros(m);
        assert(zeros(m) + s =~= zeros(m));
    } else {
        assert((zeros(m) + s).drop_last() =~= zeros(m) + s.drop_last());
        lemma_be_zeros_prefix(m, s.drop_last());
    }
}

pub proof fn lemma_be_zeros(m: nat)
    ensures
        be_nat(zeros(m)) == 0,
    decreases m,
{
    if m > 0 {
        assert(zeros(m).drop_last() =~= zeros((m - 1) as nat));
        lemma_be_zeros((m - 1) as nat);
    }
}

pub proof fn lemma_nat_to_be_len(len: nat, v: nat)
    ensures
        nat_to_be(len, v).len() == len,
    decreases len,
{
    if len > 0 {
        lemma_nat_to_be_len((len - 1) as nat, v / 256);
    }
}

/// Encoding a byte string's value in as many bytes gives back the string.
pub proof fn lemma_nat_to_be_of_be(s: Seq<u8>)
    ensures
        nat_to_be(s.len(), be_nat(s)) == s,
    decreases s.len(),
{
    if s.len() > 0 {
        let d = s.drop_last();
        lemma_fundamental_div_mod_converse(be_nat(s) as int, 256, be_nat(d) as int, s.last() as int);
        lemma_nat_to_be_of_be(d);
        assert(d.push(s.last()) =~= s);
    }
}

/// Decoding the `len`-byte encoding of `v < 256^len` gives back `v`.
pub proof fn lemma_be_of_nat_to_be(len: nat, v: nat)
    requires
        v < pow256(len),
    ensures
        be_nat(nat_to_be(len, v)) == v,
        nat_to_be(len, v).len() == len,
    decreases len,
{
    lemma_nat_to_be_len(len, v);
    if len > 0 {
        let p = pow256((len - 1) as nat);
        lemma_fundamental_div_mod_converse(v as int, 256, v as int / 256, v as int % 256);
        assert(v / 256 < p) by (nonlinear_arith)
            requires
                v < 256 * p,
        ;
        lemma_be_of_nat_to_be((len - 1) as nat, v / 256);
        lemma_be_push(nat_to_be((len - 1) as nat, v / 256), (v % 256) as u8);
    }
}

/// Two byte strings of one length with one value are equal.
pub proof fn lemma_be_injective(a: Seq<u8>, b: Seq<u8>)
    requires
        a.len() == b.len(),
        be_nat(a) == be_nat(b),
    ensures
        a == b,
{
    lemma_nat_to_be_of_be(a);
    lemma_nat_to_be_of_be(b);
}

/// Whether `be(a) < be(b)`, for two strings of one length. Every byte is
/// examined whatever the values.
pub fn bytes_less_than(a: &[u8], b: &[u8]) -> (r: bool)
    requires
        a@.len() == b@.len(),
    ensures
        r == (be_nat(a@) < be_nat(b@)),
{
    let mut lt: bool = false;
    let mut eq: bool = true;
    let mut i: usize = 0;
    while i < a.len()
        invariant
            a@.len() == b@.len(),
            0 <= i <= a@.len(),
            lt == (be_nat(a@.take(i as int)) < be_nat(b@.take(i as int))),
            eq == (be_nat(a@.take(i as int)) == be_nat(b@.take(i as int))),
        decreases a@.len() - i,
    {
        proof {
            lemma_be_take_step(a@, i as int);
            lemma_be_take_step(b@, i as int);
        }
        let x: u8 = a[i];
        let y: u8 = b[i];
        if eq {
            lt = x < y;
            eq = x == y;
        }
        i += 1;
    }
    proof {
        lemma_be_take_all(a@);
        lemma_be_take_all(b@);
    }
    lt
}

/// `be(a) / 2`, in as many bytes as `a`.
pub fn shift_right_one(a: &[u8]) -> (r: Vec<u8>)
    ensures
        r@.len() == a@.len(),
        be_nat(r@) == be_nat(a@) / 2,
{
    let mut r: Vec<u8> = Vec::new();
    let mut carried: u8 = 0;
    let mut i: usize = 0;
    while i < a.len()
        invariant
            r@.len() == i,
            0 <= i <= a@.len(),
            carried <= 1,
            2 * be_nat(r@) + carried == be_nat(a@.take(i as int)),
        decreases a@.len() - i,
    {
        let x: u8 = a[i];
        let o: u8 = (x >> 1) | (carried << 7);
        let low: u8 = x & 1;
        assert(o == x / 2 + 128 * carried && low == x % 2) by (bit_vector)
            requires
                o == (x >> 1) | (carried << 7),
                low == x & 1,
                carried <= 1,
        ;
        proof {
            lemma_be_push(r@, o);
            lemma_be_take_step(a@, i as int);
        }
        r.push(o);
        carried = low;
        i += 1;
    }
    proof {
        lemma_be_take_all(a@);
    }
    r
}

/// `be(a) + be(b)`, for two strings of one length whose sum fits in it.
pub fn add_bytes(a: &[u8], b: &[u8]) -> (r: Vec<u8>)
    requires
        a@.len() == b@.len(),
        be_nat(a@) + be_nat(b@) < pow256(a@.len()),
    ensures
        r@.len() == a@.len(),
        be_nat(r@) == be_nat(a@) + be_nat(b@),
{
    let n: usize = a.len();
    let mut r: Vec<u8> = vec![0u8; n];
    let mut carry: u8 = 0;
    let mut i: usize = n;
    proof {
        assert(r@.skip(n as int) =~= Seq::<u8>::empty());
        assert(a@.skip(n as int) =~= Seq::<u8>::empty());
        assert(b@.skip(n as int) =~= Seq::<u8>::empty());
    }
    while i > 0
        invariant
            r@.len() == n,
            a@.len() == n,
            b@.len() == n,
            i <= n,
            carry <= 1,
            be_nat(r@.skip(i as int)) + carry * pow256((n - i) as nat) == be_nat(
                a@.skip(i as int),
            ) + be_nat(b@.skip(i as int)),
        decreases i,
    {
        i -= 1;
        let x: u8 = a[i];
        let y: u8 = b[i];
        let sum: u16 = x as u16 + y as u16 + carry as u16;
        let byte: u8 = (sum % 256) as u8;
        let next: u8 = (sum / 256) as u8;
        let ghost old_r = r@;
        r.set(i, byte);
        proof {
            let p = pow256((n - i - 1) as nat);
            assert(pow256((n - i) as nat) == 256 * p);
            assert(r@.skip(i + 1) =~= old_r.skip(i + 1));
            lemma_be_skip_step(r@, i as int);
            lemma_be_skip_step(a@, i as int);
            lemma_be_skip_step(b@, i as int);
            assert(sum == byte + 256 * next);
            assert(byte * p + next * (256 * p) == x * p + y * p + carry * p) by (nonlinear_arith)
                requires
                    byte + 256 * next == x + y + carry,
            ;
        }
        carry = next;
    }
    proof {
        assert(r@.skip(0) =~= r@);
        assert(a@.skip(0) =~= a@);
        assert(b@.skip(0) =~= b@);
        lemma_pow256_positive(n as nat);
        if carry > 0 {
            assert(carry * pow256(n as nat) >= pow256(n as nat)) by (nonlinear_arith)
                requires
                    carry >= 1,
            ;
        }
    }
    r
}

/// `s` preceded by enough zero bytes to make `len` bytes in all.
pub fn pad_to(len: usize, s: &[u8]) -> (r: Vec<u8>)
    requires
        s@.len() <= len,
    ensures
        r@ == zeros((len - s@.len()) as nat) + s@,
        r@.len() == len,
        be_nat(r@) == be_nat(s@),
{
    let mut r: Vec<u8> = Vec::new();
    let m: usize = len - s.len();
    let mut i: usize = 0;
    while i < m
        invariant
            i <= m,
            r@ == zeros(i as nat),
        decreases m - i,
    {
        r.push(0u8);
        i += 1;
        proof {
            assert(r@ =~= zeros(i as nat));
        }
    }
    let mut j: usize = 0;
    while j < s.len()
        invariant
            j <= s@.len(),
            r@ == zeros(m as nat) + s@.take(j as int),
        decreases s@.len() - j,
    {
        r.push(s[j]);
        j += 1;
        proof {
            assert(r@ =~= zeros(m as nat) + s@.take(j as int));
        }
    }
    proof {
        lemma_be_take_all(s@);
        lemma_be_zeros_prefix(m as nat, s@);
    }
    r
}

} // verus!
