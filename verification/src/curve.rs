//! The two curves, their parameters, and affine points on them.

use vstd::prelude::*;
use vstd::arithmetic::power::pow;
use crate::bignum::{be_nat, nat_to_be, pow256, lemma_be_skip_step, lemma_be_nat_bound, lemma_be_of_nat_to_be};

verus! {

/// A NIST prime-order curve `y^2 = x^3 - 3x + b` over the integers modulo a
/// prime `q`, whose base point has the prime order `n`.
#[derive(Clone, Copy, Debug, PartialEq, Eq, Structural)]
pub enum Curve {
    P256,
    P384,
}

/// The order `n` of the base point of P-256, big-endian:
/// `ffffffff00000000ffffffffffffffffbce6faada7179e84f3b9cac2fc632551`.
pub open spec fn p256_n_seq() -> Seq<u8> {
    seq![
        0xffu8, 0xff, 0xff, 0xff, 0x00, 0x00, 0x00, 0x00, 0xff, 0xff, 0xff, 0xff, 0xff, 0xff, 0xff, 0xff,
        0xbc, 0xe6, 0xfa, 0xad, 0xa7, 0x17, 0x9e, 0x84, 0xf3, 0xb9, 0xca, 0xc2, 0xfc, 0x63, 0x25, 0x51,
    ]
}

/// The field modulus `q` of P-256, big-endian:
/// `ffffffff00000001000000000000000000000000ffffffffffffffffffffffff`.
pub open spec fn p256_q_seq() -> Seq<u8> {
    seq![
        0xffu8, 0xff, 0xff, 0xff, 0x00, 0x00, 0x00, 0x01, 0x00, 0x00, 0x00, 0x00, 0x00, 0x00, 0x00, 0x00,
        0x00, 0x00, 0x00, 0x00, 0xff, 0xff, 0xff, 0xff, 0xff, 0xff, 0xff, 0xff, 0xff, 0xff, 0xff, 0xff,
    ]
}

/// The coefficient `b` of P-256, big-endian:
/// `5ac635d8aa3a93e7b3ebbd55769886bc651d06b0cc53b0f63bce3c3e27d2604b`.
pub open spec fn p256_b_seq() -> Seq<u8> {
    seq![
        0x5au8, 0xc6, 0x35, 0xd8, 0xaa, 0x3a, 0x93, 0xe7, 0xb3, 0xeb, 0xbd, 0x55, 0x76, 0x98, 0x86, 0xbc,
        0x65, 0x1d, 0x06, 0xb0, 0xcc, 0x53, 0xb0, 0xf6, 0x3b, 0xce, 0x3c, 0x3e, 0x27, 0xd2, 0x60, 0x4b,
    ]
}

/// The order `n` of the base point of P-384, big-endian:
/// `ffffffffffffffffffffffffffffffffffffffffffffffffc7634d81f4372ddf581a0db248b0a77aecec196accc52973`.
pub open spec fn p384_n_seq() -> Seq<u8> {
    seq![
        0xffu8, 0xff, 0xff, 0xff, 0xff, 0xff, 0xff, 0xff, 0xff, 0xff, 0xff, 0xff, 0xff, 0xff, 0xff, 0xff,
        0xff, 0xff, 0xff, 0xff, 0xff, 0xff, 0xff, 0xff, 0xc7, 0x63, 0x4d, 0x81, 0xf4, 0x37, 0x2d, 0xdf,
        0x58, 0x1a, 0x0d, 0xb2, 0x48, 0xb0, 0xa7, 0x7a, 0xec, 0xec, 0x19, 0x6a, 0xcc, 0xc5, 0x29, 0x73,
    ]
}

/// The field modulus `q` of P-384, big-endian:
/// `fffffffffffffffffffffffffffffffffffffffffffffffffffffffffffffffeffffffff0000000000000000ffffffff`.
pub open spec fn p384_q_seq() -> Seq<u8> {
    seq![
        0xffu8, 0xff, 0xff, 0xff, 0xff, 0xff, 0xff, 0xff, 0xff, 0xff, 0xff, 0xff, 0xff, 0xff, 0xff, 0xff,
        0xff, 0xff, 0xff, 0xff, 0xff, 0xff, 0xff, 0xff, 0xff, 0xff, 0xff, 0xff, 0xff, 0xff, 0xff, 0xfe,
        0xff, 0xff, 0xff, 0xff, 0x00, 0x00, 0x00, 0x00, 0x00, 0x00, 0x00, 0x00, 0xff, 0xff, 0xff, 0xff,
    ]
}

/// The coefficient `b` of P-384, big-endian:
/// `b3312fa7e23ee7e4988e056be3f82d19181d9c6efe8141120314088f5013875ac656398d8a2ed19d2a85c8edd3ec2aef`.
pub open spec fn p384_b_seq() -> Seq<u8> {
    seq![
        0xb3u8, 0x31, 0x2f, 0xa7, 0xe2, 0x3e, 0xe7, 0xe4, 0x98, 0x8e, 0x05, 0x6b, 0xe3, 0xf8, 0x2d, 0x19,
        0x18, 0x1d, 0x9c, 0x6e, 0xfe, 0x81, 0x41, 0x12, 0x03, 0x14, 0x08, 0x8f, 0x50, 0x13, 0x87, 0x5a,
        0xc6, 0x56, 0x39, 0x8d, 0x8a, 0x2e, 0xd1, 0x9d, 0x2a, 0x85, 0xc8, 0xed, 0xd3, 0xec, 0x2a, 0xef,
    ]
}

/// The x coordinate of the base point `G` of P-256, big-endian:
/// `6b17d1f2e12c4247f8bce6e563a440f277037d812deb33a0f4a13945d898c296`.
pub open spec fn p256_gx_seq() -> Seq<u8> {
    seq![
        0x6bu8, 0x17, 0xd1, 0xf2, 0xe1, 0x2c, 0x42, 0x47, 0xf8, 0xbc, 0xe6, 0xe5, 0x63, 0xa4, 0x40, 0xf2,
        0x77, 0x03, 0x7d, 0x81, 0x2d, 0xeb, 0x33, 0xa0, 0xf4, 0xa1, 0x39, 0x45, 0xd8, 0x98, 0xc2, 0x96,
    ]
}

/// The y coordinate of the base point `G` of P-256, big-endian:
/// `4fe342e2fe1a7f9b8ee7eb4a7c0f9e162bce33576b315ececbb6406837bf51f5`.
pub open spec fn p256_gy_seq() -> Seq<u8> {
    seq![
        0x4fu8, 0xe3, 0x42, 0xe2, 0xfe, 0x1a, 0x7f, 0x9b, 0x8e, 0xe7, 0xeb, 0x4a, 0x7c, 0x0f, 0x9e, 0x16,
        0x2b, 0xce, 0x33, 0x57, 0x6b, 0x31, 0x5e, 0xce, 0xcb, 0xb6, 0x40, 0x68, 0x37, 0xbf, 0x51, 0xf5,
    ]
}

/// The x coordinate of the base point `G` of P-384, big-endian:
/// `aa87ca22be8b05378eb1c71ef320ad746e1d3b628ba79b9859f741e082542a385502f25dbf55296c3a545e3872760ab7`.
pub open spec fn p384_gx_seq() -> Seq<u8> {
    seq![
        0xaau8, 0x87, 0xca, 0x22, 0xbe, 0x8b, 0x05, 0x37, 0x8e, 0xb1, 0xc7, 0x1e, 0xf3, 0x20, 0xad, 0x74,
        0x6e, 0x1d, 0x3b, 0x62, 0x8b, 0xa7, 0x9b, 0x98, 0x59, 0xf7, 0x41, 0xe0, 0x82, 0x54, 0x2a, 0x38,
        0x55, 0x02, 0xf2, 0x5d, 0xbf, 0x55, 0x29, 0x6c, 0x3a, 0x54, 0x5e, 0x38, 0x72, 0x76, 0x0a, 0xb7,
    ]
}

/// The y coordinate of the base point `G` of P-384, big-endian:
/// `3617de4a96262c6f5d9e98bf9292dc29f8f41dbd289a147ce9da3113b5f0b8c00a60b1ce1d7e819d7a431d7c90ea0e5f`.
pub open spec fn p384_gy_seq() -> Seq<u8> {
    seq![
        0x36u8, 0x17, 0xde, 0x4a, 0x96, 0x26, 0x2c, 0x6f, 0x5d, 0x9e, 0x98, 0xbf, 0x92, 0x92, 0xdc, 0x29,
        0xf8, 0xf4, 0x1d, 0xbd, 0x28, 0x9a, 0x14, 0x7c, 0xe9, 0xda, 0x31, 0x13, 0xb5, 0xf0, 0xb8, 0xc0,
        0x0a, 0x60, 0xb1, 0xce, 0x1d, 0x7e, 0x81, 0x9d, 0x7a, 0x43, 0x1d, 0x7c, 0x90, 0xea, 0x0e, 0x5f,
    ]
}

/// The base point `G` of the curve, as two integers.
pub open spec fn generator(c: Curve) -> (int, int) {
    match c {
        Curve::P256 => (be_nat(p256_gx_seq()) as int, be_nat(p256_gy_seq()) as int),
        Curve::P384 => (be_nat(p384_gx_seq()) as int, be_nat(p384_gy_seq()) as int),
    }
}

/// The inverse of `v` in the field of integers modulo the prime `q`,
/// `v^(q-2) mod q`.
pub open spec fn field_inv(c: Curve, v: int) -> int {
    let q = curve_q(c) as int;
    pow(v % q, (q - 2) as nat) % q
}

/// The group law of the curve on affine points, `None` being the point at
/// infinity: the chord-and-tangent rule with `a = -3`.
pub open spec fn ec_add(c: Curve, a: Option<(int, int)>, b: Option<(int, int)>) -> Option<(int, int)> {
    let q = curve_q(c) as int;
    match a {
        None => b,
        Some((x1, y1)) => match b {
            None => a,
            Some((x2, y2)) => if x1 == x2 && (y1 + y2) % q == 0 {
                None
            } else {
                let l = if x1 == x2 {
                    ((3 * x1 * x1 - 3) * field_inv(c, 2 * y1)) % q
                } else {
                    ((y2 - y1) * field_inv(c, x2 - x1)) % q
                };
                let x3 = (l * l - x1 - x2) % q;
                let y3 = (l * (x1 - x3) - y1) % q;
                Some((x3, y3))
            },
        },
    }
}

/// `k * P`: `P` added to itself `k` times.
pub open spec fn ec_mul(c: Curve, k: nat, p: Option<(int, int)>) -> Option<(int, int)>
    decreases k,
{
    if k == 0 {
        None
    } else {
        ec_add(c, ec_mul(c, (k - 1) as nat, p), p)
    }
}

/// The coordinates of a point as integers.
pub open spec fn point_value(p: (Seq<u8>, Seq<u8>)) -> (int, int) {
    (be_nat(p.0) as int, be_nat(p.1) as int)
}

/// The coordinates of a point, or the point at infinity, as big-endian
/// byte strings of `elem_len(c)` bytes.
pub open spec fn point_encoding(c: Curve, p: Option<(int, int)>) -> Option<(Seq<u8>, Seq<u8>)> {
    match p {
        None => None,
        Some((x, y)) => Some((nat_to_be(elem_len(c), x as nat), nat_to_be(elem_len(c), y as nat))),
    }
}

/// The length in bytes of a field element, and of a scalar, of curve `c`.
pub open spec fn elem_len(c: Curve) -> nat {
    match c {
        Curve::P256 => 32,
        Curve::P384 => 48,
    }
}

pub open spec fn n_seq(c: Curve) -> Seq<u8> {
    match c {
        Curve::P256 => p256_n_seq(),
        Curve::P384 => p384_n_seq(),
    }
}

pub open spec fn q_seq(c: Curve) -> Seq<u8> {
    match c {
        Curve::P256 => p256_q_seq(),
        Curve::P384 => p384_q_seq(),
    }
}

pub open spec fn b_seq(c: Curve) -> Seq<u8> {
    match c {
        Curve::P256 => p256_b_seq(),
        Curve::P384 => p384_b_seq(),
    }
}

/// The order `n` of the base point.
pub open spec fn curve_n(c: Curve) -> nat {
    be_nat(n_seq(c))
}

/// The field modulus `q`.
pub open spec fn curve_q(c: Curve) -> nat {
    be_nat(q_seq(c))
}

/// The curve coefficient `b`.
pub open spec fn curve_b(c: Curve) -> nat {
    be_nat(b_seq(c))
}

/// `(x, y)`, two canonical field elements of `elem_len(c)` bytes, is a point
/// of the curve: `y^2 = x^3 - 3x + b (mod q)`.
pub open spec fn on_curve(c: Curve, x: Seq<u8>, y: Seq<u8>) -> bool {
    let q = curve_q(c) as int;
    let xv = be_nat(x) as int;
    let yv = be_nat(y) as int;
    &&& x.len() == elem_len(c)
    &&& y.len() == elem_len(c)
    &&& xv < q
    &&& yv < q
    &&& (yv * yv) % q == (xv * xv * xv - 3 * xv + curve_b(c)) % q
}

/// The scalar `a * b mod n`, in `elem_len(c)` bytes.
pub open spec fn scalar_mul_spec(c: Curve, a: Seq<u8>, b: Seq<u8>) -> Seq<u8> {
    nat_to_be(elem_len(c), (be_nat(a) * be_nat(b)) % curve_n(c))
}

/// The inverse of the scalar `s` modulo the prime `n`, `s^(n-2) mod n`, in
/// `elem_len(c)` bytes.
pub open spec fn scalar_inv_spec(c: Curve, s: Seq<u8>) -> Seq<u8> {
    nat_to_be(elem_len(c), (pow(be_nat(s) as int, (curve_n(c) - 2) as nat) % (curve_n(c) as int)) as nat)
}

/// The sizes of the curve parameters, and the bounds on `n` and `q` that
/// follow from their leading byte `0xff`.
pub proof fn lemma_curve_params(c: Curve)
    ensures
        n_seq(c).len() == elem_len(c),
        q_seq(c).len() == elem_len(c),
        b_seq(c).len() == elem_len(c),
        n_seq(c)[0] == 0xff,
        q_seq(c)[0] == 0xff,
        255 * pow256((elem_len(c) - 1) as nat) <= curve_n(c),
        curve_q(c) < pow256(elem_len(c)),
        curve_n(c) < pow256(elem_len(c)),
        pow256(elem_len(c)) == 256 * pow256((elem_len(c) - 1) as nat),
        curve_q(c) < 2 * curve_n(c),
        curve_n(c) > 2,
        255 * pow256((elem_len(c) - 1) as nat) <= curve_q(c),
        curve_q(c) > 3,
{
    let k = elem_len(c);
    let p = pow256((k - 1) as nat);
    assert(n_seq(c).len() == k);
    assert(q_seq(c).len() == k);
    assert(b_seq(c).len() == k);
    assert(n_seq(c)[0] == 0xff);
    assert(q_seq(c)[0] == 0xff);
    lemma_be_skip_step(n_seq(c), 0);
    assert(n_seq(c).skip(0) =~= n_seq(c));
    lemma_be_skip_step(q_seq(c), 0);
    assert(q_seq(c).skip(0) =~= q_seq(c));
    lemma_be_nat_bound(q_seq(c));
    lemma_be_nat_bound(n_seq(c));
    crate::bignum::lemma_pow256_positive((k - 1) as nat);
}

/// The products and inverses of scalars are scalars: `elem_len(c)` bytes
/// encoding a number below `n`.
pub proof fn lemma_scalar_results(c: Curve, a: Seq<u8>, b: Seq<u8>)
    ensures
        scalar_mul_spec(c, a, b).len() == elem_len(c),
        be_nat(scalar_mul_spec(c, a, b)) == (be_nat(a) * be_nat(b)) % curve_n(c),
        be_nat(scalar_mul_spec(c, a, b)) < curve_n(c),
        scalar_inv_spec(c, a).len() == elem_len(c),
        be_nat(scalar_inv_spec(c, a)) < curve_n(c),
{
    lemma_curve_params(c);
    let n = curve_n(c);
    let m = (be_nat(a) * be_nat(b)) % n;
    lemma_be_of_nat_to_be(elem_len(c), m);
    let i = (pow(be_nat(a) as int, (n - 2) as nat) % (n as int)) as nat;
    lemma_be_of_nat_to_be(elem_len(c), i);
}

/// The value of an encoded point, `None` standing for the point at infinity.
pub open spec fn opt_point_value(p: Option<(Seq<u8>, Seq<u8>)>) -> Option<(int, int)> {
    match p {
        None => None,
        Some(p) => Some(point_value(p)),
    }
}

/// Both coordinates of the point are field elements, in `[0, q)`.
pub open spec fn point_in_range(c: Curve, p: Option<(int, int)>) -> bool {
    match p {
        None => true,
        Some((x, y)) => 0 <= x < curve_q(c) && 0 <= y < curve_q(c),
    }
}

/// The group law keeps coordinates in `[0, q)`.
pub proof fn lemma_ec_add_in_range(c: Curve, a: Option<(int, int)>, b: Option<(int, int)>)
    requires
        point_in_range(c, a),
        point_in_range(c, b),
    ensures
        point_in_range(c, ec_add(c, a, b)),
{
    lemma_curve_params(c);
}

/// Multiples of a point have coordinates in `[0, q)`.
pub proof fn lemma_ec_mul_in_range(c: Curve, k: nat, p: Option<(int, int)>)
    requires
        point_in_range(c, p),
    ensures
        point_in_range(c, ec_mul(c, k, p)),
    decreases k,
{
    if k > 0 {
        lemma_ec_mul_in_range(c, (k - 1) as nat, p);
        lemma_ec_add_in_range(c, ec_mul(c, (k - 1) as nat, p), p);
    }
}

/// Decoding the encoding of a point with coordinates in `[0, q)` gives it back.
pub proof fn lemma_point_encoding_value(c: Curve, p: Option<(int, int)>)
    requires
        point_in_range(c, p),
    ensures
        opt_point_value(point_encoding(c, p)) == p,
        point_encoding(c, p) matches Some((x, y)) ==> x.len() == elem_len(c) && y.len() == elem_len(c),
{
    lemma_curve_params(c);
    if let Some((x, y)) = p {
        lemma_be_of_nat_to_be(elem_len(c), x as nat);
        lemma_be_of_nat_to_be(elem_len(c), y as nat);
    }
}

/// A point of the curve is the encoding of its value, which is in range.
pub proof fn lemma_on_curve_encoding(c: Curve, x: Seq<u8>, y: Seq<u8>)
    requires
        on_curve(c, x, y),
    ensures
        point_encoding(c, Some(point_value((x, y)))) == Some((x, y)),
        point_in_range(c, Some(point_value((x, y)))),
{
    crate::bignum::lemma_nat_to_be_of_be(x);
    crate::bignum::lemma_nat_to_be_of_be(y);
}

pub open spec fn gx_seq(c: Curve) -> Seq<u8> {
    match c {
        Curve::P256 => p256_gx_seq(),
        Curve::P384 => p384_gx_seq(),
    }
}

pub open spec fn gy_seq(c: Curve) -> Seq<u8> {
    match c {
        Curve::P256 => p256_gy_seq(),
        Curve::P384 => p384_gy_seq(),
    }
}

proof fn lemma_below_q(c: Curve, s: Seq<u8>)
    requires
        s.len() == elem_len(c),
        s[0] <= 0xfd,
    ensures
        be_nat(s) < curve_q(c),
{
    lemma_curve_params(c);
    let k = elem_len(c);
    let p = pow256((k - 1) as nat);
    lemma_be_skip_step(s, 0);
    assert(s.skip(0) =~= s);
    lemma_be_nat_bound(s.skip(1));
    let f = s[0];
    assert(f * p + p <= 254 * p) by (nonlinear_arith)
        requires
            f <= 0xfd,
    ;
}

/// The base point has coordinates in `[0, q)`.
pub proof fn lemma_generator_in_range(c: Curve)
    ensures
        point_in_range(c, Some(generator(c))),
{
    assert(gx_seq(c).len() == elem_len(c) && gx_seq(c)[0] <= 0xfd);
    assert(gy_seq(c).len() == elem_len(c) && gy_seq(c)[0] <= 0xfd);
    lemma_below_q(c, gx_seq(c));
    lemma_below_q(c, gy_seq(c));
}

/// The length of field elements and scalars of the curve, in bytes.
impl Curve {
    pub fn num_bytes(&self) -> (r: usize)
        ensures
            r == elem_len(*self),
    {
        match self {
            Curve::P256 => 32,
            Curve::P384 => 48,
        }
    }
}

fn p256_n_bytes() -> (r: Vec<u8>)
    ensures
        r@ == p256_n_seq(),
{
    let r: Vec<u8> = vec![
        0xffu8, 0xff, 0xff, 0xff, 0x00, 0x00, 0x00, 0x00, 0xff, 0xff, 0xff, 0xff, 0xff, 0xff, 0xff, 0xff,
        0xbc, 0xe6, 0xfa, 0xad, 0xa7, 0x17, 0x9e, 0x84, 0xf3, 0xb9, 0xca, 0xc2, 0xfc, 0x63, 0x25, 0x51,
    ];
    assert(r@ =~= p256_n_seq());
    r
}

fn p256_q_bytes() -> (r: Vec<u8>)
    ensures
        r@ == p256_q_seq(),
{
    let r: Vec<u8> = vec![
        0xffu8, 0xff, 0xff, 0xff, 0x00, 0x00, 0x00, 0x01, 0x00, 0x00, 0x00, 0x00, 0x00, 0x00, 0x00, 0x00,
        0x00, 0x00, 0x00, 0x00, 0xff, 0xff, 0xff, 0xff, 0xff, 0xff, 0xff, 0xff, 0xff, 0xff, 0xff, 0xff,
    ];
    assert(r@ =~= p256_q_seq());
    r
}

fn p384_n_bytes() -> (r: Vec<u8>)
    ensures
        r@ == p384_n_seq(),
{
    let r: Vec<u8> = vec![
        0xffu8, 0xff, 0xff, 0xff, 0xff, 0xff, 0xff, 0xff, 0xff, 0xff, 0xff, 0xff, 0xff, 0xff, 0xff, 0xff,
        0xff, 0xff, 0xff, 0xff, 0xff, 0xff, 0xff, 0xff, 0xc7, 0x63, 0x4d, 0x81, 0xf4, 0x37, 0x2d, 0xdf,
        0x58, 0x1a, 0x0d, 0xb2, 0x48, 0xb0, 0xa7, 0x7a, 0xec, 0xec, 0x19, 0x6a, 0xcc, 0xc5, 0x29, 0x73,
    ];
    assert(r@ =~= p384_n_seq());
    r
}

fn p384_q_bytes() -> (r: Vec<u8>)
    ensures
        r@ == p384_q_seq(),
{
    let r: Vec<u8> = vec![
        0xffu8, 0xff, 0xff, 0xff, 0xff, 0xff, 0xff, 0xff, 0xff, 0xff, 0xff, 0xff, 0xff, 0xff, 0xff, 0xff,
        0xff, 0xff, 0xff, 0xff, 0xff, 0xff, 0xff, 0xff, 0xff, 0xff, 0xff, 0xff, 0xff, 0xff, 0xff, 0xfe,
        0xff, 0xff, 0xff, 0xff, 0x00, 0x00, 0x00, 0x00, 0x00, 0x00, 0x00, 0x00, 0xff, 0xff, 0xff, 0xff,
    ];
    assert(r@ =~= p384_q_seq());
    r
}

/// The order `n` of the base point, big-endian.
pub fn n_bytes(c: Curve) -> (r: Vec<u8>)
    ensures
        r@ == n_seq(c),
{
    match c {
        Curve::P256 => p256_n_bytes(),
        Curve::P384 => p384_n_bytes(),
    }
}

/// The field modulus `q`, big-endian.
pub fn q_bytes(c: Curve) -> (r: Vec<u8>)
    ensures
        r@ == q_seq(c),
{
    match c {
        Curve::P256 => p256_q_bytes(),
        Curve::P384 => p384_q_bytes(),
    }
}

/// A point of a curve other than the point at infinity, in affine
/// coordinates, each a big-endian field element.
pub struct Point {
    pub x: Vec<u8>,
    pub y: Vec<u8>,
}

impl View for Point {
    type V = (Seq<u8>, Seq<u8>);

    open spec fn view(&self) -> (Seq<u8>, Seq<u8>) {
        (self.x@, self.y@)
    }
}

/// The coordinates of a point, `None` standing for the point at infinity.
pub open spec fn opt_point_view(p: Option<Point>) -> Option<(Seq<u8>, Seq<u8>)> {
    match p {
        Some(p) => Some(p@),
        None => None,
    }
}

/// `p` is the point at infinity or a point of curve `c`.
pub open spec fn opt_on_curve(c: Curve, p: Option<(Seq<u8>, Seq<u8>)>) -> bool {
    match p {
        Some((x, y)) => on_curve(c, x, y),
        None => true,
    }
}

} // verus!
