//! Scalar and point arithmetic on either curve.

use vstd::prelude::*;
use vstd::arithmetic::power::pow;
use crate::bignum::be_nat;
use crate::curve::{
    Curve, Point, elem_len, on_curve, opt_on_curve, curve_n, scalar_mul_spec, scalar_inv_spec,
    opt_point_view, ec_add, ec_mul, generator, point_value, point_encoding, opt_point_value,
    lemma_scalar_results, lemma_on_curve_encoding,
};
use crate::p256_ops::{
    p256_is_on_curve, p256_scalar_mul, p256_scalar_inv,
    p256_point_mul_base, p256_point_mul, p256_point_add,
};
use crate::p384_ops::{
    p384_is_on_curve, p384_scalar_mul, p384_scalar_inv,
    p384_point_mul_base, p384_point_mul, p384_point_add,
};

verus! {

/// `k * G`, `G` the base point of the curve.
pub open spec fn point_mul_base_spec(c: Curve, k: Seq<u8>) -> Option<(Seq<u8>, Seq<u8>)> {
    point_encoding(c, ec_mul(c, be_nat(k), Some(generator(c))))
}

/// `k * P`.
pub open spec fn point_mul_spec(c: Curve, k: Seq<u8>, p: (Seq<u8>, Seq<u8>)) -> Option<(Seq<u8>, Seq<u8>)> {
    point_encoding(c, ec_mul(c, be_nat(k), Some(point_value(p))))
}

/// `A + B` for two points other than the point at infinity.
pub open spec fn point_add_spec(c: Curve, a: (Seq<u8>, Seq<u8>), b: (Seq<u8>, Seq<u8>)) -> Option<(Seq<u8>, Seq<u8>)> {
    point_encoding(c, ec_add(c, Some(point_value(a)), Some(point_value(b))))
}

/// `A + B`, `None` standing for the point at infinity, the group's identity.
pub open spec fn point_sum_spec(
    c: Curve,
    a: Option<(Seq<u8>, Seq<u8>)>,
    b: Option<(Seq<u8>, Seq<u8>)>,
) -> Option<(Seq<u8>, Seq<u8>)> {
    match a {
        None => b,
        Some(pa) => match b {
            None => a,
            Some(pb) => point_add_spec(c, pa, pb),
        },
    }
}

/// Whether `(x, y)` is a point of the curve, both coordinates being below `q`.
pub fn is_on_curve(c: Curve, x: &[u8], y: &[u8]) -> (r: bool)
    requires
        x@.len() == elem_len(c),
        y@.len() == elem_len(c),
    ensures
        r == on_curve(c, x@, y@),
{
    match c {
        Curve::P256 => p256_is_on_curve(x, y),
        Curve::P384 => p384_is_on_curve(x, y),
    }
}

/// `a * b mod n`.
pub fn scalar_mul(c: Curve, a: &[u8], b: &[u8]) -> (r: Vec<u8>)
    requires
        a@.len() == elem_len(c),
        b@.len() == elem_len(c),
        be_nat(a@) < curve_n(c),
        be_nat(b@) < curve_n(c),
    ensures
        r@ == scalar_mul_spec(c, a@, b@),
        r@.len() == elem_len(c),
        be_nat(r@) == (be_nat(a@) * be_nat(b@)) % curve_n(c),
{
    proof {
        lemma_scalar_results(c, a@, b@);
    }
    match c {
        Curve::P256 => p256_scalar_mul(a, b),
        Curve::P384 => p384_scalar_mul(a, b),
    }
}

/// `s^-1 mod n`, for `s` in `[1, n)`.
pub fn scalar_inv(c: Curve, s: &[u8]) -> (r: Vec<u8>)
    requires
        s@.len() == elem_len(c),
        0 < be_nat(s@) < curve_n(c),
    ensures
        r@ == scalar_inv_spec(c, s@),
        r@.len() == elem_len(c),
        be_nat(r@) == pow(be_nat(s@) as int, (curve_n(c) - 2) as nat) % (curve_n(c) as int),
{
    proof {
        crate::curve::lemma_curve_params(c);
        let i = (pow(be_nat(s@) as int, (curve_n(c) - 2) as nat) % (curve_n(c) as int)) as nat;
        crate::bignum::lemma_be_of_nat_to_be(elem_len(c), i);
    }
    match c {
        Curve::P256 => p256_scalar_inv(s),
        Curve::P384 => p384_scalar_inv(s),
    }
}

/// `k * G`, `G` the base point.
pub fn point_mul_base(c: Curve, k: &[u8]) -> (r: Option<Point>)
    requires
        k@.len() == elem_len(c),
        be_nat(k@) < curve_n(c),
    ensures
        opt_point_view(r) == point_mul_base_spec(c, k@),
        opt_point_view(r) == point_encoding(c, ec_mul(c, be_nat(k@), Some(generator(c)))),
        opt_on_curve(c, opt_point_view(r)),
{
    match c {
        Curve::P256 => p256_point_mul_base(k),
        Curve::P384 => p384_point_mul_base(k),
    }
}

/// `k * P`.
pub fn point_mul(c: Curve, k: &[u8], p: &Point) -> (r: Option<Point>)
    requires
        k@.len() == elem_len(c),
        be_nat(k@) < curve_n(c),
        on_curve(c, p.x@, p.y@),
    ensures
        opt_point_view(r) == point_mul_spec(c, k@, p@),
        opt_point_view(r) == point_encoding(c, ec_mul(c, be_nat(k@), Some(point_value(p@)))),
        opt_on_curve(c, opt_point_view(r)),
{
    match c {
        Curve::P256 => p256_point_mul(k, p),
        Curve::P384 => p384_point_mul(k, p),
    }
}

/// `A + B`, `None` standing for the point at infinity.
pub fn point_sum(c: Curve, a: Option<Point>, b: Option<Point>) -> (r: Option<Point>)
    requires
        opt_on_curve(c, opt_point_view(a)),
        opt_on_curve(c, opt_point_view(b)),
    ensures
        opt_point_view(r) == point_sum_spec(c, opt_point_view(a), opt_point_view(b)),
        opt_point_view(r) == point_encoding(
            c,
            ec_add(c, opt_point_value(opt_point_view(a)), opt_point_value(opt_point_view(b))),
        ),
        opt_on_curve(c, opt_point_view(r)),
{
    proof {
        if let Some(pa) = &a {
            lemma_on_curve_encoding(c, pa.x@, pa.y@);
        }
        if let Some(pb) = &b {
            lemma_on_curve_encoding(c, pb.x@, pb.y@);
        }
    }
    match a {
        None => b,
        Some(pa) => match b {
            None => Some(pa),
            Some(pb) => match c {
                Curve::P256 => p256_point_add(&pa, &pb),
                Curve::P384 => p384_point_add(&pa, &pb),
            },
        },
    }
}

} // verus!
