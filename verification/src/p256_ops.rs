//! The arithmetic of P-256 that the `p256` crate performs.

use vstd::prelude::*;
use p256::elliptic_curve::PrimeField;
use p256::elliptic_curve::sec1::{Coordinates, FromEncodedPoint, ToEncodedPoint};
use crate::bignum::be_nat;
use crate::curve::{
    Curve, Point, on_curve, curve_n, scalar_mul_spec, scalar_inv_spec, opt_point_view, ec_add, ec_mul,
    generator, point_value, point_encoding,
};

verus! {

/// Calls `p256::AffinePoint::from_encoded_point` on the uncompressed
/// encoding of `(x, y)`. As its source shows, it succeeds exactly when both
/// coordinates are below `q` and `y^2 = x^3 - 3x + b (mod q)`; the contract
/// claims that.
#[verifier::external_body]
pub(crate) fn p256_is_on_curve(x: &[u8], y: &[u8]) -> (r: bool)
    requires
        x@.len() == 32,
        y@.len() == 32,
    ensures
        r == on_curve(Curve::P256, x@, y@),
{
    let x = p256::FieldBytes::from_slice(x);
    let y = p256::FieldBytes::from_slice(y);
    let encoded = p256::EncodedPoint::from_affine_coordinates(x, y, false);
    bool::from(p256::AffinePoint::from_encoded_point(&encoded).is_some())
}

/// Calls `Mul` of `p256::Scalar` on the scalars decoded by
/// `Scalar::from_repr`, then `to_repr`. The contract claims the product modulo
/// `n`, big-endian, which is what the crate documents.
#[verifier::external_body]
pub(crate) fn p256_scalar_mul(a: &[u8], b: &[u8]) -> (r: Vec<u8>)
    requires
        a@.len() == 32,
        b@.len() == 32,
        be_nat(a@) < curve_n(Curve::P256),
        be_nat(b@) < curve_n(Curve::P256),
    ensures
        r@ == scalar_mul_spec(Curve::P256, a@, b@),
{
    let a = p256::Scalar::from_repr(*p256::FieldBytes::from_slice(a)).unwrap();
    let b = p256::Scalar::from_repr(*p256::FieldBytes::from_slice(b)).unwrap();
    (a * b).to_repr().to_vec()
}

/// Calls `p256::Scalar::invert` on the scalar decoded by
/// `Scalar::from_repr`, then `to_repr`. The contract claims the inverse of `s`
/// modulo the prime `n`, which the crate documents; as `n` is prime it is
/// `s^(n-2) mod n`.
#[verifier::external_body]
pub(crate) fn p256_scalar_inv(s: &[u8]) -> (r: Vec<u8>)
    requires
        s@.len() == 32,
        0 < be_nat(s@) < curve_n(Curve::P256),
    ensures
        r@ == scalar_inv_spec(Curve::P256, s@),
{
    let s = p256::Scalar::from_repr(*p256::FieldBytes::from_slice(s)).unwrap();
    s.invert().unwrap().to_repr().to_vec()
}

/// Calls `Mul` of `p256::ProjectivePoint::GENERATOR` by the scalar, then
/// `to_affine` and `to_encoded_point`. The contract claims `k * G` under the
/// group law of the curve, which the crate implements in projective
/// coordinates, and that it is a point of the curve or the point at infinity.
#[verifier::external_body]
pub(crate) fn p256_point_mul_base(k: &[u8]) -> (r: Option<Point>)
    requires
        k@.len() == 32,
        be_nat(k@) < curve_n(Curve::P256),
    ensures
        opt_point_view(r) == point_encoding(Curve::P256, ec_mul(Curve::P256, be_nat(k@), Some(generator(Curve::P256)))),
        r matches Some(p) ==> on_curve(Curve::P256, p.x@, p.y@),
{
    let k = p256::Scalar::from_repr(*p256::FieldBytes::from_slice(k)).unwrap();
    let e = (p256::ProjectivePoint::GENERATOR * k).to_affine().to_encoded_point(false);
    match e.coordinates() {
        Coordinates::Identity => None,
        Coordinates::Uncompressed { x, y } => Some(Point { x: x.to_vec(), y: y.to_vec() }),
        Coordinates::Compact { .. } => None,
        Coordinates::Compressed { .. } => None,
    }
}

/// Calls `Mul` of a `p256::ProjectivePoint` made from the point by the
/// scalar, then `to_affine` and `to_encoded_point`. The contract claims
/// `k * P` under the group law of the curve, and that it is a point of the
/// curve or the point at infinity.
#[verifier::external_body]
pub(crate) fn p256_point_mul(k: &[u8], p: &Point) -> (r: Option<Point>)
    requires
        k@.len() == 32,
        be_nat(k@) < curve_n(Curve::P256),
        on_curve(Curve::P256, p.x@, p.y@),
    ensures
        opt_point_view(r) == point_encoding(Curve::P256, ec_mul(Curve::P256, be_nat(k@), Some(point_value(p@)))),
        r matches Some(p) ==> on_curve(Curve::P256, p.x@, p.y@),
{
    let k = p256::Scalar::from_repr(*p256::FieldBytes::from_slice(k)).unwrap();
    let p = p256::EncodedPoint::from_affine_coordinates(p256::FieldBytes::from_slice(&p.x), p256::FieldBytes::from_slice(&p.y), false);
    let p = p256::ProjectivePoint::from(p256::AffinePoint::from_encoded_point(&p).unwrap());
    match (p * k).to_affine().to_encoded_point(false).coordinates() {
        Coordinates::Identity => None,
        Coordinates::Uncompressed { x, y } => Some(Point { x: x.to_vec(), y: y.to_vec() }),
        Coordinates::Compact { .. } => None,
        Coordinates::Compressed { .. } => None,
    }
}

/// Calls `Add` of two `p256::ProjectivePoint`s made from the points, then
/// `to_affine` and `to_encoded_point`. The contract claims `A + B` under the
/// group law of the curve, and that it is a point of the curve or the point
/// at infinity.
#[verifier::external_body]
pub(crate) fn p256_point_add(a: &Point, b: &Point) -> (r: Option<Point>)
    requires
        on_curve(Curve::P256, a.x@, a.y@),
        on_curve(Curve::P256, b.x@, b.y@),
    ensures
        opt_point_view(r) == point_encoding(Curve::P256, ec_add(Curve::P256, Some(point_value(a@)), Some(point_value(b@)))),
        r matches Some(p) ==> on_curve(Curve::P256, p.x@, p.y@),
{
    let a = p256::EncodedPoint::from_affine_coordinates(p256::FieldBytes::from_slice(&a.x), p256::FieldBytes::from_slice(&a.y), false);
    let b = p256::EncodedPoint::from_affine_coordinates(p256::FieldBytes::from_slice(&b.x), p256::FieldBytes::from_slice(&b.y), false);
    let a = p256::ProjectivePoint::from(p256::AffinePoint::from_encoded_point(&a).unwrap());
    let b = p256::ProjectivePoint::from(p256::AffinePoint::from_encoded_point(&b).unwrap());
    match (a + b).to_affine().to_encoded_point(false).coordinates() {
        Coordinates::Identity => None,
        Coordinates::Uncompressed { x, y } => Some(Point { x: x.to_vec(), y: y.to_vec() }),
        Coordinates::Compact { .. } => None,
        Coordinates::Compressed { .. } => None,
    }
}

} // verus!
