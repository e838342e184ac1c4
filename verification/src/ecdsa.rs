//! ECDSA signature verification using the P-256 and P-384 curves.

use vstd::prelude::*;
use vstd::arithmetic::power::pow;
use vstd::slice::{slice_subrange, slice_to_vec};
use vstd::arithmetic::div_mod::{lemma_small_mod, lemma_fundamental_div_mod_converse};
use crate::bignum::{
    be_nat, nat_to_be, pow256, zeros, bytes_less_than, shift_right_one, add_bytes, pad_to,
    lemma_be_nat_bound, lemma_be_zeros_prefix, lemma_nat_to_be_of_be, lemma_be_injective,
    lemma_pow256_monotone, lemma_be_leading_byte, lemma_be_of_nat_to_be,
};
use crate::constant_time::verify_slices_are_equal;
use crate::curve::{
    Curve, Point, elem_len, on_curve, opt_on_curve, curve_n, curve_q, scalar_mul_spec,
    scalar_inv_spec, opt_point_view, n_bytes, q_bytes, lemma_curve_params, lemma_scalar_results,
    ec_add, ec_mul, generator, point_value, point_encoding,
    lemma_ec_mul_in_range, lemma_generator_in_range, lemma_point_encoding_value,
    lemma_on_curve_encoding,
};
use crate::der::{
    TAG_SEQUENCE, der_read, der_positive_integer, read_tag_and_get_value, positive_integer,
    lemma_positive_integer_minimal, positive_integer_value, TAG_INTEGER, der_element,
    positive_integer_encoding, lemma_der_read_element, lemma_der_read_is_element,
    lemma_positive_integer_roundtrip,
};
use crate::digest::{
    DigestAlgorithm, digest, digest_spec, sha1_digest, sha256_digest, sha384_digest, sha512_digest,
};
use crate::ops::{
    point_mul_base_spec, point_mul_spec, point_sum_spec, is_on_curve, scalar_mul, scalar_inv,
    point_mul_base, point_mul, point_sum,
};

verus! {

/// The scalar in `[1, n)` that the DER INTEGER at the start of `s` encodes,
/// in `elem_len(c)` bytes, and what follows the INTEGER.
pub open spec fn scalar_parse_spec(c: Curve, s: Seq<u8>) -> Option<(Seq<u8>, Seq<u8>)> {
    match der_positive_integer(s) {
        Some((m, rest)) => if m.len() <= elem_len(c) && 1 <= be_nat(m) && be_nat(m) < curve_n(c) {
            Some((zeros((elem_len(c) - m.len()) as nat) + m, rest))
        } else {
            None
        },
        None => None,
    }
}

/// The scalars `(r, s)` of a signature encoded as the DER
/// `SEQUENCE { r INTEGER, s INTEGER }` that makes up all of `sig`, each in
/// `[1, n)`.
pub open spec fn parse_signature_spec(c: Curve, sig: Seq<u8>) -> Option<(Seq<u8>, Seq<u8>)> {
    match der_read(sig) {
        Some((tag, body, rest)) => if tag != TAG_SEQUENCE || rest.len() != 0 {
            None
        } else {
            match scalar_parse_spec(c, body) {
                Some((r, rest1)) => match scalar_parse_spec(c, rest1) {
                    Some((s, rest2)) => if rest2.len() == 0 {
                        Some((r, s))
                    } else {
                        None
                    },
                    None => None,
                },
                None => None,
            }
        },
        None => None,
    }
}

/// The magnitudes of the two INTEGERs of a DER `SEQUENCE { INTEGER, INTEGER }`
/// that makes up all of `sig`, whatever their values.
pub open spec fn signature_integers_spec(sig: Seq<u8>) -> Option<(Seq<u8>, Seq<u8>)> {
    match der_read(sig) {
        Some((tag, body, rest)) => if tag != TAG_SEQUENCE || rest.len() != 0 {
            None
        } else {
            match der_positive_integer(body) {
                Some((r, rest1)) => match der_positive_integer(rest1) {
                    Some((s, rest2)) => if rest2.len() == 0 {
                        Some((r, s))
                    } else {
                        None
                    },
                    None => None,
                },
                None => None,
            }
        },
        None => None,
    }
}

/// The coordinates of the public key `pk`, an uncompressed point
/// `0x04 || x || y` of curve `c`.
pub open spec fn parse_public_key_spec(c: Curve, pk: Seq<u8>) -> Option<(Seq<u8>, Seq<u8>)> {
    let k = elem_len(c);
    let x = pk.subrange(1, 1 + k as int);
    let y = pk.subrange(1 + k as int, 1 + 2 * k as int);
    if pk.len() == 1 + 2 * k && pk[0] == 4 && on_curve(c, x, y) {
        Some((x, y))
    } else {
        None
    }
}

/// The scalar that the digest `d` converts to: its leftmost `elem_len(c)`
/// bytes as a big-endian number, halved (shifted right by one bit) where that
/// is not below `n`.
pub open spec fn digest_scalar_value(c: Curve, d: Seq<u8>) -> nat {
    let t = if d.len() > elem_len(c) {
        d.take(elem_len(c) as int)
    } else {
        d
    };
    let v = be_nat(t);
    if v < curve_n(c) {
        v
    } else {
        v / 2
    }
}

/// `g * G + p * Q`, `G` the base point.
pub open spec fn twin_mul_spec(c: Curve, g: Seq<u8>, p: Seq<u8>, q: (Seq<u8>, Seq<u8>)) -> Option<(Seq<u8>, Seq<u8>)> {
    point_sum_spec(c, point_mul_base_spec(c, g), point_mul_spec(c, p, q))
}

/// Whether `sig` is a valid signature of `msg` under the public key `pk`, as
/// the NSA Suite B Implementer's Guide to ECDSA, Section 3.4.2, defines it:
/// with `(r, s)` the signature's scalars, `e` the digest's scalar,
/// `w = s^-1 mod n`, `u1 = e * w mod n`, `u2 = r * w mod n`, the point
/// `R = u1 * G + u2 * Q` is not the point at infinity and its `x` is `r`
/// modulo `n`.
pub open spec fn ecdsa_verify_spec(c: Curve, alg: DigestAlgorithm, pk: Seq<u8>, msg: Seq<u8>, sig: Seq<u8>) -> bool {
    match parse_public_key_spec(c, pk) {
        None => false,
        Some(q) => match parse_signature_spec(c, sig) {
            None => false,
            Some((r, s)) => {
                let e = nat_to_be(elem_len(c), digest_scalar_value(c, digest_spec(alg, msg)));
                let w = scalar_inv_spec(c, s);
                let u1 = scalar_mul_spec(c, e, w);
                let u2 = scalar_mul_spec(c, r, w);
                match twin_mul_spec(c, u1, u2, q) {
                    None => false,
                    Some((x, y)) => be_nat(x) % curve_n(c) == be_nat(r),
                }
            },
        },
    }
}

/// Parses the DER INTEGER at the start of `input` as a scalar in `[1, n)`,
/// returning it in `elem_len(c)` bytes, and the input that follows it.
pub fn scalar_parse<'a>(c: Curve, input: &'a [u8]) -> (r: Result<(Vec<u8>, &'a [u8]), ()>)
    ensures
        r is Ok <==> scalar_parse_spec(c, input@) is Some,
        r matches Ok((v, rest)) ==> scalar_parse_spec(c, input@) == Some((v@, rest@)),
        r matches Ok((v, rest)) ==> v@.len() == elem_len(c) && 1 <= be_nat(v@) < curve_n(c),
        r is Ok <==> (der_positive_integer(input@) matches Some((m, rest)) && 1 <= be_nat(m) < curve_n(c)),
        r matches Ok((v, rest)) ==> (der_positive_integer(input@) matches Some((m, rest2)) && be_nat(v@)
            == be_nat(m) && rest2 == rest@),
{
    proof {
        lemma_scalar_parse_value(c, input@);
    }
    let (m, rest) = match positive_integer(input) {
        Ok(t) => t,
        Err(()) => return Err(()),
    };
    proof {
        lemma_positive_integer_minimal(der_read(input@).unwrap().1);
    }
    let k: usize = c.num_bytes();
    if m.len() > k {
        return Err(());
    }
    let v = pad_to(k, m);
    let n = n_bytes(c);
    proof {
        lemma_curve_params(c);
    }
    if !bytes_less_than(&v, &n) {
        return Err(());
    }
    Ok((v, rest))
}

/// Parses a signature, the DER `SEQUENCE { r INTEGER, s INTEGER }` making up
/// all of `sig`, into its scalars `(r, s)`, each in `[1, n)`.
pub fn parse_signature(c: Curve, sig: &[u8]) -> (r: Result<(Vec<u8>, Vec<u8>), ()>)
    ensures
        r is Ok <==> parse_signature_spec(c, sig@) is Some,
        r matches Ok((rv, sv)) ==> parse_signature_spec(c, sig@) == Some((rv@, sv@)),
        r matches Ok((rv, sv)) ==> rv@.len() == elem_len(c) && 1 <= be_nat(rv@) < curve_n(c),
        r matches Ok((rv, sv)) ==> sv@.len() == elem_len(c) && 1 <= be_nat(sv@) < curve_n(c),
        r is Ok <==> (signature_integers_spec(sig@) matches Some((mr, ms)) && 1 <= be_nat(mr) < curve_n(c)
            && 1 <= be_nat(ms) < curve_n(c)),
        r matches Ok((rv, sv)) ==> (signature_integers_spec(sig@) matches Some((mr, ms)) && be_nat(rv@)
            == be_nat(mr) && be_nat(sv@) == be_nat(ms)),
{
    proof {
        lemma_parse_signature_integers(c, sig@);
    }
    let (tag, body, rest) = match read_tag_and_get_value(sig) {
        Ok(t) => t,
        Err(()) => return Err(()),
    };
    if tag != TAG_SEQUENCE || rest.len() != 0 {
        return Err(());
    }
    let (r, rest1) = match scalar_parse(c, body) {
        Ok(t) => t,
        Err(()) => return Err(()),
    };
    let (s, rest2) = match scalar_parse(c, rest1) {
        Ok(t) => t,
        Err(()) => return Err(()),
    };
    if rest2.len() != 0 {
        return Err(());
    }
    Ok((r, s))
}

/// Parses the public key `input`, an uncompressed point `0x04 || x || y`,
/// checking that both coordinates are below `q` and that the point is on the
/// curve (the ECC Partial Public-Key Validation Routine).
pub fn parse_uncompressed_point(c: Curve, input: &[u8]) -> (r: Result<Point, ()>)
    ensures
        r is Ok <==> parse_public_key_spec(c, input@) is Some,
        r matches Ok(p) ==> parse_public_key_spec(c, input@) == Some(p@),
        r is Ok <==> (input@.len() == 1 + 2 * elem_len(c) && input@[0] == 4 && on_curve(
            c,
            input@.subrange(1, 1 + elem_len(c) as int),
            input@.subrange(1 + elem_len(c) as int, 1 + 2 * elem_len(c) as int),
        )),
        r matches Ok(p) ==> p@ == (
            input@.subrange(1, 1 + elem_len(c) as int),
            input@.subrange(1 + elem_len(c) as int, 1 + 2 * elem_len(c) as int),
        ),
{
    let k: usize = c.num_bytes();
    if input.len() != 1 + 2 * k {
        return Err(());
    }
    // The encoding must be 4, which is the encoding for "uncompressed".
    if input[0] != 4 {
        return Err(());
    }
    let x = slice_to_vec(slice_subrange(input, 1, 1 + k));
    let y = slice_to_vec(slice_subrange(input, 1 + k, 1 + 2 * k));
    let q = q_bytes(c);
    proof {
        lemma_curve_params(c);
    }
    if !bytes_less_than(&x, &q) || !bytes_less_than(&y, &q) {
        return Err(());
    }
    // NIST SP 800-56A Step 3: "If q is an odd prime p, verify that
    // yQ**2 = xQ**3 + axQ + b in GF(p), where the arithmetic is performed
    // modulo p."
    if !is_on_curve(c, &x, &y) {
        return Err(());
    }
    Ok(Point { x, y })
}

/// Converts a digest to a scalar in the range `[0, n)` as described in NIST's
/// FIPS 186-4 Section 4.2: the leftmost `elem_len(c)` bytes, that is the most
/// significant bits, are taken as a big-endian number. Where that is not below
/// `n`, shifting it right by one bit is enough, because `n` has its highest
/// bit set on both curves.
pub fn digest_scalar_(c: Curve, digest: &[u8]) -> (r: Vec<u8>)
    requires
        digest@.len() > 0,
    ensures
        r@ == nat_to_be(elem_len(c), digest_scalar_value(c, digest@)),
        r@.len() == elem_len(c),
        be_nat(r@) == digest_scalar_value(c, digest@),
        be_nat(r@) < curve_n(c),
        be_nat(r@) == ({
            let t = if digest@.len() > elem_len(c) {
                digest@.take(elem_len(c) as int)
            } else {
                digest@
            };
            if be_nat(t) < curve_n(c) {
                be_nat(t)
            } else {
                be_nat(t) / 2
            }
        }),
{
    let k: usize = c.num_bytes();
    let d: &[u8] = if digest.len() > k {
        slice_subrange(digest, 0, k)
    } else {
        digest
    };
    proof {
        assert(digest@.len() > k ==> d@ =~= digest@.take(k as int));
    }
    let mut limbs = pad_to(k, d);
    let n = n_bytes(c);
    proof {
        lemma_curve_params(c);
    }
    if !bytes_less_than(&limbs, &n) {
        limbs = shift_right_one(&limbs);
    }
    proof {
        lemma_digest_scalar_in_range(c, digest@);
        lemma_nat_to_be_of_be(limbs@);
    }
    limbs
}

/// Calculates the digest of `msg` using the digest algorithm `digest_alg`,
/// then converts the digest to a scalar in the range `[0, n)`.
pub fn digest_scalar(c: Curve, digest_alg: DigestAlgorithm, msg: &[u8]) -> (r: Vec<u8>)
    ensures
        r@ == nat_to_be(elem_len(c), digest_scalar_value(c, digest_spec(digest_alg, msg@))),
        r@.len() == elem_len(c),
        be_nat(r@) < curve_n(c),
        be_nat(r@) == ({
            let h = match digest_alg {
                DigestAlgorithm::Sha1 => sha1_digest(msg@),
                DigestAlgorithm::Sha256 => sha256_digest(msg@),
                DigestAlgorithm::Sha384 => sha384_digest(msg@),
                DigestAlgorithm::Sha512 => sha512_digest(msg@),
            };
            let t = if h.len() > elem_len(c) {
                h.take(elem_len(c) as int)
            } else {
                h
            };
            if be_nat(t) < curve_n(c) {
                be_nat(t)
            } else {
                be_nat(t) / 2
            }
        }),
{
    let d = digest(digest_alg, msg);
    digest_scalar_(c, &d)
}

/// `g_scalar * G + p_scalar * P`, `G` the base point, `None` standing for the
/// point at infinity.
pub fn twin_mul(c: Curve, g_scalar: &[u8], p_scalar: &[u8], p_xy: &Point) -> (r: Option<Point>)
    requires
        g_scalar@.len() == elem_len(c),
        p_scalar@.len() == elem_len(c),
        be_nat(g_scalar@) < curve_n(c),
        be_nat(p_scalar@) < curve_n(c),
        on_curve(c, p_xy.x@, p_xy.y@),
    ensures
        opt_point_view(r) == twin_mul_spec(c, g_scalar@, p_scalar@, p_xy@),
        opt_point_view(r) == point_encoding(
            c,
            ec_add(
                c,
                ec_mul(c, be_nat(g_scalar@), Some(generator(c))),
                ec_mul(c, be_nat(p_scalar@), Some(point_value(p_xy@))),
            ),
        ),
        opt_on_curve(c, opt_point_view(r)),
{
    proof {
        lemma_twin_mul_value(c, g_scalar@, p_scalar@, p_xy@);
    }
    let scaled_g = point_mul_base(c, g_scalar);
    let scaled_p = point_mul(c, p_scalar, p_xy);
    point_sum(c, scaled_g, scaled_p)
}

/// Whether the signature's `r` matches the `x` coordinate of the computed
/// point: `x = r`, or `x = r + n` where `r + n < q`. The affine `x` is below
/// `q`, so this is `x mod n = r` (NSA Guide steps 7 and 8), without reducing
/// `x` modulo `n`.
pub fn sig_r_equals_x(c: Curve, r: &[u8], x: &[u8]) -> (b: bool)
    requires
        r@.len() == elem_len(c),
        x@.len() == elem_len(c),
        be_nat(r@) < curve_n(c),
        be_nat(x@) < curve_q(c),
    ensures
        b == (be_nat(x@) % curve_n(c) == be_nat(r@)),
{
    proof {
        lemma_curve_params(c);
        lemma_r_check_is_x_mod_n(curve_n(c), curve_q(c), be_nat(r@), be_nat(x@));
    }
    if verify_slices_are_equal(r, x).is_ok() {
        return true;
    }
    proof {
        if be_nat(r@) == be_nat(x@) {
            lemma_be_injective(r@, x@);
        }
    }
    let k: usize = c.num_bytes();
    let n = n_bytes(c);
    let q = q_bytes(c);
    let r_wide = pad_to(k + 1, r);
    let n_wide = pad_to(k + 1, &n);
    let q_wide = pad_to(k + 1, &q);
    proof {
        assert(pow256((k + 1) as nat) == 256 * pow256(k as nat));
    }
    let r_plus_n = add_bytes(&r_wide, &n_wide);
    if bytes_less_than(&r_plus_n, &q_wide) {
        let x_wide = pad_to(k + 1, x);
        let equal = verify_slices_are_equal(&r_plus_n, &x_wide).is_ok();
        proof {
            if be_nat(r_plus_n@) == be_nat(x_wide@) {
                lemma_be_injective(r_plus_n@, x_wide@);
            }
        }
        return equal;
    }
    false
}

/// A verification algorithm: ECDSA with a curve and a digest algorithm, the
/// signature DER-encoded as an `Ecdsa-Sig-Value` (RFC 3279 Section 2.2.3) and
/// the public key an uncompressed point (SEC 1).
pub struct ECDSAVerification {
    pub curve: Curve,
    pub digest_alg: DigestAlgorithm,
}

/// Verification of ECDSA signatures using the P-256 curve and SHA-1.
pub fn ecdsa_p256_sha1_asn1() -> (r: ECDSAVerification)
    ensures
        r.curve == Curve::P256,
        r.digest_alg == DigestAlgorithm::Sha1,
{
    ECDSAVerification { curve: Curve::P256, digest_alg: DigestAlgorithm::Sha1 }
}

/// Verification of ECDSA signatures using the P-256 curve and SHA-256.
pub fn ecdsa_p256_sha256_asn1() -> (r: ECDSAVerification)
    ensures
        r.curve == Curve::P256,
        r.digest_alg == DigestAlgorithm::Sha256,
{
    ECDSAVerification { curve: Curve::P256, digest_alg: DigestAlgorithm::Sha256 }
}

/// Verification of ECDSA signatures using the P-256 curve and SHA-384.
pub fn ecdsa_p256_sha384_asn1() -> (r: ECDSAVerification)
    ensures
        r.curve == Curve::P256,
        r.digest_alg == DigestAlgorithm::Sha384,
{
    ECDSAVerification { curve: Curve::P256, digest_alg: DigestAlgorithm::Sha384 }
}

/// Verification of ECDSA signatures using the P-256 curve and SHA-512.
pub fn ecdsa_p256_sha512_asn1() -> (r: ECDSAVerification)
    ensures
        r.curve == Curve::P256,
        r.digest_alg == DigestAlgorithm::Sha512,
{
    ECDSAVerification { curve: Curve::P256, digest_alg: DigestAlgorithm::Sha512 }
}

/// Verification of ECDSA signatures using the P-384 curve and SHA-1.
pub fn ecdsa_p384_sha1_asn1() -> (r: ECDSAVerification)
    ensures
        r.curve == Curve::P384,
        r.digest_alg == DigestAlgorithm::Sha1,
{
    ECDSAVerification { curve: Curve::P384, digest_alg: DigestAlgorithm::Sha1 }
}

/// Verification of ECDSA signatures using the P-384 curve and SHA-256.
pub fn ecdsa_p384_sha256_asn1() -> (r: ECDSAVerification)
    ensures
        r.curve == Curve::P384,
        r.digest_alg == DigestAlgorithm::Sha256,
{
    ECDSAVerification { curve: Curve::P384, digest_alg: DigestAlgorithm::Sha256 }
}

/// Verification of ECDSA signatures using the P-384 curve and SHA-384.
pub fn ecdsa_p384_sha384_asn1() -> (r: ECDSAVerification)
    ensures
        r.curve == Curve::P384,
        r.digest_alg == DigestAlgorithm::Sha384,
{
    ECDSAVerification { curve: Curve::P384, digest_alg: DigestAlgorithm::Sha384 }
}

/// Verification of ECDSA signatures using the P-384 curve and SHA-512.
pub fn ecdsa_p384_sha512_asn1() -> (r: ECDSAVerification)
    ensures
        r.curve == Curve::P384,
        r.digest_alg == DigestAlgorithm::Sha512,
{
    ECDSAVerification { curve: Curve::P384, digest_alg: DigestAlgorithm::Sha512 }
}

impl ECDSAVerification {
    /// Verifies an ECDSA signature as documented in the NSA Suite B
    /// Implementer's Guide to ECDSA Section 3.4.2: ECDSA Signature
    /// Verification. Returns `Ok(())` exactly when the signature is valid.
    pub fn verify(&self, public_key: &[u8], msg: &[u8], signature: &[u8]) -> (res: Result<(), ()>)
        ensures
            res is Ok <==> ecdsa_verify_spec(self.curve, self.digest_alg, public_key@, msg@, signature@),
    {
        let c = self.curve;
        // Prerequisite #3, the validity of the public key, is handled by
        // `parse_uncompressed_point`.
        let peer_pub_key = match parse_uncompressed_point(c, public_key) {
            Ok(p) => p,
            Err(()) => return Err(()),
        };
        // NSA Guide Step 1: "If r and s are not both integers in the interval
        // [1, n - 1], output INVALID."
        let (r, s) = match parse_signature(c, signature) {
            Ok(t) => t,
            Err(()) => return Err(()),
        };
        proof {
            lemma_curve_params(c);
        }
        // NSA Guide Steps 2 and 3: the digest of the message, converted to an
        // integer.
        let e = digest_scalar(c, self.digest_alg, msg);
        // NSA Guide Step 4: "Compute w = s**-1 mod n".
        let w = scalar_inv(c, &s);
        proof {
            lemma_scalar_results(c, s@, s@);
        }
        // NSA Guide Step 5: "Compute u1 = (e * w) mod n, and compute
        // u2 = (r * w) mod n."
        let u1 = scalar_mul(c, &e, &w);
        let u2 = scalar_mul(c, &r, &w);
        proof {
            lemma_scalar_results(c, e@, w@);
            lemma_scalar_results(c, r@, w@);
        }
        // NSA Guide Step 6: "Compute the elliptic curve point
        // R = (xR, yR) = u1*G + u2*Q. If R is equal to the point at infinity,
        // output INVALID."
        let product = twin_mul(c, &u1, &u2, &peer_pub_key);
        match product {
            None => Err(()),
            Some(p) => {
                // NSA Guide Steps 7 and 8: "Compute v = xR mod n. Compare v
                // and r. If v = r, output VALID; otherwise, output INVALID."
                if sig_r_equals_x(c, &r, &p.x) {
                    Ok(())
                } else {
                    Err(())
                }
            },
        }
    }
}

/// A valid signature is a DER `SEQUENCE` of two INTEGERs making up all of the
/// signature, both in `[1, n - 1]` (NSA Guide Step 1), and its public key is
/// an uncompressed point of the curve with both coordinates below `q`.
pub proof fn lemma_valid_signature_well_formed(
    c: Curve,
    alg: DigestAlgorithm,
    pk: Seq<u8>,
    msg: Seq<u8>,
    sig: Seq<u8>,
)
    ensures
        ecdsa_verify_spec(c, alg, pk, msg, sig) ==> {
            &&& signature_integers_spec(sig) matches Some((r, s))
            &&& 1 <= be_nat(r) < curve_n(c)
            &&& 1 <= be_nat(s) < curve_n(c)
            &&& pk.len() == 1 + 2 * elem_len(c)
            &&& pk[0] == 4
            &&& on_curve(c, pk.subrange(1, 1 + elem_len(c) as int), pk.subrange(1 + elem_len(c) as int, 1 + 2 * elem_len(c) as int))
        },
{
}

/// The DER `SEQUENCE { INTEGER, INTEGER }` of the magnitudes `r` and `s`.
pub open spec fn signature_encoding(r: Seq<u8>, s: Seq<u8>) -> Seq<u8> {
    der_element(
        TAG_SEQUENCE,
        der_element(TAG_INTEGER, positive_integer_encoding(r)) + der_element(
            TAG_INTEGER,
            positive_integer_encoding(s),
        ),
    )
}

/// Reading the encoding of a signature gives back its two integers.
pub proof fn lemma_signature_integers_roundtrip(r: Seq<u8>, s: Seq<u8>)
    requires
        1 <= r.len() < 1000,
        1 <= s.len() < 1000,
        r[0] != 0,
        s[0] != 0,
    ensures
        signature_integers_spec(signature_encoding(r, s)) == Some((r, s)),
{
    let er = der_element(TAG_INTEGER, positive_integer_encoding(r));
    let es = der_element(TAG_INTEGER, positive_integer_encoding(s));
    let body = er + es;
    let empty = Seq::<u8>::empty();
    assert(positive_integer_encoding(r).len() <= r.len() + 1);
    assert(positive_integer_encoding(s).len() <= s.len() + 1);
    assert(er.len() <= positive_integer_encoding(r).len() + 4);
    assert(es.len() <= positive_integer_encoding(s).len() + 4);
    assert(body.len() < 65536);
    lemma_der_read_element(TAG_SEQUENCE, body, empty);
    assert(der_element(TAG_SEQUENCE, body) + empty =~= der_element(TAG_SEQUENCE, body));
    assert(der_read(signature_encoding(r, s)) == Some((TAG_SEQUENCE, body, empty)));
    lemma_der_read_element(TAG_INTEGER, positive_integer_encoding(r), es);
    lemma_positive_integer_roundtrip(r);
    assert(der_positive_integer(body) == Some((r, es)));
    lemma_der_read_element(TAG_INTEGER, positive_integer_encoding(s), empty);
    assert(es + empty =~= es);
    lemma_positive_integer_roundtrip(s);
    assert(der_positive_integer(es) == Some((s, empty)));
}

/// A signature whose two integers are read is exactly their encoding.
pub proof fn lemma_signature_integers_is_encoding(sig: Seq<u8>)
    ensures
        signature_integers_spec(sig) matches Some((r, s)) ==> sig == signature_encoding(r, s),
{
    if let Some((r, s)) = signature_integers_spec(sig) {
        let (t0, body, rest) = der_read(sig).unwrap();
        lemma_der_read_is_element(sig);
        assert(der_element(t0, body) + rest =~= der_element(t0, body));
        let (t1, v1, rest1) = der_read(body).unwrap();
        lemma_der_read_is_element(body);
        lemma_positive_integer_minimal(v1);
        let (t2, v2, rest2) = der_read(rest1).unwrap();
        lemma_der_read_is_element(rest1);
        lemma_positive_integer_minimal(v2);
        assert(der_element(t2, v2) + rest2 =~= der_element(t2, v2));
    }
}

/// A magnitude with a non-zero leading byte that is below `n` fits in
/// `elem_len(c)` bytes.
proof fn lemma_magnitude_fits(c: Curve, m: Seq<u8>)
    requires
        m.len() >= 1,
        m[0] >= 1,
        be_nat(m) < curve_n(c),
    ensures
        m.len() <= elem_len(c),
{
    lemma_curve_params(c);
    lemma_be_leading_byte(m);
    if m.len() > elem_len(c) {
        lemma_pow256_monotone(elem_len(c), (m.len() - 1) as nat);
    }
}

/// The scalar that `scalar_parse_spec` gives is the value of the INTEGER,
/// and it gives one exactly when that value is in `[1, n)`.
pub proof fn lemma_scalar_parse_value(c: Curve, s: Seq<u8>)
    ensures
        scalar_parse_spec(c, s) is Some <==> (der_positive_integer(s) matches Some((m, rest)) && 1
            <= be_nat(m) < curve_n(c)),
        scalar_parse_spec(c, s) matches Some((v, rest)) ==> (der_positive_integer(s) matches Some(
            (m, rest2),
        ) && be_nat(v) == be_nat(m) && rest2 == rest && v.len() == elem_len(c)),
{
    if let Some((m, rest)) = der_positive_integer(s) {
        let v0 = der_read(s).unwrap().1;
        lemma_positive_integer_minimal(v0);
        assert(positive_integer_value(v0) == Some(m));
        if 1 <= be_nat(m) < curve_n(c) {
            lemma_magnitude_fits(c, m);
            lemma_be_zeros_prefix((elem_len(c) - m.len()) as nat, m);
        }
    }
}

/// The scalars that `parse_signature_spec` gives are the values of the
/// signature's two INTEGERs, and it gives them exactly when both are in
/// `[1, n)`.
pub proof fn lemma_parse_signature_integers(c: Curve, sig: Seq<u8>)
    ensures
        parse_signature_spec(c, sig) is Some <==> (signature_integers_spec(sig) matches Some((mr, ms))
            && 1 <= be_nat(mr) < curve_n(c) && 1 <= be_nat(ms) < curve_n(c)),
        parse_signature_spec(c, sig) matches Some((r, s)) ==> (signature_integers_spec(sig) matches Some(
            (mr, ms),
        ) && be_nat(r) == be_nat(mr) && be_nat(s) == be_nat(ms) && r.len() == elem_len(c) && s.len()
            == elem_len(c)),
{
    if let Some((tag, body, rest)) = der_read(sig) {
        lemma_scalar_parse_value(c, body);
        if let Some((m1, rest1)) = der_positive_integer(body) {
            lemma_scalar_parse_value(c, rest1);
        }
    }
}

/// `twin_mul_spec` is `g * G + p * Q` under the group law.
pub proof fn lemma_twin_mul_value(c: Curve, g: Seq<u8>, p: Seq<u8>, q: (Seq<u8>, Seq<u8>))
    requires
        on_curve(c, q.0, q.1),
    ensures
        twin_mul_spec(c, g, p, q) == point_encoding(
            c,
            ec_add(c, ec_mul(c, be_nat(g), Some(generator(c))), ec_mul(c, be_nat(p), Some(point_value(q)))),
        ),
{
    let a = ec_mul(c, be_nat(g), Some(generator(c)));
    let b = ec_mul(c, be_nat(p), Some(point_value(q)));
    lemma_generator_in_range(c);
    lemma_on_curve_encoding(c, q.0, q.1);
    lemma_ec_mul_in_range(c, be_nat(g), Some(generator(c)));
    lemma_ec_mul_in_range(c, be_nat(p), Some(point_value(q)));
    lemma_point_encoding_value(c, a);
    lemma_point_encoding_value(c, b);
    assert(q == (q.0, q.1));
}

/// Verification accepts exactly the signatures that the NSA Suite B
/// Implementer's Guide to ECDSA (Section 3.4.2) calls valid: the public key
/// is the uncompressed encoding of a point of the curve; the signature is a
/// DER `SEQUENCE` of two INTEGERs `r` and `s`, both in `[1, n - 1]`; `e` is
/// the leftmost bytes of the message's digest, halved where not below `n`;
/// `w = s^-1 = s^(n-2) mod n`, `u1 = e * w mod n`, `u2 = r * w mod n`; the
/// point `u1 * G + u2 * Q` is not the point at infinity, and its `x` is `r`
/// modulo `n`.
pub proof fn lemma_verify_is_nsa_verification(
    c: Curve,
    alg: DigestAlgorithm,
    pk: Seq<u8>,
    msg: Seq<u8>,
    sig: Seq<u8>,
)
    ensures
        ecdsa_verify_spec(c, alg, pk, msg, sig) <==> {
            let k = elem_len(c);
            let n = curve_n(c);
            let qx = pk.subrange(1, 1 + k as int);
            let qy = pk.subrange(1 + k as int, 1 + 2 * k as int);
            let h = match alg {
                DigestAlgorithm::Sha1 => sha1_digest(msg),
                DigestAlgorithm::Sha256 => sha256_digest(msg),
                DigestAlgorithm::Sha384 => sha384_digest(msg),
                DigestAlgorithm::Sha512 => sha512_digest(msg),
            };
            let t = if h.len() > k {
                h.take(k as int)
            } else {
                h
            };
            let e = if be_nat(t) < n {
                be_nat(t)
            } else {
                be_nat(t) / 2
            };
            &&& pk.len() == 1 + 2 * k
            &&& pk[0] == 4
            &&& on_curve(c, qx, qy)
            &&& signature_integers_spec(sig) matches Some((mr, ms))
            &&& 1 <= be_nat(mr) < n
            &&& 1 <= be_nat(ms) < n
            &&& {
                let w = (pow(be_nat(ms) as int, (n - 2) as nat) % (n as int)) as nat;
                let u1 = (e * w) % n;
                let u2 = (be_nat(mr) * w) % n;
                ec_add(
                    c,
                    ec_mul(c, u1, Some(generator(c))),
                    ec_mul(c, u2, Some((be_nat(qx) as int, be_nat(qy) as int))),
                ) matches Some((x, y)) && x % (n as int) == be_nat(mr)
            }
        },
{
    let k = elem_len(c);
    let n = curve_n(c);
    lemma_curve_params(c);
    lemma_parse_signature_integers(c, sig);
    if let Some(q) = parse_public_key_spec(c, pk) {
        if let Some((r, s)) = parse_signature_spec(c, sig) {
            let dv = digest_scalar_value(c, digest_spec(alg, msg));
            lemma_digest_scalar_in_range(c, digest_spec(alg, msg));
            let e = nat_to_be(k, dv);
            lemma_be_of_nat_to_be(k, dv);
            let w = scalar_inv_spec(c, s);
            let wv = (pow(be_nat(s) as int, (n - 2) as nat) % (n as int)) as nat;
            lemma_be_of_nat_to_be(k, wv);
            let u1 = scalar_mul_spec(c, e, w);
            let u2 = scalar_mul_spec(c, r, w);
            lemma_scalar_results(c, e, w);
            lemma_scalar_results(c, r, w);
            lemma_twin_mul_value(c, u1, u2, q);
            let pt = ec_add(
                c,
                ec_mul(c, be_nat(u1), Some(generator(c))),
                ec_mul(c, be_nat(u2), Some(point_value(q))),
            );
            lemma_generator_in_range(c);
            lemma_on_curve_encoding(c, q.0, q.1);
            lemma_ec_mul_in_range(c, be_nat(u1), Some(generator(c)));
            lemma_ec_mul_in_range(c, be_nat(u2), Some(point_value(q)));
            crate::curve::lemma_ec_add_in_range(
                c,
                ec_mul(c, be_nat(u1), Some(generator(c))),
                ec_mul(c, be_nat(u2), Some(point_value(q))),
            );
            lemma_point_encoding_value(c, pt);
        }
    }
}

/// The scalar a digest converts to is in `[0, n)`.
pub proof fn lemma_digest_scalar_in_range(c: Curve, d: Seq<u8>)
    ensures
        digest_scalar_value(c, d) < curve_n(c),
{
    lemma_curve_params(c);
    let k = elem_len(c);
    let t = if d.len() > k {
        d.take(k as int)
    } else {
        d
    };
    let p = pow256((k - 1) as nat);
    lemma_be_zeros_prefix((k - t.len()) as nat, t);
    lemma_be_nat_bound(zeros((k - t.len()) as nat) + t);
    let v = be_nat(t);
    assert(v < 256 * p);
}

/// Only the leftmost `elem_len(c)` bytes of a digest, its most significant
/// bits, decide the scalar it converts to.
pub proof fn lemma_digest_scalar_uses_leftmost_bytes(c: Curve, d1: Seq<u8>, d2: Seq<u8>)
    requires
        d1.len() >= elem_len(c),
        d2.len() >= elem_len(c),
        d1.take(elem_len(c) as int) == d2.take(elem_len(c) as int),
    ensures
        digest_scalar_value(c, d1) == digest_scalar_value(c, d2),
{
    let k = elem_len(c) as int;
    if d1.len() == k {
        assert(d1 =~= d1.take(k));
    }
    if d2.len() == k {
        assert(d2 =~= d2.take(k));
    }
}

/// For `r < n`, `x < q` and `q < 2n`: `x = r`, or `x = r + n` with
/// `r + n < q`, exactly when `x mod n = r`.
pub proof fn lemma_r_check_is_x_mod_n(n: nat, q: nat, r: nat, x: nat)
    requires
        r < n,
        x < q,
        q < 2 * n,
    ensures
        (x == r || (r + n < q && x == r + n)) <==> x % n == r,
{
    if x < n {
        lemma_small_mod(x, n);
    } else {
        lemma_fundamental_div_mod_converse(x as int, n as int, 1, x - n);
    }
}

} // verus!
