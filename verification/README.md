# ring

Verification of ECDSA signatures on the NIST P-256 and P-384 curves, and
constant-time comparison of byte strings, written in Verus.

Layout of `src/`:

- `constant_time.rs`: `verify_slices_are_equal`.
- `bignum.rs`: fixed-width unsigned integers as big-endian byte strings
  (comparison, halving, addition, padding) and their lemmas.
- `der.rs`: reading DER elements and positive INTEGERs.
- `curve.rs`: the curves' parameters, the curve equation, the group law, and
  the specifications of scalar arithmetic.
- `digest.rs`: SHA-1 and SHA-2 through the `sha1` and `sha2` crates.
- `p256_ops.rs`, `p384_ops.rs`: scalar and point arithmetic through the
  `p256` and `p384` crates.
- `ops.rs`: the arithmetic of either curve.
- `ecdsa.rs`: key and signature parsing, the digest-to-scalar conversion,
  `twin_mul`, and `ECDSAVerification::verify`.

`app/lib.rs` offers `verify` over `untrusted::Input` values.
