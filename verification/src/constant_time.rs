//! Constant-time operations.

use vstd::prelude::*;

verus! {

/// Returns `Ok(())` if `a == b` and `Err(())` otherwise. The comparison of
/// `a` and `b` is done in constant time with respect to the contents of each,
/// but NOT in constant time with respect to the lengths of `a` and `b`: every
/// byte pair is combined into the accumulator, and only its final value is
/// examined.
pub fn verify_slices_are_equal(a: &[u8], b: &[u8]) -> (r: Result<(), ()>)
    ensures
        r is Ok <==> a@ == b@,
{
    if a.len() != b.len() {
        return Err(());
    }
    let mut acc: u8 = 0;
    let mut i: usize = 0;
    proof {
        assert(a@.take(0) =~= b@.take(0));
    }
    while i < a.len()
        invariant
            a@.len() == b@.len(),
            0 <= i <= a@.len(),
            (acc == 0) <==> (a@.take(i as int) == b@.take(i as int)),
        decreases a@.len() - i,
    {
        let x: u8 = a[i];
        let y: u8 = b[i];
        let d: u8 = x ^ y;
        let next: u8 = acc | d;
        assert((next == 0) == (acc == 0 && x == y)) by (bit_vector)
            requires
                d == x ^ y,
                next == acc | d,
        ;
        proof {
            assert(a@.take(i + 1) =~= a@.take(i as int).push(x));
            assert(b@.take(i + 1) =~= b@.take(i as int).push(y));
            if a@.take(i + 1) == b@.take(i + 1) {
                assert(a@.take(i as int) =~= a@.take(i + 1).drop_last());
                assert(b@.take(i as int) =~= b@.take(i + 1).drop_last());
                assert(a@.take(i + 1)[i as int] == x);
                assert(b@.take(i + 1)[i as int] == y);
            }
        }
        acc = next;
        i += 1;
    }
    proof {
        assert(a@.take(a@.len() as int) =~= a@);
        assert(b@.take(b@.len() as int) =~= b@);
    }
    if acc == 0 {
        Ok(())
    } else {
        Err(())
    }
}

} // verus!
