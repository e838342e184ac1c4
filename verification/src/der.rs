//! Reading the Distinguished Encoding Rules (DER) elements that ECDSA
//! signatures are made of.

use vstd::prelude::*;
use vstd::slice::slice_subrange;
use vstd::arithmetic::div_mod::lemma_fundamental_div_mod_converse;
use crate::bignum::{be_nat, pow256, lemma_be_skip_step, lemma_pow256_positive};

verus! {

/// The tag of an INTEGER.
pub const TAG_INTEGER: u8 = 0x02;

/// The tag of a (constructed) SEQUENCE.
pub const TAG_SEQUENCE: u8 = 0x30;

/// The header of the element at the start of `s`: its tag, the length of the
/// header, and the length of the value. The tag must use the low tag number
/// form; the length must use the short form, or the long form with one or
/// two bytes, each time in its shortest form.
pub open spec fn der_header(s: Seq<u8>) -> Option<(u8, nat, nat)> {
    if s.len() < 2 || s[0] % 32 == 31 {
        None
    } else if s[1] < 0x80 {
        Some((s[0], 2, s[1] as nat))
    } else if s[1] == 0x81 {
        if s.len() < 3 || s[2] < 0x80 {
            None
        } else {
            Some((s[0], 3, s[2] as nat))
        }
    } else if s[1] == 0x82 {
        if s.len() < 4 || (s[2] as nat) * 256 + (s[3] as nat) < 256 {
            None
        } else {
            Some((s[0], 4, (s[2] as nat) * 256 + (s[3] as nat)))
        }
    } else {
        None
    }
}

/// The element at the start of `s`: its tag, its value, and what follows it.
pub open spec fn der_read(s: Seq<u8>) -> Option<(u8, Seq<u8>, Seq<u8>)> {
    match der_header(s) {
        Some((tag, h, l)) => if h + l <= s.len() {
            Some((tag, s.subrange(h as int, (h + l) as int), s.subrange((h + l) as int, s.len() as int)))
        } else {
            None
        },
        None => None,
    }
}

/// The magnitude of a positive INTEGER whose value bytes are `v`: `v` is the
/// shortest two's complement encoding of a number above zero, and the
/// magnitude is `v` without the zero byte that may lead it.
pub open spec fn positive_integer_value(v: Seq<u8>) -> Option<Seq<u8>> {
    if v.len() == 0 {
        None
    } else if v[0] == 0 {
        if v.len() < 2 || v[1] < 0x80 {
            None
        } else {
            Some(v.drop_first())
        }
    } else if v[0] >= 0x80 {
        None
    } else {
        Some(v)
    }
}

/// The magnitude of the positive INTEGER at the start of `s`, and what follows it.
pub open spec fn der_positive_integer(s: Seq<u8>) -> Option<(Seq<u8>, Seq<u8>)> {
    match der_read(s) {
        Some((tag, v, rest)) => if tag != TAG_INTEGER {
            None
        } else {
            match positive_integer_value(v) {
                Some(m) => Some((m, rest)),
                None => None,
            }
        },
        None => None,
    }
}

/// Reads the element at the start of `input`, returning its tag, its value,
/// and the input that follows it.
pub fn read_tag_and_get_value<'a>(input: &'a [u8]) -> (r: Result<(u8, &'a [u8], &'a [u8]), ()>)
    ensures
        r is Ok <==> der_read(input@) is Some,
        r matches Ok((tag, value, rest)) ==> der_read(input@) == Some((tag, value@, rest@)),
{
    if input.len() < 2 {
        return Err(());
    }
    let tag: u8 = input[0];
    assert((tag & 0x1f == 0x1f) == (tag % 32 == 31)) by (bit_vector);
    if tag & 0x1f == 0x1f {
        // High tag number form is not allowed.
        return Err(());
    }
    // If the high order bit of the first byte is set to zero then the length
    // is encoded in the seven remaining bits of that byte. Otherwise, those
    // seven bits represent the number of bytes used to encode the length.
    let first: u8 = input[1];
    assert((first & 0x80 == 0) == (first < 0x80)) by (bit_vector);
    let (header, length): (usize, usize) = if first & 0x80 == 0 {
        (2, first as usize)
    } else if first == 0x81 {
        if input.len() < 3 {
            return Err(());
        }
        let second: u8 = input[2];
        if second < 128 {
            // Not the canonical encoding.
            return Err(());
        }
        (3, second as usize)
    } else if first == 0x82 {
        if input.len() < 4 {
            return Err(());
        }
        let combined: usize = (input[2] as usize) * 256 + (input[3] as usize);
        if combined < 256 {
            // Not the canonical encoding.
            return Err(());
        }
        (4, combined)
    } else {
        // Longer lengths are not supported.
        return Err(());
    };
    if length > input.len() - header {
        return Err(());
    }
    let value = slice_subrange(input, header, header + length);
    let rest = slice_subrange(input, header + length, input.len());
    Ok((tag, value, rest))
}

/// Reads the positive INTEGER at the start of `input`, returning its
/// magnitude, without the zero byte that may lead its encoding, and the input
/// that follows it.
pub fn positive_integer<'a>(input: &'a [u8]) -> (r: Result<(&'a [u8], &'a [u8]), ()>)
    ensures
        r is Ok <==> der_positive_integer(input@) is Some,
        r matches Ok((m, rest)) ==> der_positive_integer(input@) == Some((m@, rest@)),
{
    let (tag, value, rest) = match read_tag_and_get_value(input) {
        Ok(t) => t,
        Err(()) => return Err(()),
    };
    if tag != TAG_INTEGER {
        return Err(());
    }
    if value.len() == 0 {
        return Err(());
    }
    let first: u8 = value[0];
    if first == 0 {
        // A leading zero is only allowed when the value's high bit is set;
        // zero itself is not positive.
        if value.len() < 2 {
            return Err(());
        }
        let second: u8 = value[1];
        if second < 0x80 {
            return Err(());
        }
        let magnitude = slice_subrange(value, 1, value.len());
        proof {
            assert(magnitude@ =~= value@.drop_first());
        }
        return Ok((magnitude, rest));
    }
    if first >= 0x80 {
        // A negative number.
        return Err(());
    }
    Ok((value, rest))
}

/// The DER element with tag `tag` and value `v`, its length written in its
/// shortest form.
pub open spec fn der_element(tag: u8, v: Seq<u8>) -> Seq<u8> {
    let l = v.len();
    if l < 128 {
        seq![tag, l as u8] + v
    } else if l < 256 {
        seq![tag, 0x81u8, l as u8] + v
    } else {
        seq![tag, 0x82u8, (l / 256) as u8, (l % 256) as u8] + v
    }
}

/// The value bytes of the positive INTEGER of magnitude `m`: `m`, after a
/// zero byte where its high bit is set.
pub open spec fn positive_integer_encoding(m: Seq<u8>) -> Seq<u8> {
    if m[0] < 0x80 {
        m
    } else {
        seq![0u8] + m
    }
}

/// Reading an element gives back its tag, its value and what follows it, for
/// every tag in the low tag number form and every value shorter than 65536
/// bytes.
pub proof fn lemma_der_read_element(tag: u8, v: Seq<u8>, rest: Seq<u8>)
    requires
        tag % 32 != 31,
        v.len() < 65536,
    ensures
        der_read(der_element(tag, v) + rest) == Some((tag, v, rest)),
{
    let s = der_element(tag, v) + rest;
    let l = v.len();
    let h: int = if l < 128 {
        2
    } else if l < 256 {
        3
    } else {
        4
    };
    if l >= 256 {
        lemma_fundamental_div_mod_converse(l as int, 256, (l / 256) as int, (l % 256) as int);
        assert(s[2] as nat == l / 256);
        assert(s[3] as nat == l % 256);
    }
    assert(der_header(s) == Some((tag, h as nat, l)));
    assert(s.subrange(h, h + l) =~= v);
    assert(s.subrange(h + l, s.len() as int) =~= rest);
}

/// What a read accepts is an element, in the shortest form, followed by the
/// rest of the input.
pub proof fn lemma_der_read_is_element(s: Seq<u8>)
    ensures
        der_read(s) matches Some((tag, v, rest)) ==> s == der_element(tag, v) + rest,
{
    if let Some((tag, v, rest)) = der_read(s) {
        let (t, h, l) = der_header(s).unwrap();
        if h == 4 {
            lemma_fundamental_div_mod_converse(l as int, 256, s[2] as int, s[3] as int);
        }
        assert(s =~= der_element(tag, v) + rest);
    }
}

/// Reading a positive INTEGER's value bytes gives back its magnitude, for
/// every magnitude with a non-zero leading byte.
pub proof fn lemma_positive_integer_roundtrip(m: Seq<u8>)
    requires
        m.len() >= 1,
        m[0] != 0,
    ensures
        positive_integer_value(positive_integer_encoding(m)) == Some(m),
{
    if m[0] >= 0x80 {
        assert((seq![0u8] + m).drop_first() =~= m);
    }
}

/// Only the shortest encoding of a length is accepted: the header's length
/// is determined by the value's length.
pub proof fn lemma_der_length_canonical(s: Seq<u8>)
    ensures
        der_header(s) matches Some((tag, h, l)) ==> {
            ||| (h == 2 && l < 128)
            ||| (h == 3 && 128 <= l < 256)
            ||| (h == 4 && 256 <= l < 65536)
        },
{
}

/// A positive INTEGER's magnitude is non-empty with a non-zero leading byte,
/// so above zero, and its encoding is the shortest: the magnitude itself, or
/// the magnitude after one zero byte where its high bit is set.
pub proof fn lemma_positive_integer_minimal(v: Seq<u8>)
    ensures
        positive_integer_value(v) matches Some(m) ==> {
            &&& m.len() >= 1
            &&& m[0] != 0
            &&& be_nat(m) >= 1
            &&& ((m[0] < 0x80 && v == m) || (m[0] >= 0x80 && v == seq![0u8] + m))
        },
{
    if let Some(m) = positive_integer_value(v) {
        lemma_be_skip_step(m, 0);
        assert(m.skip(0) =~= m);
        lemma_pow256_positive((m.len() - 1) as nat);
        let p = pow256((m.len() - 1) as nat);
        assert(m[0] * p >= 1) by (nonlinear_arith)
            requires
                m[0] >= 1,
                p >= 1,
        ;
        if v[0] == 0 {
            assert(v =~= seq![0u8] + m);
        }
    }
}

} // verus!
