//! Hexadecimal encoding and decoding of byte strings, with the exact
//! specification the codec's round-trip proof rests on. Encoding is
//! lowercase; decoding accepts both cases and fails on odd length or on
//! any character that is not a hexadecimal digit.

use vstd::prelude::*;

verus! {

/// Whether `c` is the ASCII code of a hexadecimal digit.
pub open spec fn is_hex_digit(c: u8) -> bool {
    (48 <= c <= 57) || (97 <= c <= 102) || (65 <= c <= 70)
}

/// The value of the hexadecimal digit with ASCII code `c`.
pub open spec fn hex_val(c: u8) -> u8
    recommends
        is_hex_digit(c),
{
    if 48 <= c <= 57 {
        (c - 48) as u8
    } else if 97 <= c <= 102 {
        (c - 87) as u8
    } else {
        (c - 55) as u8
    }
}

/// The ASCII code of the lowercase hexadecimal digit for `n`.
pub open spec fn digit_of(n: u8) -> u8
    recommends
        n < 16,
{
    if n < 10 {
        (48 + n) as u8
    } else {
        (87 + n) as u8
    }
}

/// The bytes denoted by the hexadecimal text `s`: `None` on odd length or
/// on a character that is not a hexadecimal digit.
pub open spec fn hex_decode_spec(s: Seq<u8>) -> Option<Seq<u8>>
    decreases s.len(),
{
    if s.len() == 0 {
        Some(Seq::empty())
    } else if s.len() == 1 {
        None
    } else if is_hex_digit(s[0]) && is_hex_digit(s[1]) {
        match hex_decode_spec(s.skip(2)) {
            Some(rest) => Some(seq![(hex_val(s[0]) * 16 + hex_val(s[1])) as u8] + rest),
            None => None,
        }
    } else {
        None
    }
}

/// The lowercase hexadecimal text denoting the bytes `b`, two digits per
/// byte.
pub open spec fn hex_encode_spec(b: Seq<u8>) -> Seq<u8>
    decreases b.len(),
{
    if b.len() == 0 {
        Seq::empty()
    } else {
        seq![digit_of(b[0] / 16), digit_of(b[0] % 16)] + hex_encode_spec(b.skip(1))
    }
}

/// Every character of an encoding is a hexadecimal digit; in particular
/// none is a quote, which lets a parser find the end of a hex field.
pub proof fn lemma_encode_chars(b: Seq<u8>)
    ensures
        hex_encode_spec(b).len() == 2 * b.len(),
        forall|i: int|
            0 <= i < hex_encode_spec(b).len() ==> #[trigger] is_hex_digit(hex_encode_spec(b)[i]),
    decreases b.len(),
{
    if b.len() > 0 {
        lemma_encode_chars(b.skip(1));
    }
}

/// Encoding distributes over concatenation.
pub proof fn lemma_encode_append(a: Seq<u8>, b: Seq<u8>)
    ensures
        hex_encode_spec(a + b) == hex_encode_spec(a) + hex_encode_spec(b),
    decreases a.len(),
{
    if a.len() == 0 {
        assert(a + b =~= b);
        assert(hex_encode_spec(a) + hex_encode_spec(b) =~= hex_encode_spec(b));
    } else {
        lemma_encode_append(a.skip(1), b);
        assert((a + b).skip(1) =~= a.skip(1) + b);
        assert(hex_encode_spec(a + b) =~= hex_encode_spec(a) + hex_encode_spec(b));
    }
}

/// The value of one hexadecimal digit character, or `None` for any other
/// character.
pub fn hex_val_exec(c: u8) -> (r: Option<u8>)
    ensures
        is_hex_digit(c) ==> r == Some(hex_val(c)),
        !is_hex_digit(c) ==> r is None,
{
    if 48 <= c && c <= 57 {
        Some(c - 48)
    } else if 97 <= c && c <= 102 {
        Some(c - 87)
    } else if 65 <= c && c <= 70 {
        Some(c - 55)
    } else {
        None
    }
}

/// Decodes hexadecimal text into bytes.
pub fn hex_decode(s: &[u8]) -> (r: Result<Vec<u8>, ()>)
    ensures
        match hex_decode_spec(s@) {
            Some(b) => r matches Ok(v) && v@ == b,
            None => r is Err,
        },
{
    if s.len() % 2 != 0 {
        proof {
            lemma_odd_decodes_none(s@);
        }
        return Err(());
    }
    let mut out: Vec<u8> = Vec::new();
    let mut i: usize = 0;
    proof {
        assert(s@.skip(0) =~= s@);
        match hex_decode_spec(s@) {
            Some(rest) => {
                assert(out@ + rest =~= rest);
            },
            None => {},
        }
    }
    while i < s.len()
        invariant
            i % 2 == 0,
            i <= s@.len(),
            s@.len() % 2 == 0,
            hex_decode_spec(s@) == match hex_decode_spec(s@.skip(i as int)) {
                Some(rest) => Some(out@ + rest),
                None => None::<Seq<u8>>,
            },
        decreases s@.len() - i,
    {
        let hi = hex_val_exec(s[i]);
        let lo = hex_val_exec(s[i + 1]);
        match (hi, lo) {
            (Some(h), Some(l)) => {
                proof {
                    assert(h <= 15 && l <= 15);
                }
                let ghost out_old = out@;
                out.push(h * 16 + l);
                proof {
                    assert(s@.skip(i as int).skip(2) =~= s@.skip(i as int + 2));
                    match hex_decode_spec(s@.skip(i as int + 2)) {
                        Some(rest) => {
                            assert(out_old + (seq![(h * 16 + l) as u8] + rest) =~= out@ + rest);
                        },
                        None => {},
                    }
                }
                i = i + 2;
            },
            _ => {
                return Err(());
            },
        }
    }
    proof {
        assert(s@.skip(i as int) =~= Seq::<u8>::empty());
        assert(out@ + Seq::<u8>::empty() =~= out@);
    }
    Ok(out)
}

/// Hexadecimal text of odd length decodes to nothing.
proof fn lemma_odd_decodes_none(s: Seq<u8>)
    requires
        s.len() % 2 == 1,
    ensures
        hex_decode_spec(s) is None,
    decreases s.len(),
{
    if s.len() > 1 {
        lemma_odd_decodes_none(s.skip(2));
    }
}

/// Appends the hexadecimal encoding of `b` to `out`.
pub fn hex_encode_push(out: &mut Vec<u8>, b: &[u8])
    ensures
        final(out)@ == old(out)@ + hex_encode_spec(b@),
{
    let mut i: usize = 0;
    while i < b.len()
        invariant
            i <= b@.len(),
            out@ == old(out)@ + hex_encode_spec(b@.take(i as int)),
        decreases b@.len() - i,
    {
        let x = b[i];
        out.push(if x / 16 < 10 {
            48 + x / 16
        } else {
            87 + x / 16
        });
        out.push(if x % 16 < 10 {
            48 + x % 16
        } else {
            87 + x % 16
        });
        proof {
            lemma_encode_append(b@.take(i as int), seq![b@[i as int]]);
            assert(b@.take(i as int) + seq![b@[i as int]] =~= b@.take(i as int + 1));
            let x = b@[i as int];
            assert(seq![x].skip(1) =~= Seq::<u8>::empty());
            assert(hex_encode_spec(Seq::<u8>::empty()) == Seq::<u8>::empty());
            assert(hex_encode_spec(seq![x]) == seq![digit_of(x / 16), digit_of(x % 16)]
                + hex_encode_spec(seq![x].skip(1)));
            assert(hex_encode_spec(seq![x]) =~= seq![digit_of(x / 16), digit_of(x % 16)]);
            assert(out@ =~= old(out)@ + hex_encode_spec(b@.take(i as int + 1)));
        }
        i = i + 1;
    }
    proof {
        assert(b@.take(i as int) =~= b@);
    }
}

} // verus!
