//! The serialization codec: renders the role-tagged state as a canonical
//! textual payload and parses such a payload back, with a proof that
//! parsing inverts rendering exactly, for every role variant.
//!
//! The payload is ASCII text shaped like a tagged JSON object with a
//! fixed field order: `{"state":"<Role>","payload":...}`. Numbers are
//! fixed-width lowercase hexadecimal strings; byte strings are
//! variable-length lowercase hexadecimal strings.

use vstd::prelude::*;
use vstd::string::StringSliceAdditionalSpecFns;
use crate::hexb::{
    hex_encode_push, hex_encode_spec, hex_val, hex_val_exec, is_hex_digit, lemma_encode_chars,
};
use crate::model::{
    InputSlot, InputSlotV, Outpoint, OutputSlot, OutputSlotV, PartialSig, PartialSigV,
    ScriptPublicKey, Skeleton, SkeletonV, UtxoEntry, UtxoEntryV,
};

verus! {

/// The bytes of an ASCII literal, one byte per character.
pub open spec fn lit_bytes(s: Seq<char>) -> Seq<u8> {
    Seq::new(s.len(), |i: int| s[i] as u8)
}

/// Consumes an expected literal from the front of the text.
pub open spec fn parse_lit(b: Seq<u8>, l: Seq<u8>) -> Option<Seq<u8>> {
    if l.len() <= b.len() && b.take(l.len() as int) == l {
        Some(b.skip(l.len() as int))
    } else {
        None
    }
}

/// Parsing a literal off a text that starts with it leaves the rest.
pub proof fn lemma_parse_lit(l: Seq<u8>, rest: Seq<u8>)
    ensures
        parse_lit(l + rest, l) == Some(rest),
{
    assert((l + rest).take(l.len() as int) =~= l);
    assert((l + rest).skip(l.len() as int) =~= rest);
}

/// Appends an ASCII literal to the output.
#[verifier::loop_isolation(false)]
fn write_lit(out: &mut Vec<u8>, l: &str)
    requires
        l.is_ascii(),
    ensures
        final(out)@ == old(out)@ + lit_bytes(l@),
{
    proof {
        broadcast use vstd::string::is_ascii_spec_bytes;

    }
    let bs = l.as_bytes();
    let mut i: usize = 0;
    while i < bs.len()
        invariant
            i <= bs@.len(),
            bs@ == lit_bytes(l@),
            out@ == old(out)@ + lit_bytes(l@).take(i as int),
        decreases bs@.len() - i,
    {
        out.push(bs[i]);
        proof {
            assert(out@ =~= old(out)@ + lit_bytes(l@).take(i as int + 1));
        }
        i = i + 1;
    }
    proof {
        assert(lit_bytes(l@).take(i as int) =~= lit_bytes(l@));
    }
}

/// Consumes the expected literal at `pos`, yielding the position after
/// it, or nothing on a mismatch.
#[verifier::loop_isolation(false)]
fn expect_lit(b: &[u8], pos: usize, l: &str) -> (r: Option<usize>)
    requires
        l.is_ascii(),
        pos <= b@.len(),
    ensures
        match parse_lit(b@.skip(pos as int), lit_bytes(l@)) {
            Some(rem) => r matches Some(np) && pos <= np <= b@.len() && b@.skip(np as int) == rem
                && np == pos + l@.len(),
            None => r is None,
        },
{
    proof {
        broadcast use vstd::string::is_ascii_spec_bytes;

    }
    let bs = l.as_bytes();
    if bs.len() > b.len() - pos {
        proof {
            assert(parse_lit(b@.skip(pos as int), lit_bytes(l@)) is None);
        }
        return None;
    }
    let mut i: usize = 0;
    while i < bs.len()
        invariant
            i <= bs@.len(),
            bs@ == lit_bytes(l@),
            pos + bs@.len() <= b@.len(),
            forall|k: int| 0 <= k < i ==> b@[pos + k] == bs@[k],
        decreases bs@.len() - i,
    {
        if b[pos + i] != bs[i] {
            proof {
                assert(b@.skip(pos as int).take(lit_bytes(l@).len() as int) != lit_bytes(l@)) by {
                    assert(b@.skip(pos as int).take(lit_bytes(l@).len() as int)[i as int] != lit_bytes(
                        l@,
                    )[i as int]);
                }
            }
            return None;
        }
        i = i + 1;
    }
    proof {
        assert(b@.skip(pos as int).take(lit_bytes(l@).len() as int) =~= lit_bytes(l@));
        assert(b@.skip(pos as int).skip(lit_bytes(l@).len() as int) =~= b@.skip(
            pos as int + l@.len(),
        ));
    }
    Some(pos + bs.len())
}

/// Sixteen to the given power.
pub open spec fn pow16(w: nat) -> int
    decreases w,
{
    if w == 0 {
        1
    } else {
        16 * pow16((w - 1) as nat)
    }
}

/// The sixteenth power of sixteen, step by step.
pub proof fn lemma_pow16_sixteen()
    ensures
        pow16(16) == 0x10000000000000000,
{
    assert(pow16(0) == 1);
    assert(pow16(1) == 16);
    assert(pow16(2) == 0x100);
    assert(pow16(3) == 0x1000);
    assert(pow16(4) == 0x10000);
    assert(pow16(5) == 0x100000);
    assert(pow16(6) == 0x1000000);
    assert(pow16(7) == 0x10000000);
    assert(pow16(8) == 0x100000000);
    assert(pow16(9) == 0x1000000000);
    assert(pow16(10) == 0x10000000000);
    assert(pow16(11) == 0x100000000000);
    assert(pow16(12) == 0x1000000000000);
    assert(pow16(13) == 0x10000000000000);
    assert(pow16(14) == 0x100000000000000);
    assert(pow16(15) == 0x1000000000000000);
    assert(pow16(16) == 0x10000000000000000);
}

/// Powers of sixteen are positive and, up to the sixteenth, bounded by
/// the sixteenth.
pub proof fn lemma_pow16_bounds(w: nat)
    requires
        w <= 16,
    ensures
        0 < pow16(w) <= 0x10000000000000000,
{
    lemma_pow16_mono(0, w);
    lemma_pow16_mono(w, 16);
    lemma_pow16_sixteen();
}

/// Powers of sixteen are monotone in the exponent.
pub proof fn lemma_pow16_mono(a: nat, b: nat)
    requires
        a <= b,
    ensures
        pow16(a) <= pow16(b),
        pow16(a) >= 1,
    decreases b,
{
    if a < b {
        lemma_pow16_mono(a, (b - 1) as nat);
        assert(pow16(b) == 16 * pow16((b - 1) as nat));
        assert(pow16((b - 1) as nat) >= 1);
    } else if b > 0 {
        lemma_pow16_mono((a - 1) as nat, (b - 1) as nat);
    }
}

/// Sixteen to the given power, computed at run time.
#[verifier::loop_isolation(false)]
fn pow16_exec(w: usize) -> (r: u64)
    requires
        w <= 15,
    ensures
        r == pow16(w as nat),
{
    let mut r: u64 = 1;
    let mut i: usize = 0;
    while i < w
        invariant
            i <= w,
            r == pow16(i as nat),
        decreases w - i,
    {
        proof {
            lemma_pow16_mono(i as nat + 1, 15);
            lemma_pow16_mono(15, 16);
            lemma_pow16_sixteen();
        }
        r = r * 16;
        i = i + 1;
    }
    r
}

/// The `w`-digit lowercase hexadecimal text of `v`, most significant
/// digit first.
pub open spec fn ser_hexnum(v: int, w: nat) -> Seq<u8>
    recommends
        0 <= v < pow16(w),
    decreases w,
{
    if w == 0 {
        Seq::empty()
    } else {
        seq![
            crate::hexb::digit_of(((v / pow16((w - 1) as nat)) % 16) as u8),
        ] + ser_hexnum(v % pow16((w - 1) as nat), (w - 1) as nat)
    }
}

/// Accumulating parser for a fixed-width hexadecimal number.
pub open spec fn parse_hexnum_go(b: Seq<u8>, w: nat, acc: int) -> Option<(int, Seq<u8>)>
    decreases w,
{
    if w == 0 {
        Some((acc, b))
    } else if b.len() >= 1 && is_hex_digit(b[0]) {
        parse_hexnum_go(b.skip(1), (w - 1) as nat, acc * 16 + hex_val(b[0]))
    } else {
        None
    }
}

/// Consumes exactly `w` hexadecimal digits as one number.
pub open spec fn parse_hexnum(b: Seq<u8>, w: nat) -> Option<(int, Seq<u8>)> {
    parse_hexnum_go(b, w, 0)
}

/// A hexadecimal digit character carries its own value.
proof fn lemma_digit_of_val(n: u8)
    requires
        n < 16,
    ensures
        is_hex_digit(crate::hexb::digit_of(n)),
        hex_val(crate::hexb::digit_of(n)) == n,
{
}

/// Parsing `w` digits off the text `ser_hexnum(v, w) + rest` yields `v`
/// folded onto the accumulator and leaves `rest`.
proof fn lemma_parse_ser_hexnum_go(v: int, w: nat, rest: Seq<u8>, acc: int)
    requires
        0 <= v < pow16(w),
    ensures
        parse_hexnum_go(ser_hexnum(v, w) + rest, w, acc) == Some((acc * pow16(w) + v, rest)),
    decreases w,
{
    if w == 0 {
        assert(ser_hexnum(v, w) + rest =~= rest);
    } else {
        let p = pow16((w - 1) as nat);
        lemma_pow16_mono(0, (w - 1) as nat);
        let hi = v / p;
        let lo = v % p;
        assert(0 <= lo < p) by {
            vstd::arithmetic::div_mod::lemma_mod_bound(v, p);
        }
        assert(v == p * hi + lo) by {
            vstd::arithmetic::div_mod::lemma_fundamental_div_mod(v, p);
        }
        assert(0 <= hi < 16) by {
            assert(p * hi + lo == v);
            if hi >= 16 {
                assert(p * hi >= p * 16) by (nonlinear_arith)
                    requires
                        hi >= 16,
                        p > 0,
                ;
            }
            if hi < 0 {
                assert(p * hi <= p * -1) by (nonlinear_arith)
                    requires
                        hi <= -1,
                        p > 0,
                ;
            }
        }
        assert(hi % 16 == hi) by {
            vstd::arithmetic::div_mod::lemma_small_mod(hi as nat, 16);
        }
        let d = crate::hexb::digit_of(hi as u8);
        lemma_digit_of_val(hi as u8);
        let s = ser_hexnum(v, w) + rest;
        assert(ser_hexnum(v, w) == seq![d] + ser_hexnum(lo, (w - 1) as nat));
        assert(s =~= seq![d] + (ser_hexnum(lo, (w - 1) as nat) + rest));
        assert(s[0] == d);
        assert(s.skip(1) =~= ser_hexnum(lo, (w - 1) as nat) + rest);
        lemma_parse_ser_hexnum_go(lo, (w - 1) as nat, rest, acc * 16 + hi);
        assert((acc * 16 + hi) * p + lo == acc * pow16(w) + v) by (nonlinear_arith)
            requires
                pow16(w) == 16 * p,
                v == p * hi + lo,
        ;
    }
}

/// Parsing inverts rendering for fixed-width numbers.
pub proof fn lemma_parse_ser_hexnum(v: int, w: nat, rest: Seq<u8>)
    requires
        0 <= v < pow16(w),
    ensures
        parse_hexnum(ser_hexnum(v, w) + rest, w) == Some((v, rest)),
{
    lemma_parse_ser_hexnum_go(v, w, rest, 0);
}

/// Appends the `w`-digit hexadecimal text of `v`.
fn write_hexnum(out: &mut Vec<u8>, v: u64, w: usize)
    requires
        w <= 16,
        v < pow16(w as nat),
    ensures
        final(out)@ == old(out)@ + ser_hexnum(v as int, w as nat),
    decreases w,
{
    if w > 0 {
        let p = pow16_exec(w - 1);
        proof {
            lemma_pow16_mono(0, (w - 1) as nat);
        }
        let hi = ((v / p) % 16) as u8;
        out.push(if hi < 10 {
            48 + hi
        } else {
            87 + hi
        });
        proof {
            vstd::arithmetic::div_mod::lemma_mod_bound(v as int, p as int);
        }
        write_hexnum(out, v % p, w - 1);
        proof {
            assert(out@ =~= old(out)@ + ser_hexnum(v as int, w as nat));
        }
    }
}

/// Parses exactly `w` hexadecimal digits at `pos`.
#[verifier::loop_isolation(false)]
fn parse_hexnum_exec(b: &[u8], pos: usize, w: usize) -> (r: Option<(u64, usize)>)
    requires
        pos <= b@.len(),
        w <= 16,
    ensures
        match parse_hexnum(b@.skip(pos as int), w as nat) {
            Some(t) => r matches Some(p) && p.0 == t.0 && pos <= p.1 <= b@.len() && b@.skip(
                p.1 as int,
            ) == t.1 && p.1 == pos + w,
            None => r is None,
        },
{
    let n = b.len();
    let mut acc: u64 = 0;
    let mut k: usize = 0;
    while k < w
        invariant
            k <= w,
            w <= 16,
            pos + k <= b@.len(),
            acc < pow16(k as nat),
            parse_hexnum(b@.skip(pos as int), w as nat) == parse_hexnum_go(
                b@.skip(pos as int + k as int),
                (w - k) as nat,
                acc as int,
            ),
        decreases w - k,
    {
        if pos + k >= b.len() {
            proof {
                assert(b@.skip(pos as int + k as int).len() == 0);
            }
            return None;
        }
        let c = b[pos + k];
        proof {
            assert(b@.skip(pos as int + k as int)[0] == c);
        }
        match hex_val_exec(c) {
            None => {
                return None;
            },
            Some(d) => {
                proof {
                    lemma_pow16_mono(k as nat + 1, 16);
                    lemma_pow16_bounds(16);
                    assert(16 * (acc as int) + d < 16 * pow16(k as nat)) by (nonlinear_arith)
                        requires
                            acc < pow16(k as nat),
                            d < 16,
                    ;
                    assert(b@.skip(pos as int + k as int).skip(1) =~= b@.skip(
                        pos as int + k as int + 1,
                    ));
                }
                acc = acc * 16 + (d as u64);
            },
        }
        k = k + 1;
    }
    proof {
        assert(parse_hexnum_go(b@.skip(pos as int + w as int), 0, acc as int) == Some(
            (acc as int, b@.skip(pos as int + w as int)),
        ));
    }
    Some((acc, pos + w))
}

/// Parses a run of hexadecimal digit pairs, ending at the first character
/// that is not a hexadecimal digit; an odd-length run is an error.
pub open spec fn parse_hexrun(b: Seq<u8>) -> Option<(Seq<u8>, Seq<u8>)>
    decreases b.len(),
{
    if b.len() >= 2 && is_hex_digit(b[0]) && is_hex_digit(b[1]) {
        match parse_hexrun(b.skip(2)) {
            Some(t) => Some((seq![(hex_val(b[0]) * 16 + hex_val(b[1])) as u8] + t.0, t.1)),
            None => None,
        }
    } else if b.len() >= 1 && is_hex_digit(b[0]) {
        None
    } else {
        Some((Seq::empty(), b))
    }
}

/// Parsing a hexadecimal run inverts encoding, provided the rest does not
/// begin with a hexadecimal digit.
pub proof fn lemma_parse_hexrun(d: Seq<u8>, rest: Seq<u8>)
    requires
        rest.len() == 0 || !is_hex_digit(rest[0]),
    ensures
        parse_hexrun(hex_encode_spec(d) + rest) == Some((d, rest)),
    decreases d.len(),
{
    lemma_encode_chars(d);
    let s = hex_encode_spec(d) + rest;
    if d.len() == 0 {
        assert(s =~= rest);
    } else {
        assert(hex_encode_spec(d) == seq![
            crate::hexb::digit_of(d[0] / 16),
            crate::hexb::digit_of(d[0] % 16),
        ] + hex_encode_spec(d.skip(1)));
        lemma_digit_of_val(d[0] / 16);
        lemma_digit_of_val(d[0] % 16);
        assert(s[0] == crate::hexb::digit_of(d[0] / 16));
        assert(s[1] == crate::hexb::digit_of(d[0] % 16));
        assert(hex_val(s[0]) * 16 + hex_val(s[1]) == d[0]);
        assert(s.skip(2) =~= hex_encode_spec(d.skip(1)) + rest);
        lemma_parse_hexrun(d.skip(1), rest);
        assert(parse_hexrun(s) matches Some(t) && t.0 =~= d && t.1 == rest);
    }
}

/// Parses a run of hexadecimal digit pairs at `pos`.
#[verifier::loop_isolation(false)]
fn parse_hexrun_exec(b: &[u8], pos: usize) -> (r: Option<(Vec<u8>, usize)>)
    requires
        pos <= b@.len(),
    ensures
        match parse_hexrun(b@.skip(pos as int)) {
            Some(t) => r matches Some(p) && p.0@ == t.0 && pos <= p.1 <= b@.len() && b@.skip(
                p.1 as int,
            ) == t.1,
            None => r is None,
        },
{
    let mut out: Vec<u8> = Vec::new();
    let mut i: usize = pos;
    while i < b.len()
        invariant
            pos <= i <= b@.len(),
            parse_hexrun(b@.skip(pos as int)) == match parse_hexrun(b@.skip(i as int)) {
                Some(t) => Some((out@ + t.0, t.1)),
                None => None::<(Seq<u8>, Seq<u8>)>,
            },
        decreases b@.len() - i,
    {
        proof {
            assert(b@.skip(i as int)[0] == b@[i as int]);
        }
        let c0 = b[i];
        let h = hex_val_exec(c0);
        match h {
            None => {
                proof {
                    assert(parse_hexrun(b@.skip(i as int)) == Some(
                        (Seq::<u8>::empty(), b@.skip(i as int)),
                    ));
                    assert(out@ + Seq::<u8>::empty() =~= out@);
                }
                return Some((out, i));
            },
            Some(hv) => {
                if i + 1 >= b.len() {
                    return None;
                }
                proof {
                    assert(b@.skip(i as int)[1] == b@[i as int + 1]);
                }
                match hex_val_exec(b[i + 1]) {
                    None => {
                        return None;
                    },
                    Some(lv) => {
                        proof {
                            assert(hv <= 15 && lv <= 15);
                        }
                        let ghost out_old = out@;
                        out.push(hv * 16 + lv);
                        proof {
                            assert(b@.skip(i as int).skip(2) =~= b@.skip(i as int + 2));
                            match parse_hexrun(b@.skip(i as int + 2)) {
                                Some(t) => {
                                    assert(out_old + (seq![(hv * 16 + lv) as u8] + t.0) =~= out@
                                        + t.0);
                                },
                                None => {},
                            }
                        }
                        i = i + 2;
                    },
                }
            },
        }
    }
    proof {
        assert(b@.skip(i as int).len() == 0);
        assert(parse_hexrun(b@.skip(i as int)) == Some((Seq::<u8>::empty(), b@.skip(i as int))));
        assert(out@ + Seq::<u8>::empty() =~= out@);
    }
    Some((out, i))
}

/// Small powers of sixteen, for the field widths in use.
pub proof fn lemma_pow16_vals()
    ensures
        pow16(2) == 0x100,
        pow16(4) == 0x10000,
        pow16(8) == 0x100000000,
        pow16(16) == 0x10000000000000000,
{
    assert(pow16(0) == 1);
    assert(pow16(1) == 16);
    assert(pow16(2) == 0x100);
    assert(pow16(3) == 0x1000);
    assert(pow16(4) == 0x10000);
    assert(pow16(5) == 0x100000);
    assert(pow16(6) == 0x1000000);
    assert(pow16(7) == 0x10000000);
    assert(pow16(8) == 0x100000000);
    lemma_pow16_sixteen();
}

/// Renders a boolean.
pub open spec fn ser_bool(v: bool) -> Seq<u8> {
    if v {
        lit_bytes("true"@)
    } else {
        lit_bytes("false"@)
    }
}

/// Parses a boolean.
pub open spec fn parse_bool(b: Seq<u8>) -> Option<(bool, Seq<u8>)> {
    if b.len() >= 1 && b[0] == 't' as u8 {
        match parse_lit(b, lit_bytes("true"@)) {
            Some(rem) => Some((true, rem)),
            None => None,
        }
    } else {
        match parse_lit(b, lit_bytes("false"@)) {
            Some(rem) => Some((false, rem)),
            None => None,
        }
    }
}

/// Parsing inverts rendering for booleans.
pub proof fn lemma_rt_bool(v: bool, rest: Seq<u8>)
    ensures
        parse_bool(ser_bool(v) + rest) == Some((v, rest)),
{
    reveal_strlit("true");
    reveal_strlit("false");
    if v {
        assert((ser_bool(v) + rest)[0] == 't' as u8);
        lemma_parse_lit(lit_bytes("true"@), rest);
    } else {
        if (ser_bool(v) + rest).len() >= 1 {
            assert((ser_bool(v) + rest)[0] == 'f' as u8);
        }
        lemma_parse_lit(lit_bytes("false"@), rest);
    }
}

/// Appends a rendered boolean.
fn write_bool(out: &mut Vec<u8>, v: bool)
    ensures
        final(out)@ == old(out)@ + ser_bool(v),
{
    if v {
        proof {
            reveal_strlit("true");
        }
        write_lit(out, "true");
    } else {
        proof {
            reveal_strlit("false");
        }
        write_lit(out, "false");
    }
}

/// Parses a boolean at `pos`.
fn parse_bool_exec(b: &[u8], pos: usize) -> (r: Option<(bool, usize)>)
    requires
        pos <= b@.len(),
    ensures
        match parse_bool(b@.skip(pos as int)) {
            Some(t) => r matches Some(p) && p.0 == t.0 && pos <= p.1 <= b@.len() && b@.skip(
                p.1 as int,
            ) == t.1,
            None => r is None,
        },
{
    proof {
        reveal_strlit("true");
        reveal_strlit("false");
    }
    if pos < b.len() && b[pos] == 116 {
        proof {
            assert(b@.skip(pos as int)[0] == 't' as u8);
        }
        match expect_lit(b, pos, "true") {
            Some(np) => Some((true, np)),
            None => None,
        }
    } else {
        proof {
            if pos < b@.len() {
                assert(b@.skip(pos as int)[0] != 't' as u8);
            }
        }
        match expect_lit(b, pos, "false") {
            Some(np) => Some((false, np)),
            None => None,
        }
    }
}

/// Renders an optional number: `null`, or the quoted fixed-width
/// hexadecimal text of the value.
pub open spec fn ser_optnum(v: Option<u64>, w: nat) -> Seq<u8> {
    match v {
        None => lit_bytes("null"@),
        Some(x) => lit_bytes("\""@) + ser_hexnum(x as int, w) + lit_bytes("\""@),
    }
}

/// Parses an optional number.
pub open spec fn parse_optnum(b: Seq<u8>, w: nat) -> Option<(Option<u64>, Seq<u8>)> {
    if b.len() >= 1 && b[0] == 'n' as u8 {
        match parse_lit(b, lit_bytes("null"@)) {
            Some(rem) => Some((None, rem)),
            None => None,
        }
    } else {
        match parse_lit(b, lit_bytes("\""@)) {
            Some(r1) => match parse_hexnum(r1, w) {
                Some(t) => match parse_lit(t.1, lit_bytes("\""@)) {
                    Some(rem) => Some((Some(t.0 as u64), rem)),
                    None => None,
                },
                None => None,
            },
            None => None,
        }
    }
}

/// Parsing inverts rendering for optional numbers.
pub proof fn lemma_rt_optnum(v: Option<u64>, w: nat, rest: Seq<u8>)
    requires
        w <= 16,
        v matches Some(x) ==> x < pow16(w),
    ensures
        parse_optnum(ser_optnum(v, w) + rest, w) == Some((v, rest)),
{
    reveal_strlit("null");
    reveal_strlit("\"");
    match v {
        None => {
            assert((ser_optnum(v, w) + rest)[0] == 'n' as u8);
            lemma_parse_lit(lit_bytes("null"@), rest);
        },
        Some(x) => {
            let s = ser_optnum(v, w) + rest;
            assert(s[0] == '"' as u8);
            assert(s =~= lit_bytes("\""@) + (ser_hexnum(x as int, w) + (lit_bytes("\""@)
                + rest)));
            lemma_parse_lit(lit_bytes("\""@), ser_hexnum(x as int, w) + (lit_bytes("\""@) + rest));
            lemma_parse_ser_hexnum(x as int, w, lit_bytes("\""@) + rest);
            lemma_parse_lit(lit_bytes("\""@), rest);
        },
    }
}

/// Appends a rendered optional number.
fn write_optnum(out: &mut Vec<u8>, v: Option<u64>, w: usize)
    requires
        w <= 16,
        v matches Some(x) ==> x < pow16(w as nat),
    ensures
        final(out)@ == old(out)@ + ser_optnum(v, w as nat),
{
    proof {
        reveal_strlit("null");
        reveal_strlit("\"");
    }
    match v {
        None => write_lit(out, "null"),
        Some(x) => {
            write_lit(out, "\"");
            write_hexnum(out, x, w);
            write_lit(out, "\"");
            proof {
                assert(out@ =~= old(out)@ + ser_optnum(v, w as nat));
            }
        },
    }
}

/// Parses an optional number at `pos`.
fn parse_optnum_exec(b: &[u8], pos: usize, w: usize) -> (r: Option<(Option<u64>, usize)>)
    requires
        pos <= b@.len(),
        w <= 16,
    ensures
        match parse_optnum(b@.skip(pos as int), w as nat) {
            Some(t) => r matches Some(p) && p.0 == t.0 && pos <= p.1 <= b@.len() && b@.skip(
                p.1 as int,
            ) == t.1,
            None => r is None,
        },
{
    proof {
        reveal_strlit("null");
        reveal_strlit("\"");
    }
    if pos < b.len() && b[pos] == 110 {
        proof {
            assert(b@.skip(pos as int)[0] == 'n' as u8);
        }
        match expect_lit(b, pos, "null") {
            Some(np) => Some((None, np)),
            None => None,
        }
    } else {
        proof {
            if pos < b@.len() {
                assert(b@.skip(pos as int)[0] != 'n' as u8);
            }
        }
        let p1 = match expect_lit(b, pos, "\"") {
            Some(np) => np,
            None => {
                return None;
            },
        };
        let (x, p2) = match parse_hexnum_exec(b, p1, w) {
            Some(t) => t,
            None => {
                return None;
            },
        };
        match expect_lit(b, p2, "\"") {
            Some(np) => Some((Some(x), np)),
            None => None,
        }
    }
}

/// Renders an optional byte string: `null`, or its quoted hexadecimal
/// text.
pub open spec fn ser_opthex(v: Option<Seq<u8>>) -> Seq<u8> {
    match v {
        None => lit_bytes("null"@),
        Some(d) => lit_bytes("\""@) + hex_encode_spec(d) + lit_bytes("\""@),
    }
}

/// Parses an optional byte string.
pub open spec fn parse_opthex(b: Seq<u8>) -> Option<(Option<Seq<u8>>, Seq<u8>)> {
    if b.len() >= 1 && b[0] == 'n' as u8 {
        match parse_lit(b, lit_bytes("null"@)) {
            Some(rem) => Some((None, rem)),
            None => None,
        }
    } else {
        match parse_lit(b, lit_bytes("\""@)) {
            Some(r1) => match parse_hexrun(r1) {
                Some(t) => match parse_lit(t.1, lit_bytes("\""@)) {
                    Some(rem) => Some((Some(t.0), rem)),
                    None => None,
                },
                None => None,
            },
            None => None,
        }
    }
}

/// Parsing inverts rendering for optional byte strings.
pub proof fn lemma_rt_opthex(v: Option<Seq<u8>>, rest: Seq<u8>)
    ensures
        parse_opthex(ser_opthex(v) + rest) == Some((v, rest)),
{
    reveal_strlit("null");
    reveal_strlit("\"");
    match v {
        None => {
            assert((ser_opthex(v) + rest)[0] == 'n' as u8);
            lemma_parse_lit(lit_bytes("null"@), rest);
        },
        Some(d) => {
            let s = ser_opthex(v) + rest;
            assert(s[0] == '"' as u8);
            assert(s =~= lit_bytes("\""@) + (hex_encode_spec(d) + (lit_bytes("\""@) + rest)));
            lemma_parse_lit(lit_bytes("\""@), hex_encode_spec(d) + (lit_bytes("\""@) + rest));
            assert((lit_bytes("\""@) + rest)[0] == '"' as u8);
            assert(!is_hex_digit('"' as u8));
            lemma_parse_hexrun(d, lit_bytes("\""@) + rest);
            lemma_parse_lit(lit_bytes("\""@), rest);
        },
    }
}

/// Appends a rendered optional byte string.
fn write_opthex(out: &mut Vec<u8>, v: &Option<Vec<u8>>)
    ensures
        final(out)@ == old(out)@ + ser_opthex(
            match v {
                Some(d) => Some(d@),
                None => None,
            },
        ),
{
    proof {
        reveal_strlit("null");
        reveal_strlit("\"");
    }
    match v {
        None => write_lit(out, "null"),
        Some(d) => {
            write_lit(out, "\"");
            hex_encode_push(out, d.as_slice());
            write_lit(out, "\"");
            proof {
                assert(out@ =~= old(out)@ + ser_opthex(Some(d@)));
            }
        },
    }
}

/// Parses an optional byte string at `pos`.
fn parse_opthex_exec(b: &[u8], pos: usize) -> (r: Option<(Option<Vec<u8>>, usize)>)
    requires
        pos <= b@.len(),
    ensures
        match parse_opthex(b@.skip(pos as int)) {
            Some(t) => r matches Some(p) && (match p.0 {
                Some(d) => t.0 matches Some(td) && d@ == td,
                None => t.0 is None,
            }) && pos <= p.1 <= b@.len() && b@.skip(p.1 as int) == t.1,
            None => r is None,
        },
{
    proof {
        reveal_strlit("null");
        reveal_strlit("\"");
    }
    if pos < b.len() && b[pos] == 110 {
        proof {
            assert(b@.skip(pos as int)[0] == 'n' as u8);
        }
        match expect_lit(b, pos, "null") {
            Some(np) => Some((None, np)),
            None => None,
        }
    } else {
        proof {
            if pos < b@.len() {
                assert(b@.skip(pos as int)[0] != 'n' as u8);
            }
        }
        let p1 = match expect_lit(b, pos, "\"") {
            Some(np) => np,
            None => {
                return None;
            },
        };
        let (d, p2) = match parse_hexrun_exec(b, p1) {
            Some(t) => t,
            None => {
                return None;
            },
        };
        match expect_lit(b, p2, "\"") {
            Some(np) => Some((Some(d), np)),
            None => None,
        }
    }
}

/// Renders a consumed-output entry.
pub open spec fn ser_utxo(u: UtxoEntryV) -> Seq<u8> {
    lit_bytes("{\"amount\":\""@) + ser_hexnum(u.amount as int, 16) + lit_bytes(
        "\",\"scriptVersion\":\""@,
    ) + ser_hexnum(u.script_public_key.version as int, 4) + lit_bytes("\",\"script\":\""@)
        + hex_encode_spec(u.script_public_key.script) + lit_bytes("\",\"blockDaaScore\":\""@)
        + ser_hexnum(u.block_daa_score as int, 16) + lit_bytes("\",\"isCoinbase\":"@) + ser_bool(
        u.is_coinbase,
    ) + lit_bytes("}"@)
}

/// Parses a consumed-output entry.
pub open spec fn parse_utxo(b: Seq<u8>) -> Option<(UtxoEntryV, Seq<u8>)> {
    match parse_lit(b, lit_bytes("{\"amount\":\""@)) {
        Some(r1) => match parse_hexnum(r1, 16) {
            Some(t1) => match parse_lit(t1.1, lit_bytes("\",\"scriptVersion\":\""@)) {
                Some(r2) => match parse_hexnum(r2, 4) {
                    Some(t2) => match parse_lit(t2.1, lit_bytes("\",\"script\":\""@)) {
                        Some(r3) => match parse_hexrun(r3) {
                            Some(t3) => match parse_lit(
                                t3.1,
                                lit_bytes("\",\"blockDaaScore\":\""@),
                            ) {
                                Some(r4) => match parse_hexnum(r4, 16) {
                                    Some(t4) => match parse_lit(
                                        t4.1,
                                        lit_bytes("\",\"isCoinbase\":"@),
                                    ) {
                                        Some(r5) => match parse_bool(r5) {
                                            Some(t5) => match parse_lit(t5.1, lit_bytes("}"@)) {
                                                Some(rem) => Some(
                                                    (
                                                        UtxoEntryV {
                                                            amount: t1.0 as u64,
                                                            script_public_key:
                                                                crate::model::ScriptPublicKeyV {
                                                                version: t2.0 as u16,
                                                                script: t3.0,
                                                            },
                                                            block_daa_score: t4.0 as u64,
                                                            is_coinbase: t5.0,
                                                        },
                                                        rem,
                                                    ),
                                                ),
                                                None => None,
                                            },
                                            None => None,
                                        },
                                        None => None,
                                    },
                                    None => None,
                                },
                                None => None,
                            },
                            None => None,
                        },
                        None => None,
                    },
                    None => None,
                },
                None => None,
            },
            None => None,
        },
        None => None,
    }
}

/// Parsing inverts rendering for consumed-output entries.
pub proof fn lemma_rt_utxo(u: UtxoEntryV, rest: Seq<u8>)
    ensures
        parse_utxo(ser_utxo(u) + rest) == Some((u, rest)),
{
    reveal_strlit("{\"amount\":\"");
    reveal_strlit("\",\"scriptVersion\":\"");
    reveal_strlit("\",\"script\":\"");
    reveal_strlit("\",\"blockDaaScore\":\"");
    reveal_strlit("\",\"isCoinbase\":");
    reveal_strlit("}");
    lemma_pow16_vals();
    let l1 = lit_bytes("{\"amount\":\""@);
    let l2 = lit_bytes("\",\"scriptVersion\":\""@);
    let l3 = lit_bytes("\",\"script\":\""@);
    let l4 = lit_bytes("\",\"blockDaaScore\":\""@);
    let l5 = lit_bytes("\",\"isCoinbase\":"@);
    let l6 = lit_bytes("}"@);
    let t6 = l6 + rest;
    let t5 = ser_bool(u.is_coinbase) + t6;
    let t4 = l5 + t5;
    let t3 = ser_hexnum(u.block_daa_score as int, 16) + t4;
    let t2 = l4 + t3;
    let t1 = hex_encode_spec(u.script_public_key.script) + t2;
    let s4 = l3 + t1;
    let s3 = ser_hexnum(u.script_public_key.version as int, 4) + s4;
    let s2 = l2 + s3;
    let s1 = ser_hexnum(u.amount as int, 16) + s2;
    assert(ser_utxo(u) + rest =~= l1 + s1);
    lemma_parse_lit(l1, s1);
    lemma_parse_ser_hexnum(u.amount as int, 16, s2);
    lemma_parse_lit(l2, s3);
    lemma_parse_ser_hexnum(u.script_public_key.version as int, 4, s4);
    lemma_parse_lit(l3, t1);
    assert(t2[0] == '"' as u8);
    assert(!is_hex_digit('"' as u8));
    lemma_parse_hexrun(u.script_public_key.script, t2);
    lemma_parse_lit(l4, t3);
    lemma_parse_ser_hexnum(u.block_daa_score as int, 16, t4);
    lemma_parse_lit(l5, t5);
    lemma_rt_bool(u.is_coinbase, t6);
    lemma_parse_lit(l6, rest);
    assert(parse_utxo(ser_utxo(u) + rest) matches Some(t) && t.0 =~= u && t.1 == rest);
}

/// Appends a rendered consumed-output entry.
fn write_utxo(out: &mut Vec<u8>, u: &UtxoEntry)
    ensures
        final(out)@ == old(out)@ + ser_utxo(u@),
{
    proof {
        reveal_strlit("{\"amount\":\"");
        reveal_strlit("\",\"scriptVersion\":\"");
        reveal_strlit("\",\"script\":\"");
        reveal_strlit("\",\"blockDaaScore\":\"");
        reveal_strlit("\",\"isCoinbase\":");
        reveal_strlit("}");
        lemma_pow16_vals();
    }
    write_lit(out, "{\"amount\":\"");
    write_hexnum(out, u.amount, 16);
    write_lit(out, "\",\"scriptVersion\":\"");
    write_hexnum(out, u.script_public_key.version as u64, 4);
    write_lit(out, "\",\"script\":\"");
    hex_encode_push(out, u.script_public_key.script.as_slice());
    write_lit(out, "\",\"blockDaaScore\":\"");
    write_hexnum(out, u.block_daa_score, 16);
    write_lit(out, "\",\"isCoinbase\":");
    write_bool(out, u.is_coinbase);
    write_lit(out, "}");
    proof {
        assert(out@ =~= old(out)@ + ser_utxo(u@));
    }
}

/// Parses a consumed-output entry at `pos`.
fn parse_utxo_exec(b: &[u8], pos: usize) -> (r: Option<(UtxoEntry, usize)>)
    requires
        pos <= b@.len(),
    ensures
        match parse_utxo(b@.skip(pos as int)) {
            Some(t) => r matches Some(p) && p.0@ == t.0 && pos <= p.1 <= b@.len() && b@.skip(
                p.1 as int,
            ) == t.1,
            None => r is None,
        },
{
    proof {
        reveal_strlit("{\"amount\":\"");
        reveal_strlit("\",\"scriptVersion\":\"");
        reveal_strlit("\",\"script\":\"");
        reveal_strlit("\",\"blockDaaScore\":\"");
        reveal_strlit("\",\"isCoinbase\":");
        reveal_strlit("}");
    }
    let p1 = match expect_lit(b, pos, "{\"amount\":\"") {
        Some(np) => np,
        None => {
            return None;
        },
    };
    let (amount, p2) = match parse_hexnum_exec(b, p1, 16) {
        Some(t) => t,
        None => {
            return None;
        },
    };
    let p3 = match expect_lit(b, p2, "\",\"scriptVersion\":\"") {
        Some(np) => np,
        None => {
            return None;
        },
    };
    let (sv, p4) = match parse_hexnum_exec(b, p3, 4) {
        Some(t) => t,
        None => {
            return None;
        },
    };
    let p5 = match expect_lit(b, p4, "\",\"script\":\"") {
        Some(np) => np,
        None => {
            return None;
        },
    };
    let (script, p6) = match parse_hexrun_exec(b, p5) {
        Some(t) => t,
        None => {
            return None;
        },
    };
    let p7 = match expect_lit(b, p6, "\",\"blockDaaScore\":\"") {
        Some(np) => np,
        None => {
            return None;
        },
    };
    let (daa, p8) = match parse_hexnum_exec(b, p7, 16) {
        Some(t) => t,
        None => {
            return None;
        },
    };
    let p9 = match expect_lit(b, p8, "\",\"isCoinbase\":") {
        Some(np) => np,
        None => {
            return None;
        },
    };
    let (coinbase, p10) = match parse_bool_exec(b, p9) {
        Some(t) => t,
        None => {
            return None;
        },
    };
    let p11 = match expect_lit(b, p10, "}") {
        Some(np) => np,
        None => {
            return None;
        },
    };
    let u = UtxoEntry {
        amount,
        script_public_key: ScriptPublicKey { version: sv as u16, script },
        block_daa_score: daa,
        is_coinbase: coinbase,
    };
    proof {
        assert(u@ =~~= parse_utxo(b@.skip(pos as int)).unwrap().0);
    }
    Some((u, p11))
}

/// Renders an output slot.
pub open spec fn ser_output(o: OutputSlotV) -> Seq<u8> {
    lit_bytes("{\"value\":\""@) + ser_hexnum(o.value as int, 16) + lit_bytes(
        "\",\"scriptVersion\":\""@,
    ) + ser_hexnum(o.script_public_key.version as int, 4) + lit_bytes("\",\"script\":\""@)
        + hex_encode_spec(o.script_public_key.script) + lit_bytes("\"}"@)
}

/// Parses an output slot.
pub open spec fn parse_output(b: Seq<u8>) -> Option<(OutputSlotV, Seq<u8>)> {
    match parse_lit(b, lit_bytes("{\"value\":\""@)) {
        Some(r1) => match parse_hexnum(r1, 16) {
            Some(t1) => match parse_lit(t1.1, lit_bytes("\",\"scriptVersion\":\""@)) {
                Some(r2) => match parse_hexnum(r2, 4) {
                    Some(t2) => match parse_lit(t2.1, lit_bytes("\",\"script\":\""@)) {
                        Some(r3) => match parse_hexrun(r3) {
                            Some(t3) => match parse_lit(t3.1, lit_bytes("\"}"@)) {
                                Some(rem) => Some(
                                    (
                                        OutputSlotV {
                                            value: t1.0 as u64,
                                            script_public_key: crate::model::ScriptPublicKeyV {
                                                version: t2.0 as u16,
                                                script: t3.0,
                                            },
                                        },
                                        rem,
                                    ),
                                ),
                                None => None,
                            },
                            None => None,
                        },
                        None => None,
                    },
                    None => None,
                },
                None => None,
            },
            None => None,
        },
        None => None,
    }
}

/// Parsing inverts rendering for output slots.
pub proof fn lemma_rt_output(o: OutputSlotV, rest: Seq<u8>)
    ensures
        parse_output(ser_output(o) + rest) == Some((o, rest)),
{
    reveal_strlit("{\"value\":\"");
    reveal_strlit("\",\"scriptVersion\":\"");
    reveal_strlit("\",\"script\":\"");
    reveal_strlit("\"}");
    lemma_pow16_vals();
    let l1 = lit_bytes("{\"value\":\""@);
    let l2 = lit_bytes("\",\"scriptVersion\":\""@);
    let l3 = lit_bytes("\",\"script\":\""@);
    let l4 = lit_bytes("\"}"@);
    let t4 = l4 + rest;
    let t3 = hex_encode_spec(o.script_public_key.script) + t4;
    let t2 = l3 + t3;
    let t1 = ser_hexnum(o.script_public_key.version as int, 4) + t2;
    let s2 = l2 + t1;
    let s1 = ser_hexnum(o.value as int, 16) + s2;
    assert(ser_output(o) + rest =~= l1 + s1);
    lemma_parse_lit(l1, s1);
    lemma_parse_ser_hexnum(o.value as int, 16, s2);
    lemma_parse_lit(l2, t1);
    lemma_parse_ser_hexnum(o.script_public_key.version as int, 4, t2);
    lemma_parse_lit(l3, t3);
    assert(t4[0] == '"' as u8);
    assert(!is_hex_digit('"' as u8));
    lemma_parse_hexrun(o.script_public_key.script, t4);
    lemma_parse_lit(l4, rest);
    assert(parse_output(ser_output(o) + rest) matches Some(t) && t.0 =~= o && t.1 == rest);
}

/// Appends a rendered output slot.
fn write_output(out: &mut Vec<u8>, o: &OutputSlot)
    ensures
        final(out)@ == old(out)@ + ser_output(o@),
{
    proof {
        reveal_strlit("{\"value\":\"");
        reveal_strlit("\",\"scriptVersion\":\"");
        reveal_strlit("\",\"script\":\"");
        reveal_strlit("\"}");
        lemma_pow16_vals();
    }
    write_lit(out, "{\"value\":\"");
    write_hexnum(out, o.value, 16);
    write_lit(out, "\",\"scriptVersion\":\"");
    write_hexnum(out, o.script_public_key.version as u64, 4);
    write_lit(out, "\",\"script\":\"");
    hex_encode_push(out, o.script_public_key.script.as_slice());
    write_lit(out, "\"}");
    proof {
        assert(out@ =~= old(out)@ + ser_output(o@));
    }
}

/// Parses an output slot at `pos`.
fn parse_output_exec(b: &[u8], pos: usize) -> (r: Option<(OutputSlot, usize)>)
    requires
        pos <= b@.len(),
    ensures
        match parse_output(b@.skip(pos as int)) {
            Some(t) => r matches Some(p) && p.0@ == t.0 && pos <= p.1 <= b@.len() && b@.skip(
                p.1 as int,
            ) == t.1,
            None => r is None,
        },
{
    proof {
        reveal_strlit("{\"value\":\"");
        reveal_strlit("\",\"scriptVersion\":\"");
        reveal_strlit("\",\"script\":\"");
        reveal_strlit("\"}");
    }
    let p1 = match expect_lit(b, pos, "{\"value\":\"") {
        Some(np) => np,
        None => {
            return None;
        },
    };
    let (value, p2) = match parse_hexnum_exec(b, p1, 16) {
        Some(t) => t,
        None => {
            return None;
        },
    };
    let p3 = match expect_lit(b, p2, "\",\"scriptVersion\":\"") {
        Some(np) => np,
        None => {
            return None;
        },
    };
    let (sv, p4) = match parse_hexnum_exec(b, p3, 4) {
        Some(t) => t,
        None => {
            return None;
        },
    };
    let p5 = match expect_lit(b, p4, "\",\"script\":\"") {
        Some(np) => np,
        None => {
            return None;
        },
    };
    let (script, p6) = match parse_hexrun_exec(b, p5) {
        Some(t) => t,
        None => {
            return None;
        },
    };
    let p7 = match expect_lit(b, p6, "\"}") {
        Some(np) => np,
        None => {
            return None;
        },
    };
    let o = OutputSlot { value, script_public_key: ScriptPublicKey { version: sv as u16, script } };
    proof {
        assert(o@ =~~= parse_output(b@.skip(pos as int)).unwrap().0);
    }
    Some((o, p7))
}

/// Renders one partial signature.
pub open spec fn ser_pair(p: PartialSigV) -> Seq<u8> {
    lit_bytes("{\"pubKey\":\""@) + hex_encode_spec(p.pubkey) + lit_bytes("\",\"signature\":\""@)
        + hex_encode_spec(p.signature) + lit_bytes("\"}"@)
}

/// Parses one partial signature.
pub open spec fn parse_pair(b: Seq<u8>) -> Option<(PartialSigV, Seq<u8>)> {
    match parse_lit(b, lit_bytes("{\"pubKey\":\""@)) {
        Some(r1) => match parse_hexrun(r1) {
            Some(t1) => match parse_lit(t1.1, lit_bytes("\",\"signature\":\""@)) {
                Some(r2) => match parse_hexrun(r2) {
                    Some(t2) => match parse_lit(t2.1, lit_bytes("\"}"@)) {
                        Some(rem) => Some((PartialSigV { pubkey: t1.0, signature: t2.0 }, rem)),
                        None => None,
                    },
                    None => None,
                },
                None => None,
            },
            None => None,
        },
        None => None,
    }
}

/// Parsing inverts rendering for partial signatures.
pub proof fn lemma_rt_pair(p: PartialSigV, rest: Seq<u8>)
    ensures
        parse_pair(ser_pair(p) + rest) == Some((p, rest)),
{
    reveal_strlit("{\"pubKey\":\"");
    reveal_strlit("\",\"signature\":\"");
    reveal_strlit("\"}");
    let l1 = lit_bytes("{\"pubKey\":\""@);
    let l2 = lit_bytes("\",\"signature\":\""@);
    let l3 = lit_bytes("\"}"@);
    let t3 = l3 + rest;
    let t2 = hex_encode_spec(p.signature) + t3;
    let t1 = l2 + t2;
    let s1 = hex_encode_spec(p.pubkey) + t1;
    assert(ser_pair(p) + rest =~= l1 + s1);
    lemma_parse_lit(l1, s1);
    assert(t1[0] == '"' as u8);
    assert(!is_hex_digit('"' as u8));
    lemma_parse_hexrun(p.pubkey, t1);
    lemma_parse_lit(l2, t2);
    assert(t3[0] == '"' as u8);
    lemma_parse_hexrun(p.signature, t3);
    lemma_parse_lit(l3, rest);
    assert(parse_pair(ser_pair(p) + rest) matches Some(t) && t.0 =~= p && t.1 == rest);
}

/// Appends one rendered partial signature.
fn write_pair(out: &mut Vec<u8>, p: &PartialSig)
    ensures
        final(out)@ == old(out)@ + ser_pair(p@),
{
    proof {
        reveal_strlit("{\"pubKey\":\"");
        reveal_strlit("\",\"signature\":\"");
        reveal_strlit("\"}");
    }
    write_lit(out, "{\"pubKey\":\"");
    hex_encode_push(out, p.pubkey.as_slice());
    write_lit(out, "\",\"signature\":\"");
    hex_encode_push(out, p.signature.as_slice());
    write_lit(out, "\"}");
    proof {
        assert(out@ =~= old(out)@ + ser_pair(p@));
    }
}

/// Parses one partial signature at `pos`.
fn parse_pair_exec(b: &[u8], pos: usize) -> (r: Option<(PartialSig, usize)>)
    requires
        pos <= b@.len(),
    ensures
        match parse_pair(b@.skip(pos as int)) {
            Some(t) => r matches Some(p) && p.0@ == t.0 && pos <= p.1 <= b@.len() && b@.skip(
                p.1 as int,
            ) == t.1,
            None => r is None,
        },
{
    proof {
        reveal_strlit("{\"pubKey\":\"");
        reveal_strlit("\",\"signature\":\"");
        reveal_strlit("\"}");
    }
    let p1 = match expect_lit(b, pos, "{\"pubKey\":\"") {
        Some(np) => np,
        None => {
            return None;
        },
    };
    let (pubkey, p2) = match parse_hexrun_exec(b, p1) {
        Some(t) => t,
        None => {
            return None;
        },
    };
    let p3 = match expect_lit(b, p2, "\",\"signature\":\"") {
        Some(np) => np,
        None => {
            return None;
        },
    };
    let (signature, p4) = match parse_hexrun_exec(b, p3) {
        Some(t) => t,
        None => {
            return None;
        },
    };
    let p5 = match expect_lit(b, p4, "\"}") {
        Some(np) => np,
        None => {
            return None;
        },
    };
    let ps = PartialSig { pubkey, signature };
    proof {
        assert(ps@ =~~= parse_pair(b@.skip(pos as int)).unwrap().0);
    }
    Some((ps, p5))
}

/// The views of a vector of partial signatures.
pub open spec fn views_of_pairs(v: Seq<PartialSig>) -> Seq<PartialSigV> {
    Seq::new(v.len(), |i: int| v[i]@)
}

/// Renders the comma-separated items of a partial-signature list.
pub open spec fn ser_pairs_items(xs: Seq<PartialSigV>) -> Seq<u8>
    decreases xs.len(),
{
    if xs.len() == 0 {
        Seq::empty()
    } else if xs.len() == 1 {
        ser_pair(xs[0])
    } else {
        ser_pair(xs[0]) + lit_bytes(","@) + ser_pairs_items(xs.skip(1))
    }
}

/// Renders a partial-signature list.
pub open spec fn ser_pairs(xs: Seq<PartialSigV>) -> Seq<u8> {
    lit_bytes("["@) + ser_pairs_items(xs) + lit_bytes("]"@)
}

/// Parses the non-empty items of a partial-signature list, up to and
/// including the closing bracket.
pub open spec fn parse_pairs_items(b: Seq<u8>) -> Option<(Seq<PartialSigV>, Seq<u8>)>
    decreases b.len(),
{
    match parse_pair(b) {
        None => None,
        Some(t) => if t.1.len() >= 1 && t.1[0] == ',' as u8 {
            if t.1.skip(1).len() < b.len() {
                match parse_pairs_items(t.1.skip(1)) {
                    Some(t2) => Some((seq![t.0] + t2.0, t2.1)),
                    None => None,
                }
            } else {
                None
            }
        } else {
            match parse_lit(t.1, lit_bytes("]"@)) {
                Some(rem) => Some((seq![t.0], rem)),
                None => None,
            }
        },
    }
}

/// Parses a partial-signature list.
pub open spec fn parse_pairs(b: Seq<u8>) -> Option<(Seq<PartialSigV>, Seq<u8>)> {
    match parse_lit(b, lit_bytes("["@)) {
        None => None,
        Some(r1) => if r1.len() >= 1 && r1[0] == ']' as u8 {
            Some((Seq::empty(), r1.skip(1)))
        } else {
            parse_pairs_items(r1)
        },
    }
}

/// Parsing inverts rendering for the items of a non-empty list.
proof fn lemma_rt_pairs_items(xs: Seq<PartialSigV>, rest: Seq<u8>)
    requires
        xs.len() >= 1,
    ensures
        parse_pairs_items(ser_pairs_items(xs) + (lit_bytes("]"@) + rest)) == Some((xs, rest)),
    decreases xs.len(),
{
    reveal_strlit("{\"pubKey\":\"");
    reveal_strlit(",");
    reveal_strlit("]");
    let lb = lit_bytes("]"@);
    if xs.len() == 1 {
        let s = ser_pairs_items(xs) + (lb + rest);
        assert(s =~= ser_pair(xs[0]) + (lb + rest));
        lemma_rt_pair(xs[0], lb + rest);
        assert((lb + rest)[0] == ']' as u8);
        lemma_parse_lit(lb, rest);
        assert(parse_pairs_items(s) matches Some(t) && t.0 =~= xs && t.1 == rest);
    } else {
        let tail = ser_pairs_items(xs.skip(1)) + (lb + rest);
        let s = ser_pairs_items(xs) + (lb + rest);
        assert(s =~= ser_pair(xs[0]) + (lit_bytes(","@) + tail));
        lemma_rt_pair(xs[0], lit_bytes(","@) + tail);
        assert((lit_bytes(","@) + tail)[0] == ',' as u8);
        assert((lit_bytes(","@) + tail).skip(1) =~= tail);
        assert(ser_pair(xs[0]).len() >= 1) by {
            assert(ser_pair(xs[0])[0] == '{' as u8);
        }
        lemma_rt_pairs_items(xs.skip(1), rest);
        assert(parse_pairs_items(s) matches Some(t) && t.0 =~= xs && t.1 == rest);
    }
}

/// Parsing inverts rendering for partial-signature lists.
pub proof fn lemma_rt_pairs(xs: Seq<PartialSigV>, rest: Seq<u8>)
    ensures
        parse_pairs(ser_pairs(xs) + rest) == Some((xs, rest)),
{
    reveal_strlit("[");
    reveal_strlit("]");
    reveal_strlit("{\"pubKey\":\"");
    let s = ser_pairs(xs) + rest;
    let inner = ser_pairs_items(xs) + (lit_bytes("]"@) + rest);
    assert(s =~= lit_bytes("["@) + inner);
    lemma_parse_lit(lit_bytes("["@), inner);
    if xs.len() == 0 {
        assert(inner =~= lit_bytes("]"@) + rest);
        assert(inner[0] == ']' as u8);
        assert(inner.skip(1) =~= rest);
        assert(parse_pairs(s) matches Some(t) && t.0 =~= xs && t.1 == rest);
    } else {
        assert(inner[0] == '{' as u8) by {
            assert(ser_pairs_items(xs)[0] == ser_pair(xs[0])[0]);
        }
        lemma_rt_pairs_items(xs, rest);
    }
}

/// A non-empty list has one fewer separator than items.
proof fn lemma_ser_pairs_items_snoc(xs: Seq<PartialSigV>, x: PartialSigV)
    requires
        xs.len() >= 1,
    ensures
        ser_pairs_items(xs.push(x)) == ser_pairs_items(xs) + lit_bytes(","@) + ser_pair(x),
    decreases xs.len(),
{
    if xs.len() == 1 {
        assert(xs.push(x)[0] == xs[0]);
        assert(xs.push(x).skip(1) =~= seq![x]);
        assert(ser_pairs_items(seq![x]) == ser_pair(x));
        assert(ser_pairs_items(xs.push(x)) =~= ser_pairs_items(xs) + lit_bytes(","@) + ser_pair(
            x,
        ));
    } else {
        assert(xs.push(x)[0] == xs[0]);
        assert(xs.push(x).skip(1) =~= xs.skip(1).push(x));
        lemma_ser_pairs_items_snoc(xs.skip(1), x);
        assert(ser_pairs_items(xs.push(x)) =~= ser_pairs_items(xs) + lit_bytes(","@) + ser_pair(
            x,
        ));
    }
}

/// Appends a rendered partial-signature list.
#[verifier::loop_isolation(false)]
fn write_pairs(out: &mut Vec<u8>, xs: &Vec<PartialSig>)
    ensures
        final(out)@ == old(out)@ + ser_pairs(views_of_pairs(xs@)),
{
    proof {
        reveal_strlit("[");
        reveal_strlit("]");
        reveal_strlit(",");
    }
    write_lit(out, "[");
    let mut i: usize = 0;
    while i < xs.len()
        invariant
            i <= xs@.len(),
            out@ == old(out)@ + lit_bytes("["@) + ser_pairs_items(
                views_of_pairs(xs@).take(i as int),
            ),
        decreases xs@.len() - i,
    {
        if i > 0 {
            write_lit(out, ",");
        }
        write_pair(out, &xs[i]);
        proof {
            let vs = views_of_pairs(xs@);
            if i == 0 {
                assert(vs.take(1) =~= seq![vs[0]]);
                assert(ser_pairs_items(vs.take(1)) == ser_pair(vs[0]));
                assert(out@ =~= old(out)@ + lit_bytes("["@) + ser_pairs_items(vs.take(1)));
            } else {
                assert(vs.take(i as int + 1) =~= vs.take(i as int).push(vs[i as int]));
                lemma_ser_pairs_items_snoc(vs.take(i as int), vs[i as int]);
                assert(out@ =~= old(out)@ + lit_bytes("["@) + ser_pairs_items(
                    vs.take(i as int + 1),
                ));
            }
        }
        i = i + 1;
    }
    write_lit(out, "]");
    proof {
        assert(views_of_pairs(xs@).take(i as int) =~= views_of_pairs(xs@));
        assert(out@ =~= old(out)@ + ser_pairs(views_of_pairs(xs@)));
    }
}

/// Parses a partial-signature list at `pos`.
#[verifier::loop_isolation(false)]
fn parse_pairs_exec(b: &[u8], pos: usize) -> (r: Option<(Vec<PartialSig>, usize)>)
    requires
        pos <= b@.len(),
    ensures
        match parse_pairs(b@.skip(pos as int)) {
            Some(t) => r matches Some(p) && views_of_pairs(p.0@) == t.0 && pos <= p.1 <= b@.len()
                && b@.skip(p.1 as int) == t.1,
            None => r is None,
        },
{
    proof {
        reveal_strlit("[");
        reveal_strlit("]");
    }
    let start = match expect_lit(b, pos, "[") {
        Some(np) => np,
        None => {
            return None;
        },
    };
    if start < b.len() && b[start] == 93 {
        proof {
            assert(b@.skip(start as int)[0] == ']' as u8);
            assert(b@.skip(start as int).skip(1) =~= b@.skip(start as int + 1));
            assert(views_of_pairs(Seq::<PartialSig>::empty()) =~= Seq::<PartialSigV>::empty());
        }
        let out: Vec<PartialSig> = Vec::new();
        proof {
            assert(views_of_pairs(out@) =~= Seq::<PartialSigV>::empty());
        }
        return Some((out, start + 1));
    }
    proof {
        if start < b@.len() {
            assert(b@.skip(start as int)[0] != ']' as u8);
        }
    }
    let mut out: Vec<PartialSig> = Vec::new();
    let mut cur: usize = start;
    loop
        invariant
            pos <= start <= cur <= b@.len(),
            parse_pairs_items(b@.skip(start as int)) == match parse_pairs_items(
                b@.skip(cur as int),
            ) {
                Some(t) => Some((views_of_pairs(out@) + t.0, t.1)),
                None => None::<(Seq<PartialSigV>, Seq<u8>)>,
            },
            parse_pairs(b@.skip(pos as int)) == parse_pairs_items(b@.skip(start as int)),
        decreases b@.len() - cur,
    {
        let (e, p) = match parse_pair_exec(b, cur) {
            Some(t) => t,
            None => {
                return None;
            },
        };
        let ghost out_old = out@;
        out.push(e);
        if p < b.len() && b[p] == 44 {
            proof {
                assert(b@.skip(p as int)[0] == ',' as u8);
                assert(b@.skip(p as int).skip(1) =~= b@.skip(p as int + 1));
                match parse_pairs_items(b@.skip(p as int + 1)) {
                    Some(t2) => {
                        assert(views_of_pairs(out_old) + (seq![e@] + t2.0) =~= views_of_pairs(out@)
                            + t2.0);
                    },
                    None => {},
                }
            }
            cur = p + 1;
        } else if p < b.len() && b[p] == 93 {
            proof {
                assert(b@.skip(p as int)[0] == ']' as u8);
                assert(b@.skip(p as int)[0] != ',' as u8);
                assert(b@.skip(p as int).take(1) =~= lit_bytes("]"@));
                assert(b@.skip(p as int).skip(1) =~= b@.skip(p as int + 1));
                assert(views_of_pairs(out_old) + seq![e@] =~= views_of_pairs(out@));
            }
            return Some((out, p + 1));
        } else {
            proof {
                if p < b@.len() {
                    assert(b@.skip(p as int)[0] != ',' as u8);
                    assert(b@.skip(p as int).take(1) != lit_bytes("]"@)) by {
                        assert(b@.skip(p as int).take(1)[0] != ']' as u8);
                    }
                } else {
                    assert(b@.skip(p as int).len() == 0);
                }
            }
            return None;
        }
    }
}


/// Renders the identifying half of an input slot: outpoint, sequence,
/// sig-op count and sighash type.
#[verifier::opaque]
pub open spec fn ser_input_core(i: InputSlotV) -> Seq<u8> {
    lit_bytes("{\"transactionId\":\""@) + hex_encode_spec(i.previous_outpoint.transaction_id)
        + lit_bytes("\",\"index\":\""@) + ser_hexnum(i.previous_outpoint.index as int, 8)
        + lit_bytes("\",\"sequence\":\""@) + ser_hexnum(i.sequence as int, 16) + lit_bytes(
        "\",\"sigOpCount\":\""@,
    ) + ser_hexnum(i.sig_op_count as int, 2) + lit_bytes("\",\"sighashType\":\""@) + ser_hexnum(
        i.sighash_type as int,
        2,
    )
}

/// Renders the signing half of an input slot: redeem script, partial
/// signatures, final unlocking script and consumed entry.
#[verifier::opaque]
pub open spec fn ser_input_rest(i: InputSlotV) -> Seq<u8> {
    lit_bytes("\",\"redeemScript\":"@) + ser_opthex(i.redeem_script) + lit_bytes(
        ",\"partialSigs\":"@,
    ) + ser_pairs(i.partial_signatures) + lit_bytes(",\"finalScriptSig\":"@) + ser_opthex(
        i.final_script_sig,
    ) + lit_bytes(",\"utxoEntry\":"@) + ser_utxo(i.utxo_entry) + lit_bytes("}"@)
}

/// Renders an input slot.
pub open spec fn ser_input(i: InputSlotV) -> Seq<u8> {
    ser_input_core(i) + ser_input_rest(i)
}

/// Parses the identifying half of an input slot.
#[verifier::opaque]
pub open spec fn parse_input_core(b: Seq<u8>) -> Option<((Seq<u8>, u32, u64, u8, u8), Seq<u8>)> {
    match parse_lit(b, lit_bytes("{\"transactionId\":\""@)) {
        Some(r1) => match parse_hexrun(r1) {
            Some(t1) => match parse_lit(t1.1, lit_bytes("\",\"index\":\""@)) {
                Some(r2) => match parse_hexnum(r2, 8) {
                    Some(t2) => match parse_lit(t2.1, lit_bytes("\",\"sequence\":\""@)) {
                        Some(r3) => match parse_hexnum(r3, 16) {
                            Some(t3) => match parse_lit(t3.1, lit_bytes("\",\"sigOpCount\":\""@)) {
                                Some(r4) => match parse_hexnum(r4, 2) {
                                    Some(t4) => match parse_lit(
                                        t4.1,
                                        lit_bytes("\",\"sighashType\":\""@),
                                    ) {
                                        Some(r5) => match parse_hexnum(r5, 2) {
                                            Some(t5) => Some(
                                                (
                                                    (
                                                        t1.0,
                                                        t2.0 as u32,
                                                        t3.0 as u64,
                                                        t4.0 as u8,
                                                        t5.0 as u8,
                                                    ),
                                                    t5.1,
                                                ),
                                            ),
                                            None => None,
                                        },
                                        None => None,
                                    },
                                    None => None,
                                },
                                None => None,
                            },
                            None => None,
                        },
                        None => None,
                    },
                    None => None,
                },
                None => None,
            },
            None => None,
        },
        None => None,
    }
}

/// Parses the signing half of an input slot.
#[verifier::opaque]
pub open spec fn parse_input_rest(b: Seq<u8>) -> Option<
    ((Option<Seq<u8>>, Seq<PartialSigV>, Option<Seq<u8>>, UtxoEntryV), Seq<u8>),
> {
    match parse_lit(b, lit_bytes("\",\"redeemScript\":"@)) {
        Some(r6) => match parse_opthex(r6) {
            Some(t6) => match parse_lit(t6.1, lit_bytes(",\"partialSigs\":"@)) {
                Some(r7) => match parse_pairs(r7) {
                    Some(t7) => match parse_lit(t7.1, lit_bytes(",\"finalScriptSig\":"@)) {
                        Some(r8) => match parse_opthex(r8) {
                            Some(t8) => match parse_lit(t8.1, lit_bytes(",\"utxoEntry\":"@)) {
                                Some(r9) => match parse_utxo(r9) {
                                    Some(t9) => match parse_lit(t9.1, lit_bytes("}"@)) {
                                        Some(rem) => Some(((t6.0, t7.0, t8.0, t9.0), rem)),
                                        None => None,
                                    },
                                    None => None,
                                },
                                None => None,
                            },
                            None => None,
                        },
                        None => None,
                    },
                    None => None,
                },
                None => None,
            },
            None => None,
        },
        None => None,
    }
}

/// Parses an input slot.
pub open spec fn parse_input(b: Seq<u8>) -> Option<(InputSlotV, Seq<u8>)> {
    match parse_input_core(b) {
        Some(tc) => match parse_input_rest(tc.1) {
            Some(tr) => Some(
                (
                    InputSlotV {
                        previous_outpoint: crate::model::OutpointV {
                            transaction_id: tc.0.0,
                            index: tc.0.1,
                        },
                        sequence: tc.0.2,
                        sig_op_count: tc.0.3,
                        sighash_type: tc.0.4,
                        redeem_script: tr.0.0,
                        partial_signatures: tr.0.1,
                        final_script_sig: tr.0.2,
                        utxo_entry: tr.0.3,
                    },
                    tr.1,
                ),
            ),
            None => None,
        },
        None => None,
    }
}

/// Parsing inverts rendering for the identifying half of an input slot.
proof fn lemma_rt_input_core(i: InputSlotV, rest: Seq<u8>)
    ensures
        parse_input_core(ser_input_core(i) + rest) == Some(
            (
                (
                    i.previous_outpoint.transaction_id,
                    i.previous_outpoint.index,
                    i.sequence,
                    i.sig_op_count,
                    i.sighash_type,
                ),
                rest,
            ),
        ),
{
    reveal(ser_input_core);
    reveal(parse_input_core);
    reveal_strlit("{\"transactionId\":\"");
    reveal_strlit("\",\"index\":\"");
    reveal_strlit("\",\"sequence\":\"");
    reveal_strlit("\",\"sigOpCount\":\"");
    reveal_strlit("\",\"sighashType\":\"");
    lemma_pow16_vals();
    let l1 = lit_bytes("{\"transactionId\":\""@);
    let l2 = lit_bytes("\",\"index\":\""@);
    let l3 = lit_bytes("\",\"sequence\":\""@);
    let l4 = lit_bytes("\",\"sigOpCount\":\""@);
    let l5 = lit_bytes("\",\"sighashType\":\""@);
    let u5b = ser_hexnum(i.sighash_type as int, 2) + rest;
    let u5 = l5 + u5b;
    let u4b = ser_hexnum(i.sig_op_count as int, 2) + u5;
    let u4 = l4 + u4b;
    let u3b = ser_hexnum(i.sequence as int, 16) + u4;
    let u3 = l3 + u3b;
    let u2b = ser_hexnum(i.previous_outpoint.index as int, 8) + u3;
    let u2 = l2 + u2b;
    let u1b = hex_encode_spec(i.previous_outpoint.transaction_id) + u2;
    assert(ser_input_core(i) + rest =~= l1 + u1b);
    lemma_parse_lit(l1, u1b);
    assert(u2[0] == '"' as u8);
    assert(!is_hex_digit('"' as u8));
    lemma_parse_hexrun(i.previous_outpoint.transaction_id, u2);
    lemma_parse_lit(l2, u2b);
    lemma_parse_ser_hexnum(i.previous_outpoint.index as int, 8, u3);
    lemma_parse_lit(l3, u3b);
    lemma_parse_ser_hexnum(i.sequence as int, 16, u4);
    lemma_parse_lit(l4, u4b);
    lemma_parse_ser_hexnum(i.sig_op_count as int, 2, u5);
    lemma_parse_lit(l5, u5b);
    lemma_parse_ser_hexnum(i.sighash_type as int, 2, rest);
}

/// Parsing inverts rendering for the signing half of an input slot.
#[verifier::rlimit(100)]
proof fn lemma_rt_input_rest(i: InputSlotV, rest: Seq<u8>)
    ensures
        parse_input_rest(ser_input_rest(i) + rest) == Some(
            ((i.redeem_script, i.partial_signatures, i.final_script_sig, i.utxo_entry), rest),
        ),
{
    reveal(ser_input_rest);
    reveal(parse_input_rest);
    reveal_strlit("\",\"redeemScript\":");
    reveal_strlit(",\"partialSigs\":");
    reveal_strlit(",\"finalScriptSig\":");
    reveal_strlit(",\"utxoEntry\":");
    reveal_strlit("}");
    let l6 = lit_bytes("\",\"redeemScript\":"@);
    let l7 = lit_bytes(",\"partialSigs\":"@);
    let l8 = lit_bytes(",\"finalScriptSig\":"@);
    let l9 = lit_bytes(",\"utxoEntry\":"@);
    let l10 = lit_bytes("}"@);
    let u10 = l10 + rest;
    let u9b = ser_utxo(i.utxo_entry) + u10;
    let u9 = l9 + u9b;
    let u8b = ser_opthex(i.final_script_sig) + u9;
    let u8a = l8 + u8b;
    let u7b = ser_pairs(i.partial_signatures) + u8a;
    let u7 = l7 + u7b;
    let u6b = ser_opthex(i.redeem_script) + u7;
    assert(ser_input_rest(i) + rest =~= l6 + u6b);
    lemma_parse_lit(l6, u6b);
    lemma_rt_opthex(i.redeem_script, u7);
    lemma_parse_lit(l7, u7b);
    lemma_rt_pairs(i.partial_signatures, u8a);
    lemma_parse_lit(l8, u8b);
    lemma_rt_opthex(i.final_script_sig, u9);
    lemma_parse_lit(l9, u9b);
    lemma_rt_utxo(i.utxo_entry, u10);
    lemma_parse_lit(l10, rest);
}

/// Parsing inverts rendering for input slots.
pub proof fn lemma_rt_input(i: InputSlotV, rest: Seq<u8>)
    ensures
        parse_input(ser_input(i) + rest) == Some((i, rest)),
{
    assert(ser_input(i) + rest =~= ser_input_core(i) + (ser_input_rest(i) + rest));
    lemma_rt_input_core(i, ser_input_rest(i) + rest);
    lemma_rt_input_rest(i, rest);
    assert(parse_input(ser_input(i) + rest) matches Some(t) && t.0 =~= i && t.1 == rest);
}

/// Appends the identifying half of an input slot.
fn write_input_core(out: &mut Vec<u8>, i: &InputSlot)
    ensures
        final(out)@ == old(out)@ + ser_input_core(i@),
{
    proof {
        reveal(ser_input_core);
        reveal_strlit("{\"transactionId\":\"");
        reveal_strlit("\",\"index\":\"");
        reveal_strlit("\",\"sequence\":\"");
        reveal_strlit("\",\"sigOpCount\":\"");
        reveal_strlit("\",\"sighashType\":\"");
        lemma_pow16_vals();
    }
    write_lit(out, "{\"transactionId\":\"");
    hex_encode_push(out, i.previous_outpoint.transaction_id.as_slice());
    write_lit(out, "\",\"index\":\"");
    write_hexnum(out, i.previous_outpoint.index as u64, 8);
    write_lit(out, "\",\"sequence\":\"");
    write_hexnum(out, i.sequence, 16);
    write_lit(out, "\",\"sigOpCount\":\"");
    write_hexnum(out, i.sig_op_count as u64, 2);
    write_lit(out, "\",\"sighashType\":\"");
    write_hexnum(out, i.sighash_type as u64, 2);
    proof {
        assert(out@ =~= old(out)@ + ser_input_core(i@));
    }
}

/// Appends the signing half of an input slot.
fn write_input_rest(out: &mut Vec<u8>, i: &InputSlot)
    ensures
        final(out)@ == old(out)@ + ser_input_rest(i@),
{
    proof {
        reveal(ser_input_rest);
        reveal_strlit("\",\"redeemScript\":");
        reveal_strlit(",\"partialSigs\":");
        reveal_strlit(",\"finalScriptSig\":");
        reveal_strlit(",\"utxoEntry\":");
        reveal_strlit("}");
    }
    write_lit(out, "\",\"redeemScript\":");
    write_opthex(out, &i.redeem_script);
    write_lit(out, ",\"partialSigs\":");
    write_pairs(out, &i.partial_signatures);
    write_lit(out, ",\"finalScriptSig\":");
    write_opthex(out, &i.final_script_sig);
    write_lit(out, ",\"utxoEntry\":");
    write_utxo(out, &i.utxo_entry);
    write_lit(out, "}");
    proof {
        assert(out@ =~= old(out)@ + ser_input_rest(i@));
    }
}

/// Appends a rendered input slot.
fn write_input(out: &mut Vec<u8>, i: &InputSlot)
    ensures
        final(out)@ == old(out)@ + ser_input(i@),
{
    write_input_core(out, i);
    write_input_rest(out, i);
    proof {
        assert(out@ =~= old(out)@ + ser_input(i@));
    }
}

/// Parses the identifying half of an input slot at `pos`.
fn parse_input_core_exec(b: &[u8], pos: usize) -> (r: Option<((Vec<u8>, u32, u64, u8, u8), usize)>)
    requires
        pos <= b@.len(),
    ensures
        match parse_input_core(b@.skip(pos as int)) {
            Some(t) => r matches Some(p) && p.0.0@ == t.0.0 && p.0.1 == t.0.1 && p.0.2 == t.0.2
                && p.0.3 == t.0.3 && p.0.4 == t.0.4 && pos <= p.1 <= b@.len() && b@.skip(
                p.1 as int,
            ) == t.1,
            None => r is None,
        },
{
    proof {
        reveal(parse_input_core);
        reveal_strlit("{\"transactionId\":\"");
        reveal_strlit("\",\"index\":\"");
        reveal_strlit("\",\"sequence\":\"");
        reveal_strlit("\",\"sigOpCount\":\"");
        reveal_strlit("\",\"sighashType\":\"");
    }
    let p1 = match expect_lit(b, pos, "{\"transactionId\":\"") {
        Some(np) => np,
        None => {
            return None;
        },
    };
    let (txid, p2) = match parse_hexrun_exec(b, p1) {
        Some(t) => t,
        None => {
            return None;
        },
    };
    let p3 = match expect_lit(b, p2, "\",\"index\":\"") {
        Some(np) => np,
        None => {
            return None;
        },
    };
    let (index, p4) = match parse_hexnum_exec(b, p3, 8) {
        Some(t) => t,
        None => {
            return None;
        },
    };
    let p5 = match expect_lit(b, p4, "\",\"sequence\":\"") {
        Some(np) => np,
        None => {
            return None;
        },
    };
    let (sequence, p6) = match parse_hexnum_exec(b, p5, 16) {
        Some(t) => t,
        None => {
            return None;
        },
    };
    let p7 = match expect_lit(b, p6, "\",\"sigOpCount\":\"") {
        Some(np) => np,
        None => {
            return None;
        },
    };
    let (soc, p8) = match parse_hexnum_exec(b, p7, 2) {
        Some(t) => t,
        None => {
            return None;
        },
    };
    let p9 = match expect_lit(b, p8, "\",\"sighashType\":\"") {
        Some(np) => np,
        None => {
            return None;
        },
    };
    let (sht, p10) = match parse_hexnum_exec(b, p9, 2) {
        Some(t) => t,
        None => {
            return None;
        },
    };
    Some(((txid, index as u32, sequence, soc as u8, sht as u8), p10))
}

/// Parses the signing half of an input slot at `pos`.
#[verifier::rlimit(100)]
fn parse_input_rest_exec(b: &[u8], pos: usize) -> (r: Option<
    ((Option<Vec<u8>>, Vec<PartialSig>, Option<Vec<u8>>, UtxoEntry), usize),
>)
    requires
        pos <= b@.len(),
    ensures
        match parse_input_rest(b@.skip(pos as int)) {
            Some(t) => r matches Some(p) && (match p.0.0 {
                Some(d) => t.0.0 matches Some(td) && d@ == td,
                None => t.0.0 is None,
            }) && views_of_pairs(p.0.1@) == t.0.1 && (match p.0.2 {
                Some(d) => t.0.2 matches Some(td) && d@ == td,
                None => t.0.2 is None,
            }) && p.0.3@ == t.0.3 && pos <= p.1 <= b@.len() && b@.skip(p.1 as int) == t.1,
            None => r is None,
        },
{
    proof {
        reveal(parse_input_rest);
        reveal_strlit("\",\"redeemScript\":");
        reveal_strlit(",\"partialSigs\":");
        reveal_strlit(",\"finalScriptSig\":");
        reveal_strlit(",\"utxoEntry\":");
        reveal_strlit("}");
    }
    let p11 = match expect_lit(b, pos, "\",\"redeemScript\":") {
        Some(np) => np,
        None => {
            return None;
        },
    };
    let (redeem, p12) = match parse_opthex_exec(b, p11) {
        Some(t) => t,
        None => {
            return None;
        },
    };
    let p13 = match expect_lit(b, p12, ",\"partialSigs\":") {
        Some(np) => np,
        None => {
            return None;
        },
    };
    let (sigs, p14) = match parse_pairs_exec(b, p13) {
        Some(t) => t,
        None => {
            return None;
        },
    };
    let p15 = match expect_lit(b, p14, ",\"finalScriptSig\":") {
        Some(np) => np,
        None => {
            return None;
        },
    };
    let (final_sig, p16) = match parse_opthex_exec(b, p15) {
        Some(t) => t,
        None => {
            return None;
        },
    };
    let p17 = match expect_lit(b, p16, ",\"utxoEntry\":") {
        Some(np) => np,
        None => {
            return None;
        },
    };
    let (utxo, p18) = match parse_utxo_exec(b, p17) {
        Some(t) => t,
        None => {
            return None;
        },
    };
    let p19 = match expect_lit(b, p18, "}") {
        Some(np) => np,
        None => {
            return None;
        },
    };
    Some(((redeem, sigs, final_sig, utxo), p19))
}

/// Parses an input slot at `pos`.
fn parse_input_exec(b: &[u8], pos: usize) -> (r: Option<(InputSlot, usize)>)
    requires
        pos <= b@.len(),
    ensures
        match parse_input(b@.skip(pos as int)) {
            Some(t) => r matches Some(p) && p.0@ == t.0 && pos <= p.1 <= b@.len() && b@.skip(
                p.1 as int,
            ) == t.1,
            None => r is None,
        },
{
    let (core, p1) = match parse_input_core_exec(b, pos) {
        Some(t) => t,
        None => {
            return None;
        },
    };
    let (tail, p2) = match parse_input_rest_exec(b, p1) {
        Some(t) => t,
        None => {
            return None;
        },
    };
    let (txid, index, sequence, soc, sht) = core;
    let (redeem, sigs, final_sig, utxo) = tail;
    let slot = InputSlot {
        previous_outpoint: Outpoint { transaction_id: txid, index },
        sequence,
        sig_op_count: soc,
        sighash_type: sht,
        redeem_script: redeem,
        partial_signatures: sigs,
        final_script_sig: final_sig,
        utxo_entry: utxo,
    };
    proof {
        assert(slot@ =~~= parse_input(b@.skip(pos as int)).unwrap().0);
    }
    Some((slot, p2))
}

/// The views of a vector of input slots.
pub open spec fn views_of_inputs(v: Seq<InputSlot>) -> Seq<InputSlotV> {
    Seq::new(v.len(), |i: int| v[i]@)
}

/// Renders the comma-separated items of a input list.
pub open spec fn ser_inputs_items(xs: Seq<InputSlotV>) -> Seq<u8>
    decreases xs.len(),
{
    if xs.len() == 0 {
        Seq::empty()
    } else if xs.len() == 1 {
        ser_input(xs[0])
    } else {
        ser_input(xs[0]) + lit_bytes(","@) + ser_inputs_items(xs.skip(1))
    }
}

/// Renders a input list.
pub open spec fn ser_inputs(xs: Seq<InputSlotV>) -> Seq<u8> {
    lit_bytes("["@) + ser_inputs_items(xs) + lit_bytes("]"@)
}

/// Parses the non-empty items of a input list, up to and
/// including the closing bracket.
pub open spec fn parse_inputs_items(b: Seq<u8>) -> Option<(Seq<InputSlotV>, Seq<u8>)>
    decreases b.len(),
{
    match parse_input(b) {
        None => None,
        Some(t) => if t.1.len() >= 1 && t.1[0] == ',' as u8 {
            if t.1.skip(1).len() < b.len() {
                match parse_inputs_items(t.1.skip(1)) {
                    Some(t2) => Some((seq![t.0] + t2.0, t2.1)),
                    None => None,
                }
            } else {
                None
            }
        } else {
            match parse_lit(t.1, lit_bytes("]"@)) {
                Some(rem) => Some((seq![t.0], rem)),
                None => None,
            }
        },
    }
}

/// Parses a input list.
pub open spec fn parse_inputs(b: Seq<u8>) -> Option<(Seq<InputSlotV>, Seq<u8>)> {
    match parse_lit(b, lit_bytes("["@)) {
        None => None,
        Some(r1) => if r1.len() >= 1 && r1[0] == ']' as u8 {
            Some((Seq::empty(), r1.skip(1)))
        } else {
            parse_inputs_items(r1)
        },
    }
}

/// A rendered input slot opens with a brace.
proof fn lemma_ser_input_head(i: InputSlotV)
    ensures
        ser_input(i).len() >= 1,
        ser_input(i)[0] == '{' as u8,
{
    reveal(ser_input_core);
    reveal_strlit("{\"transactionId\":\"");
    assert(ser_input_core(i)[0] == '{' as u8);
    assert(ser_input(i)[0] == '{' as u8);
}

/// Parsing inverts rendering for the items of a non-empty list.
#[verifier::rlimit(100)]
proof fn lemma_rt_inputs_items(xs: Seq<InputSlotV>, rest: Seq<u8>)
    requires
        xs.len() >= 1,
    ensures
        parse_inputs_items(ser_inputs_items(xs) + (lit_bytes("]"@) + rest)) == Some((xs, rest)),
    decreases xs.len(),
{
    reveal_strlit("{\"transactionId\":\"");
    reveal_strlit(",");
    reveal_strlit("]");
    let lb = lit_bytes("]"@);
    if xs.len() == 1 {
        let s = ser_inputs_items(xs) + (lb + rest);
        assert(s =~= ser_input(xs[0]) + (lb + rest));
        lemma_rt_input(xs[0], lb + rest);
        assert((lb + rest)[0] == ']' as u8);
        lemma_parse_lit(lb, rest);
        assert(parse_inputs_items(s) matches Some(t) && t.0 =~= xs && t.1 == rest);
    } else {
        let tail = ser_inputs_items(xs.skip(1)) + (lb + rest);
        let s = ser_inputs_items(xs) + (lb + rest);
        assert(s =~= ser_input(xs[0]) + (lit_bytes(","@) + tail));
        lemma_rt_input(xs[0], lit_bytes(","@) + tail);
        assert((lit_bytes(","@) + tail)[0] == ',' as u8);
        assert((lit_bytes(","@) + tail).skip(1) =~= tail);
        lemma_ser_input_head(xs[0]);
        lemma_rt_inputs_items(xs.skip(1), rest);
        assert(parse_inputs_items(s) matches Some(t) && t.0 =~= xs && t.1 == rest);
    }
}

/// Parsing inverts rendering for input lists.
pub proof fn lemma_rt_inputs(xs: Seq<InputSlotV>, rest: Seq<u8>)
    ensures
        parse_inputs(ser_inputs(xs) + rest) == Some((xs, rest)),
{
    reveal_strlit("[");
    reveal_strlit("]");
    reveal_strlit("{\"transactionId\":\"");
    let s = ser_inputs(xs) + rest;
    let inner = ser_inputs_items(xs) + (lit_bytes("]"@) + rest);
    assert(s =~= lit_bytes("["@) + inner);
    lemma_parse_lit(lit_bytes("["@), inner);
    if xs.len() == 0 {
        assert(inner =~= lit_bytes("]"@) + rest);
        assert(inner[0] == ']' as u8);
        assert(inner.skip(1) =~= rest);
        assert(parse_inputs(s) matches Some(t) && t.0 =~= xs && t.1 == rest);
    } else {
        assert(inner[0] == '{' as u8) by {
            lemma_ser_input_head(xs[0]);
            assert(ser_inputs_items(xs)[0] == ser_input(xs[0])[0]);
        }
        lemma_rt_inputs_items(xs, rest);
    }
}

/// A non-empty input list has one fewer separator than items.
proof fn lemma_ser_inputs_items_snoc(xs: Seq<InputSlotV>, x: InputSlotV)
    requires
        xs.len() >= 1,
    ensures
        ser_inputs_items(xs.push(x)) == ser_inputs_items(xs) + lit_bytes(","@) + ser_input(x),
    decreases xs.len(),
{
    if xs.len() == 1 {
        assert(xs.push(x)[0] == xs[0]);
        assert(xs.push(x).skip(1) =~= seq![x]);
        assert(ser_inputs_items(seq![x]) == ser_input(x));
        assert(ser_inputs_items(xs.push(x)) =~= ser_inputs_items(xs) + lit_bytes(","@) + ser_input(
            x,
        ));
    } else {
        assert(xs.push(x)[0] == xs[0]);
        assert(xs.push(x).skip(1) =~= xs.skip(1).push(x));
        lemma_ser_inputs_items_snoc(xs.skip(1), x);
        assert(ser_inputs_items(xs.push(x)) =~= ser_inputs_items(xs) + lit_bytes(","@) + ser_input(
            x,
        ));
    }
}

/// Appends a rendered input list.
#[verifier::rlimit(100)]
#[verifier::loop_isolation(false)]
fn write_inputs(out: &mut Vec<u8>, xs: &Vec<InputSlot>)
    ensures
        final(out)@ == old(out)@ + ser_inputs(views_of_inputs(xs@)),
{
    proof {
        reveal_strlit("[");
        reveal_strlit("]");
        reveal_strlit(",");
    }
    write_lit(out, "[");
    let mut i: usize = 0;
    while i < xs.len()
        invariant
            i <= xs@.len(),
            out@ == old(out)@ + lit_bytes("["@) + ser_inputs_items(
                views_of_inputs(xs@).take(i as int),
            ),
        decreases xs@.len() - i,
    {
        if i > 0 {
            write_lit(out, ",");
        }
        write_input(out, &xs[i]);
        proof {
            let vs = views_of_inputs(xs@);
            if i == 0 {
                assert(vs.take(1) =~= seq![vs[0]]);
                assert(ser_inputs_items(vs.take(1)) == ser_input(vs[0]));
                assert(out@ =~= old(out)@ + lit_bytes("["@) + ser_inputs_items(vs.take(1)));
            } else {
                assert(vs.take(i as int + 1) =~= vs.take(i as int).push(vs[i as int]));
                lemma_ser_inputs_items_snoc(vs.take(i as int), vs[i as int]);
                assert(out@ =~= old(out)@ + lit_bytes("["@) + ser_inputs_items(
                    vs.take(i as int + 1),
                ));
            }
        }
        i = i + 1;
    }
    write_lit(out, "]");
    proof {
        assert(views_of_inputs(xs@).take(i as int) =~= views_of_inputs(xs@));
        assert(out@ =~= old(out)@ + ser_inputs(views_of_inputs(xs@)));
    }
}

/// Parses a input list at `pos`.
#[verifier::rlimit(100)]
#[verifier::loop_isolation(false)]
fn parse_inputs_exec(b: &[u8], pos: usize) -> (r: Option<(Vec<InputSlot>, usize)>)
    requires
        pos <= b@.len(),
    ensures
        match parse_inputs(b@.skip(pos as int)) {
            Some(t) => r matches Some(p) && views_of_inputs(p.0@) == t.0 && pos <= p.1 <= b@.len()
                && b@.skip(p.1 as int) == t.1,
            None => r is None,
        },
{
    proof {
        reveal_strlit("[");
        reveal_strlit("]");
    }
    let start = match expect_lit(b, pos, "[") {
        Some(np) => np,
        None => {
            return None;
        },
    };
    if start < b.len() && b[start] == 93 {
        proof {
            assert(b@.skip(start as int)[0] == ']' as u8);
            assert(b@.skip(start as int).skip(1) =~= b@.skip(start as int + 1));
            assert(views_of_inputs(Seq::<InputSlot>::empty()) =~= Seq::<InputSlotV>::empty());
        }
        let out: Vec<InputSlot> = Vec::new();
        proof {
            assert(views_of_inputs(out@) =~= Seq::<InputSlotV>::empty());
        }
        return Some((out, start + 1));
    }
    proof {
        if start < b@.len() {
            assert(b@.skip(start as int)[0] != ']' as u8);
        }
    }
    let mut out: Vec<InputSlot> = Vec::new();
    let mut cur: usize = start;
    loop
        invariant
            pos <= start <= cur <= b@.len(),
            parse_inputs_items(b@.skip(start as int)) == match parse_inputs_items(
                b@.skip(cur as int),
            ) {
                Some(t) => Some((views_of_inputs(out@) + t.0, t.1)),
                None => None::<(Seq<InputSlotV>, Seq<u8>)>,
            },
            parse_inputs(b@.skip(pos as int)) == parse_inputs_items(b@.skip(start as int)),
        decreases b@.len() - cur,
    {
        let (e, p) = match parse_input_exec(b, cur) {
            Some(t) => t,
            None => {
                return None;
            },
        };
        let ghost out_old = out@;
        out.push(e);
        if p < b.len() && b[p] == 44 {
            proof {
                assert(b@.skip(p as int)[0] == ',' as u8);
                assert(b@.skip(p as int).skip(1) =~= b@.skip(p as int + 1));
                match parse_inputs_items(b@.skip(p as int + 1)) {
                    Some(t2) => {
                        assert(views_of_inputs(out_old) + (seq![e@] + t2.0) =~= views_of_inputs(out@)
                            + t2.0);
                    },
                    None => {},
                }
            }
            cur = p + 1;
        } else if p < b.len() && b[p] == 93 {
            proof {
                assert(b@.skip(p as int)[0] == ']' as u8);
                assert(b@.skip(p as int)[0] != ',' as u8);
                assert(b@.skip(p as int).take(1) =~= lit_bytes("]"@));
                assert(b@.skip(p as int).skip(1) =~= b@.skip(p as int + 1));
                assert(views_of_inputs(out_old) + seq![e@] =~= views_of_inputs(out@));
            }
            return Some((out, p + 1));
        } else {
            proof {
                if p < b@.len() {
                    assert(b@.skip(p as int)[0] != ',' as u8);
                    assert(b@.skip(p as int).take(1) != lit_bytes("]"@)) by {
                        assert(b@.skip(p as int).take(1)[0] != ']' as u8);
                    }
                } else {
                    assert(b@.skip(p as int).len() == 0);
                }
            }
            return None;
        }
    }
}



/// The views of a vector of output slots.
pub open spec fn views_of_outputs(v: Seq<OutputSlot>) -> Seq<OutputSlotV> {
    Seq::new(v.len(), |i: int| v[i]@)
}

/// Renders the comma-separated items of a output list.
pub open spec fn ser_outputs_items(xs: Seq<OutputSlotV>) -> Seq<u8>
    decreases xs.len(),
{
    if xs.len() == 0 {
        Seq::empty()
    } else if xs.len() == 1 {
        ser_output(xs[0])
    } else {
        ser_output(xs[0]) + lit_bytes(","@) + ser_outputs_items(xs.skip(1))
    }
}

/// Renders a output list.
pub open spec fn ser_outputs(xs: Seq<OutputSlotV>) -> Seq<u8> {
    lit_bytes("["@) + ser_outputs_items(xs) + lit_bytes("]"@)
}

/// Parses the non-empty items of a output list, up to and
/// including the closing bracket.
pub open spec fn parse_outputs_items(b: Seq<u8>) -> Option<(Seq<OutputSlotV>, Seq<u8>)>
    decreases b.len(),
{
    match parse_output(b) {
        None => None,
        Some(t) => if t.1.len() >= 1 && t.1[0] == ',' as u8 {
            if t.1.skip(1).len() < b.len() {
                match parse_outputs_items(t.1.skip(1)) {
                    Some(t2) => Some((seq![t.0] + t2.0, t2.1)),
                    None => None,
                }
            } else {
                None
            }
        } else {
            match parse_lit(t.1, lit_bytes("]"@)) {
                Some(rem) => Some((seq![t.0], rem)),
                None => None,
            }
        },
    }
}

/// Parses a output list.
pub open spec fn parse_outputs(b: Seq<u8>) -> Option<(Seq<OutputSlotV>, Seq<u8>)> {
    match parse_lit(b, lit_bytes("["@)) {
        None => None,
        Some(r1) => if r1.len() >= 1 && r1[0] == ']' as u8 {
            Some((Seq::empty(), r1.skip(1)))
        } else {
            parse_outputs_items(r1)
        },
    }
}

/// Parsing inverts rendering for the items of a non-empty list.
proof fn lemma_rt_outputs_items(xs: Seq<OutputSlotV>, rest: Seq<u8>)
    requires
        xs.len() >= 1,
    ensures
        parse_outputs_items(ser_outputs_items(xs) + (lit_bytes("]"@) + rest)) == Some((xs, rest)),
    decreases xs.len(),
{
    reveal_strlit("{\"value\":\"");
    reveal_strlit(",");
    reveal_strlit("]");
    let lb = lit_bytes("]"@);
    if xs.len() == 1 {
        let s = ser_outputs_items(xs) + (lb + rest);
        assert(s =~= ser_output(xs[0]) + (lb + rest));
        lemma_rt_output(xs[0], lb + rest);
        assert((lb + rest)[0] == ']' as u8);
        lemma_parse_lit(lb, rest);
        assert(parse_outputs_items(s) matches Some(t) && t.0 =~= xs && t.1 == rest);
    } else {
        let tail = ser_outputs_items(xs.skip(1)) + (lb + rest);
        let s = ser_outputs_items(xs) + (lb + rest);
        assert(s =~= ser_output(xs[0]) + (lit_bytes(","@) + tail));
        lemma_rt_output(xs[0], lit_bytes(","@) + tail);
        assert((lit_bytes(","@) + tail)[0] == ',' as u8);
        assert((lit_bytes(","@) + tail).skip(1) =~= tail);
        assert(ser_output(xs[0]).len() >= 1) by {
            assert(ser_output(xs[0])[0] == '{' as u8);
        }
        lemma_rt_outputs_items(xs.skip(1), rest);
        assert(parse_outputs_items(s) matches Some(t) && t.0 =~= xs && t.1 == rest);
    }
}

/// Parsing inverts rendering for output lists.
pub proof fn lemma_rt_outputs(xs: Seq<OutputSlotV>, rest: Seq<u8>)
    ensures
        parse_outputs(ser_outputs(xs) + rest) == Some((xs, rest)),
{
    reveal_strlit("[");
    reveal_strlit("]");
    reveal_strlit("{\"value\":\"");
    let s = ser_outputs(xs) + rest;
    let inner = ser_outputs_items(xs) + (lit_bytes("]"@) + rest);
    assert(s =~= lit_bytes("["@) + inner);
    lemma_parse_lit(lit_bytes("["@), inner);
    if xs.len() == 0 {
        assert(inner =~= lit_bytes("]"@) + rest);
        assert(inner[0] == ']' as u8);
        assert(inner.skip(1) =~= rest);
        assert(parse_outputs(s) matches Some(t) && t.0 =~= xs && t.1 == rest);
    } else {
        assert(inner[0] == '{' as u8) by {
            assert(ser_outputs_items(xs)[0] == ser_output(xs[0])[0]);
        }
        lemma_rt_outputs_items(xs, rest);
    }
}

/// A non-empty output list has one fewer separator than items.
proof fn lemma_ser_outputs_items_snoc(xs: Seq<OutputSlotV>, x: OutputSlotV)
    requires
        xs.len() >= 1,
    ensures
        ser_outputs_items(xs.push(x)) == ser_outputs_items(xs) + lit_bytes(","@) + ser_output(x),
    decreases xs.len(),
{
    if xs.len() == 1 {
        assert(xs.push(x)[0] == xs[0]);
        assert(xs.push(x).skip(1) =~= seq![x]);
        assert(ser_outputs_items(seq![x]) == ser_output(x));
        assert(ser_outputs_items(xs.push(x)) =~= ser_outputs_items(xs) + lit_bytes(","@) + ser_output(
            x,
        ));
    } else {
        assert(xs.push(x)[0] == xs[0]);
        assert(xs.push(x).skip(1) =~= xs.skip(1).push(x));
        lemma_ser_outputs_items_snoc(xs.skip(1), x);
        assert(ser_outputs_items(xs.push(x)) =~= ser_outputs_items(xs) + lit_bytes(","@) + ser_output(
            x,
        ));
    }
}

/// Appends a rendered output list.
#[verifier::loop_isolation(false)]
fn write_outputs(out: &mut Vec<u8>, xs: &Vec<OutputSlot>)
    ensures
        final(out)@ == old(out)@ + ser_outputs(views_of_outputs(xs@)),
{
    proof {
        reveal_strlit("[");
        reveal_strlit("]");
        reveal_strlit(",");
    }
    write_lit(out, "[");
    let mut i: usize = 0;
    while i < xs.len()
        invariant
            i <= xs@.len(),
            out@ == old(out)@ + lit_bytes("["@) + ser_outputs_items(
                views_of_outputs(xs@).take(i as int),
            ),
        decreases xs@.len() - i,
    {
        if i > 0 {
            write_lit(out, ",");
        }
        write_output(out, &xs[i]);
        proof {
            let vs = views_of_outputs(xs@);
            if i == 0 {
                assert(vs.take(1) =~= seq![vs[0]]);
                assert(ser_outputs_items(vs.take(1)) == ser_output(vs[0]));
                assert(out@ =~= old(out)@ + lit_bytes("["@) + ser_outputs_items(vs.take(1)));
            } else {
                assert(vs.take(i as int + 1) =~= vs.take(i as int).push(vs[i as int]));
                lemma_ser_outputs_items_snoc(vs.take(i as int), vs[i as int]);
                assert(out@ =~= old(out)@ + lit_bytes("["@) + ser_outputs_items(
                    vs.take(i as int + 1),
                ));
            }
        }
        i = i + 1;
    }
    write_lit(out, "]");
    proof {
        assert(views_of_outputs(xs@).take(i as int) =~= views_of_outputs(xs@));
        assert(out@ =~= old(out)@ + ser_outputs(views_of_outputs(xs@)));
    }
}

/// Parses a output list at `pos`.
#[verifier::loop_isolation(false)]
fn parse_outputs_exec(b: &[u8], pos: usize) -> (r: Option<(Vec<OutputSlot>, usize)>)
    requires
        pos <= b@.len(),
    ensures
        match parse_outputs(b@.skip(pos as int)) {
            Some(t) => r matches Some(p) && views_of_outputs(p.0@) == t.0 && pos <= p.1 <= b@.len()
                && b@.skip(p.1 as int) == t.1,
            None => r is None,
        },
{
    proof {
        reveal_strlit("[");
        reveal_strlit("]");
    }
    let start = match expect_lit(b, pos, "[") {
        Some(np) => np,
        None => {
            return None;
        },
    };
    if start < b.len() && b[start] == 93 {
        proof {
            assert(b@.skip(start as int)[0] == ']' as u8);
            assert(b@.skip(start as int).skip(1) =~= b@.skip(start as int + 1));
            assert(views_of_outputs(Seq::<OutputSlot>::empty()) =~= Seq::<OutputSlotV>::empty());
        }
        let out: Vec<OutputSlot> = Vec::new();
        proof {
            assert(views_of_outputs(out@) =~= Seq::<OutputSlotV>::empty());
        }
        return Some((out, start + 1));
    }
    proof {
        if start < b@.len() {
            assert(b@.skip(start as int)[0] != ']' as u8);
        }
    }
    let mut out: Vec<OutputSlot> = Vec::new();
    let mut cur: usize = start;
    loop
        invariant
            pos <= start <= cur <= b@.len(),
            parse_outputs_items(b@.skip(start as int)) == match parse_outputs_items(
                b@.skip(cur as int),
            ) {
                Some(t) => Some((views_of_outputs(out@) + t.0, t.1)),
                None => None::<(Seq<OutputSlotV>, Seq<u8>)>,
            },
            parse_outputs(b@.skip(pos as int)) == parse_outputs_items(b@.skip(start as int)),
        decreases b@.len() - cur,
    {
        let (e, p) = match parse_output_exec(b, cur) {
            Some(t) => t,
            None => {
                return None;
            },
        };
        let ghost out_old = out@;
        out.push(e);
        if p < b.len() && b[p] == 44 {
            proof {
                assert(b@.skip(p as int)[0] == ',' as u8);
                assert(b@.skip(p as int).skip(1) =~= b@.skip(p as int + 1));
                match parse_outputs_items(b@.skip(p as int + 1)) {
                    Some(t2) => {
                        assert(views_of_outputs(out_old) + (seq![e@] + t2.0) =~= views_of_outputs(out@)
                            + t2.0);
                    },
                    None => {},
                }
            }
            cur = p + 1;
        } else if p < b.len() && b[p] == 93 {
            proof {
                assert(b@.skip(p as int)[0] == ']' as u8);
                assert(b@.skip(p as int)[0] != ',' as u8);
                assert(b@.skip(p as int).take(1) =~= lit_bytes("]"@));
                assert(b@.skip(p as int).skip(1) =~= b@.skip(p as int + 1));
                assert(views_of_outputs(out_old) + seq![e@] =~= views_of_outputs(out@));
            }
            return Some((out, p + 1));
        } else {
            proof {
                if p < b@.len() {
                    assert(b@.skip(p as int)[0] != ',' as u8);
                    assert(b@.skip(p as int).take(1) != lit_bytes("]"@)) by {
                        assert(b@.skip(p as int).take(1)[0] != ']' as u8);
                    }
                } else {
                    assert(b@.skip(p as int).len() == 0);
                }
            }
            return None;
        }
    }
}



/// Renders the scalar half of a skeleton: version, lock times, the two
/// modifiability flags and the recorded id.
#[verifier::opaque]
pub open spec fn ser_skel_core(s: SkeletonV) -> Seq<u8> {
    lit_bytes("{\"version\":\""@) + ser_hexnum(s.version as int, 4) + lit_bytes(
        "\",\"lockTime\":\""@,
    ) + ser_hexnum(s.lock_time as int, 16) + lit_bytes("\",\"fallbackLockTime\":"@) + ser_optnum(
        s.fallback_lock_time,
        16,
    ) + lit_bytes(",\"inputsModifiable\":"@) + ser_bool(s.inputs_modifiable) + lit_bytes(
        ",\"outputsModifiable\":"@,
    ) + ser_bool(s.outputs_modifiable) + lit_bytes(",\"id\":"@) + ser_opthex(s.id)
}

/// Renders the list half of a skeleton: inputs and outputs.
#[verifier::opaque]
pub open spec fn ser_skel_lists(s: SkeletonV) -> Seq<u8> {
    lit_bytes(",\"inputs\":"@) + ser_inputs(s.inputs) + lit_bytes(",\"outputs\":"@) + ser_outputs(
        s.outputs,
    ) + lit_bytes("}"@)
}

/// Renders a skeleton.
pub open spec fn ser_skel(s: SkeletonV) -> Seq<u8> {
    ser_skel_core(s) + ser_skel_lists(s)
}

/// Parses the scalar half of a skeleton.
#[verifier::opaque]
pub open spec fn parse_skel_core(b: Seq<u8>) -> Option<
    ((u16, u64, Option<u64>, bool, bool, Option<Seq<u8>>), Seq<u8>),
> {
    match parse_lit(b, lit_bytes("{\"version\":\""@)) {
        Some(r1) => match parse_hexnum(r1, 4) {
            Some(t1) => match parse_lit(t1.1, lit_bytes("\",\"lockTime\":\""@)) {
                Some(r2) => match parse_hexnum(r2, 16) {
                    Some(t2) => match parse_lit(t2.1, lit_bytes("\",\"fallbackLockTime\":"@)) {
                        Some(r3) => match parse_optnum(r3, 16) {
                            Some(t3) => match parse_lit(t3.1, lit_bytes(",\"inputsModifiable\":"@)) {
                                Some(r4) => match parse_bool(r4) {
                                    Some(t4) => match parse_lit(
                                        t4.1,
                                        lit_bytes(",\"outputsModifiable\":"@),
                                    ) {
                                        Some(r5) => match parse_bool(r5) {
                                            Some(t5) => match parse_lit(t5.1, lit_bytes(",\"id\":"@)) {
                                                Some(r6) => match parse_opthex(r6) {
                                                    Some(t6) => Some(
                                                        (
                                                            (
                                                                t1.0 as u16,
                                                                t2.0 as u64,
                                                                t3.0,
                                                                t4.0,
                                                                t5.0,
                                                                t6.0,
                                                            ),
                                                            t6.1,
                                                        ),
                                                    ),
                                                    None => None,
                                                },
                                                None => None,
                                            },
                                            None => None,
                                        },
                                        None => None,
                                    },
                                    None => None,
                                },
                                None => None,
                            },
                            None => None,
                        },
                        None => None,
                    },
                    None => None,
                },
                None => None,
            },
            None => None,
        },
        None => None,
    }
}

/// Parses the list half of a skeleton.
#[verifier::opaque]
pub open spec fn parse_skel_lists(b: Seq<u8>) -> Option<
    ((Seq<InputSlotV>, Seq<OutputSlotV>), Seq<u8>),
> {
    match parse_lit(b, lit_bytes(",\"inputs\":"@)) {
        Some(r7) => match parse_inputs(r7) {
            Some(t7) => match parse_lit(t7.1, lit_bytes(",\"outputs\":"@)) {
                Some(r8) => match parse_outputs(r8) {
                    Some(t8) => match parse_lit(t8.1, lit_bytes("}"@)) {
                        Some(rem) => Some(((t7.0, t8.0), rem)),
                        None => None,
                    },
                    None => None,
                },
                None => None,
            },
            None => None,
        },
        None => None,
    }
}

/// Parses a skeleton.
pub open spec fn parse_skel(b: Seq<u8>) -> Option<(SkeletonV, Seq<u8>)> {
    match parse_skel_core(b) {
        Some(tc) => match parse_skel_lists(tc.1) {
            Some(tl) => Some(
                (
                    SkeletonV {
                        version: tc.0.0,
                        lock_time: tc.0.1,
                        fallback_lock_time: tc.0.2,
                        inputs_modifiable: tc.0.3,
                        outputs_modifiable: tc.0.4,
                        id: tc.0.5,
                        inputs: tl.0.0,
                        outputs: tl.0.1,
                    },
                    tl.1,
                ),
            ),
            None => None,
        },
        None => None,
    }
}

/// A rendered skeleton opens with a brace.
proof fn lemma_ser_skel_head(s: SkeletonV)
    ensures
        ser_skel(s).len() >= 1,
        ser_skel(s)[0] == '{' as u8,
{
    reveal(ser_skel_core);
    reveal_strlit("{\"version\":\"");
    assert(ser_skel_core(s)[0] == '{' as u8);
    assert(ser_skel(s)[0] == '{' as u8);
}

/// Parsing inverts rendering for the scalar half of a skeleton.
#[verifier::rlimit(100)]
proof fn lemma_rt_skel_core(s: SkeletonV, rest: Seq<u8>)
    ensures
        parse_skel_core(ser_skel_core(s) + rest) == Some(
            (
                (
                    s.version,
                    s.lock_time,
                    s.fallback_lock_time,
                    s.inputs_modifiable,
                    s.outputs_modifiable,
                    s.id,
                ),
                rest,
            ),
        ),
{
    reveal(ser_skel_core);
    reveal(parse_skel_core);
    reveal_strlit("{\"version\":\"");
    reveal_strlit("\",\"lockTime\":\"");
    reveal_strlit("\",\"fallbackLockTime\":");
    reveal_strlit(",\"inputsModifiable\":");
    reveal_strlit(",\"outputsModifiable\":");
    reveal_strlit(",\"id\":");
    lemma_pow16_vals();
    let l1 = lit_bytes("{\"version\":\""@);
    let l2 = lit_bytes("\",\"lockTime\":\""@);
    let l3 = lit_bytes("\",\"fallbackLockTime\":"@);
    let l4 = lit_bytes(",\"inputsModifiable\":"@);
    let l5 = lit_bytes(",\"outputsModifiable\":"@);
    let l6 = lit_bytes(",\"id\":"@);
    let u6b = ser_opthex(s.id) + rest;
    let u6 = l6 + u6b;
    let u5b = ser_bool(s.outputs_modifiable) + u6;
    let u5 = l5 + u5b;
    let u4b = ser_bool(s.inputs_modifiable) + u5;
    let u4 = l4 + u4b;
    let u3b = ser_optnum(s.fallback_lock_time, 16) + u4;
    let u3 = l3 + u3b;
    let u2b = ser_hexnum(s.lock_time as int, 16) + u3;
    let u2 = l2 + u2b;
    let u1b = ser_hexnum(s.version as int, 4) + u2;
    assert(ser_skel_core(s) + rest =~= l1 + u1b);
    lemma_parse_lit(l1, u1b);
    lemma_parse_ser_hexnum(s.version as int, 4, u2);
    lemma_parse_lit(l2, u2b);
    lemma_parse_ser_hexnum(s.lock_time as int, 16, u3);
    lemma_parse_lit(l3, u3b);
    lemma_rt_optnum(s.fallback_lock_time, 16, u4);
    lemma_parse_lit(l4, u4b);
    lemma_rt_bool(s.inputs_modifiable, u5);
    lemma_parse_lit(l5, u5b);
    lemma_rt_bool(s.outputs_modifiable, u6);
    lemma_parse_lit(l6, u6b);
    lemma_rt_opthex(s.id, rest);
}

/// Parsing inverts rendering for the list half of a skeleton.
#[verifier::rlimit(100)]
proof fn lemma_rt_skel_lists(s: SkeletonV, rest: Seq<u8>)
    ensures
        parse_skel_lists(ser_skel_lists(s) + rest) == Some(((s.inputs, s.outputs), rest)),
{
    reveal(ser_skel_lists);
    reveal(parse_skel_lists);
    reveal_strlit(",\"inputs\":");
    reveal_strlit(",\"outputs\":");
    reveal_strlit("}");
    let l7 = lit_bytes(",\"inputs\":"@);
    let l8 = lit_bytes(",\"outputs\":"@);
    let l9 = lit_bytes("}"@);
    let u9 = l9 + rest;
    let u8b = ser_outputs(s.outputs) + u9;
    let u8a = l8 + u8b;
    let u7b = ser_inputs(s.inputs) + u8a;
    assert(ser_skel_lists(s) + rest =~= l7 + u7b);
    lemma_parse_lit(l7, u7b);
    lemma_rt_inputs(s.inputs, u8a);
    lemma_parse_lit(l8, u8b);
    lemma_rt_outputs(s.outputs, u9);
    lemma_parse_lit(l9, rest);
}

/// Parsing inverts rendering for skeletons.
pub proof fn lemma_rt_skel(s: SkeletonV, rest: Seq<u8>)
    ensures
        parse_skel(ser_skel(s) + rest) == Some((s, rest)),
{
    assert(ser_skel(s) + rest =~= ser_skel_core(s) + (ser_skel_lists(s) + rest));
    lemma_rt_skel_core(s, ser_skel_lists(s) + rest);
    lemma_rt_skel_lists(s, rest);
    assert(parse_skel(ser_skel(s) + rest) matches Some(t) && t.0 =~= s && t.1 == rest);
}

/// Appends the scalar half of a skeleton.
#[verifier::rlimit(100)]
fn write_skel_core(out: &mut Vec<u8>, s: &Skeleton)
    ensures
        final(out)@ == old(out)@ + ser_skel_core(s@),
{
    proof {
        reveal(ser_skel_core);
        reveal_strlit("{\"version\":\"");
        reveal_strlit("\",\"lockTime\":\"");
        reveal_strlit("\",\"fallbackLockTime\":");
        reveal_strlit(",\"inputsModifiable\":");
        reveal_strlit(",\"outputsModifiable\":");
        reveal_strlit(",\"id\":");
        lemma_pow16_vals();
    }
    write_lit(out, "{\"version\":\"");
    write_hexnum(out, s.version as u64, 4);
    write_lit(out, "\",\"lockTime\":\"");
    write_hexnum(out, s.lock_time, 16);
    write_lit(out, "\",\"fallbackLockTime\":");
    write_optnum(out, s.fallback_lock_time, 16);
    write_lit(out, ",\"inputsModifiable\":");
    write_bool(out, s.inputs_modifiable);
    write_lit(out, ",\"outputsModifiable\":");
    write_bool(out, s.outputs_modifiable);
    write_lit(out, ",\"id\":");
    write_opthex(out, &s.id);
    proof {
        assert(out@ =~= old(out)@ + ser_skel_core(s@));
    }
}

/// Appends the list half of a skeleton.
fn write_skel_lists(out: &mut Vec<u8>, s: &Skeleton)
    ensures
        final(out)@ == old(out)@ + ser_skel_lists(s@),
{
    proof {
        reveal(ser_skel_lists);
        reveal_strlit(",\"inputs\":");
        reveal_strlit(",\"outputs\":");
        reveal_strlit("}");
    }
    write_lit(out, ",\"inputs\":");
    write_inputs(out, &s.inputs);
    write_lit(out, ",\"outputs\":");
    write_outputs(out, &s.outputs);
    write_lit(out, "}");
    proof {
        assert(Seq::new(s.inputs@.len(), |i: int| s.inputs@[i]@) =~= views_of_inputs(s.inputs@));
        assert(Seq::new(s.outputs@.len(), |i: int| s.outputs@[i]@) =~= views_of_outputs(
            s.outputs@,
        ));
        assert(out@ =~= old(out)@ + ser_skel_lists(s@));
    }
}

/// Appends a rendered skeleton.
fn write_skel(out: &mut Vec<u8>, s: &Skeleton)
    ensures
        final(out)@ == old(out)@ + ser_skel(s@),
{
    write_skel_core(out, s);
    write_skel_lists(out, s);
    proof {
        assert(out@ =~= old(out)@ + ser_skel(s@));
    }
}

/// Parses the scalar half of a skeleton at `pos`.
#[verifier::rlimit(100)]
fn parse_skel_core_exec(b: &[u8], pos: usize) -> (r: Option<
    ((u16, u64, Option<u64>, bool, bool, Option<Vec<u8>>), usize),
>)
    requires
        pos <= b@.len(),
    ensures
        match parse_skel_core(b@.skip(pos as int)) {
            Some(t) => r matches Some(p) && p.0.0 == t.0.0 && p.0.1 == t.0.1 && p.0.2 == t.0.2
                && p.0.3 == t.0.3 && p.0.4 == t.0.4 && (match p.0.5 {
                Some(d) => t.0.5 matches Some(td) && d@ == td,
                None => t.0.5 is None,
            }) && pos <= p.1 <= b@.len() && b@.skip(p.1 as int) == t.1,
            None => r is None,
        },
{
    proof {
        reveal(parse_skel_core);
        reveal_strlit("{\"version\":\"");
        reveal_strlit("\",\"lockTime\":\"");
        reveal_strlit("\",\"fallbackLockTime\":");
        reveal_strlit(",\"inputsModifiable\":");
        reveal_strlit(",\"outputsModifiable\":");
        reveal_strlit(",\"id\":");
    }
    let p1 = match expect_lit(b, pos, "{\"version\":\"") {
        Some(np) => np,
        None => {
            return None;
        },
    };
    let (version, p2) = match parse_hexnum_exec(b, p1, 4) {
        Some(t) => t,
        None => {
            return None;
        },
    };
    let p3 = match expect_lit(b, p2, "\",\"lockTime\":\"") {
        Some(np) => np,
        None => {
            return None;
        },
    };
    let (lock_time, p4) = match parse_hexnum_exec(b, p3, 16) {
        Some(t) => t,
        None => {
            return None;
        },
    };
    let p5 = match expect_lit(b, p4, "\",\"fallbackLockTime\":") {
        Some(np) => np,
        None => {
            return None;
        },
    };
    let (fallback, p6) = match parse_optnum_exec(b, p5, 16) {
        Some(t) => t,
        None => {
            return None;
        },
    };
    let p7 = match expect_lit(b, p6, ",\"inputsModifiable\":") {
        Some(np) => np,
        None => {
            return None;
        },
    };
    let (im, p8) = match parse_bool_exec(b, p7) {
        Some(t) => t,
        None => {
            return None;
        },
    };
    let p9 = match expect_lit(b, p8, ",\"outputsModifiable\":") {
        Some(np) => np,
        None => {
            return None;
        },
    };
    let (om, p10) = match parse_bool_exec(b, p9) {
        Some(t) => t,
        None => {
            return None;
        },
    };
    let p11 = match expect_lit(b, p10, ",\"id\":") {
        Some(np) => np,
        None => {
            return None;
        },
    };
    let (id, p12) = match parse_opthex_exec(b, p11) {
        Some(t) => t,
        None => {
            return None;
        },
    };
    Some(((version as u16, lock_time, fallback, im, om, id), p12))
}

/// Parses the list half of a skeleton at `pos`.
fn parse_skel_lists_exec(b: &[u8], pos: usize) -> (r: Option<
    ((Vec<InputSlot>, Vec<OutputSlot>), usize),
>)
    requires
        pos <= b@.len(),
    ensures
        match parse_skel_lists(b@.skip(pos as int)) {
            Some(t) => r matches Some(p) && views_of_inputs(p.0.0@) == t.0.0 && views_of_outputs(
                p.0.1@,
            ) == t.0.1 && pos <= p.1 <= b@.len() && b@.skip(p.1 as int) == t.1,
            None => r is None,
        },
{
    proof {
        reveal(parse_skel_lists);
        reveal_strlit(",\"inputs\":");
        reveal_strlit(",\"outputs\":");
        reveal_strlit("}");
    }
    let p1 = match expect_lit(b, pos, ",\"inputs\":") {
        Some(np) => np,
        None => {
            return None;
        },
    };
    let (inputs, p2) = match parse_inputs_exec(b, p1) {
        Some(t) => t,
        None => {
            return None;
        },
    };
    let p3 = match expect_lit(b, p2, ",\"outputs\":") {
        Some(np) => np,
        None => {
            return None;
        },
    };
    let (outputs, p4) = match parse_outputs_exec(b, p3) {
        Some(t) => t,
        None => {
            return None;
        },
    };
    let p5 = match expect_lit(b, p4, "}") {
        Some(np) => np,
        None => {
            return None;
        },
    };
    Some(((inputs, outputs), p5))
}

/// Parses a skeleton at `pos`.
fn parse_skel_exec(b: &[u8], pos: usize) -> (r: Option<(Skeleton, usize)>)
    requires
        pos <= b@.len(),
    ensures
        match parse_skel(b@.skip(pos as int)) {
            Some(t) => r matches Some(p) && p.0@ == t.0 && pos <= p.1 <= b@.len() && b@.skip(
                p.1 as int,
            ) == t.1,
            None => r is None,
        },
{
    let (core, p1) = match parse_skel_core_exec(b, pos) {
        Some(t) => t,
        None => {
            return None;
        },
    };
    let (lists, p2) = match parse_skel_lists_exec(b, p1) {
        Some(t) => t,
        None => {
            return None;
        },
    };
    let (version, lock_time, fallback, im, om, id) = core;
    let (inputs, outputs) = lists;
    let skel = Skeleton {
        version,
        lock_time,
        fallback_lock_time: fallback,
        inputs_modifiable: im,
        outputs_modifiable: om,
        id,
        inputs,
        outputs,
    };
    proof {
        assert(Seq::new(skel.inputs@.len(), |i: int| skel.inputs@[i]@) =~= views_of_inputs(
            skel.inputs@,
        ));
        assert(Seq::new(skel.outputs@.len(), |i: int| skel.outputs@[i]@) =~= views_of_outputs(
            skel.outputs@,
        ));
        assert(skel@ =~~= parse_skel(b@.skip(pos as int)).unwrap().0);
    }
    Some((skel, p2))
}

/// The tag under which a role is serialized.
pub open spec fn role_tag(r: crate::pskt::Role) -> Seq<char> {
    match r {
        crate::pskt::Role::NoOp => "NoOp"@,
        crate::pskt::Role::Creator => "Creator"@,
        crate::pskt::Role::Constructor => "Constructor"@,
        crate::pskt::Role::Updater => "Updater"@,
        crate::pskt::Role::Signer => "Signer"@,
        crate::pskt::Role::Combiner => "Combiner"@,
        crate::pskt::Role::Finalizer => "Finalizer"@,
        crate::pskt::Role::Extractor => "Extractor"@,
    }
}

/// Renders a role tag.
pub open spec fn ser_role(r: crate::pskt::Role) -> Seq<u8> {
    lit_bytes(role_tag(r))
}

/// Parses a role tag, dispatching on its first letters.
pub open spec fn parse_role(b: Seq<u8>) -> Option<(crate::pskt::Role, Seq<u8>)> {
    if b.len() >= 1 && b[0] == 'N' as u8 {
        match parse_lit(b, lit_bytes("NoOp"@)) {
            Some(rem) => Some((crate::pskt::Role::NoOp, rem)),
            None => None,
        }
    } else if b.len() >= 2 && b[0] == 'C' as u8 && b[1] == 'r' as u8 {
        match parse_lit(b, lit_bytes("Creator"@)) {
            Some(rem) => Some((crate::pskt::Role::Creator, rem)),
            None => None,
        }
    } else if b.len() >= 3 && b[0] == 'C' as u8 && b[1] == 'o' as u8 && b[2] == 'n' as u8 {
        match parse_lit(b, lit_bytes("Constructor"@)) {
            Some(rem) => Some((crate::pskt::Role::Constructor, rem)),
            None => None,
        }
    } else if b.len() >= 3 && b[0] == 'C' as u8 && b[1] == 'o' as u8 && b[2] == 'm' as u8 {
        match parse_lit(b, lit_bytes("Combiner"@)) {
            Some(rem) => Some((crate::pskt::Role::Combiner, rem)),
            None => None,
        }
    } else if b.len() >= 1 && b[0] == 'U' as u8 {
        match parse_lit(b, lit_bytes("Updater"@)) {
            Some(rem) => Some((crate::pskt::Role::Updater, rem)),
            None => None,
        }
    } else if b.len() >= 1 && b[0] == 'S' as u8 {
        match parse_lit(b, lit_bytes("Signer"@)) {
            Some(rem) => Some((crate::pskt::Role::Signer, rem)),
            None => None,
        }
    } else if b.len() >= 1 && b[0] == 'F' as u8 {
        match parse_lit(b, lit_bytes("Finalizer"@)) {
            Some(rem) => Some((crate::pskt::Role::Finalizer, rem)),
            None => None,
        }
    } else if b.len() >= 1 && b[0] == 'E' as u8 {
        match parse_lit(b, lit_bytes("Extractor"@)) {
            Some(rem) => Some((crate::pskt::Role::Extractor, rem)),
            None => None,
        }
    } else {
        None
    }
}

/// Parsing inverts rendering for role tags.
pub proof fn lemma_rt_role(r: crate::pskt::Role, rest: Seq<u8>)
    ensures
        parse_role(ser_role(r) + rest) == Some((r, rest)),
{
    reveal_strlit("NoOp");
    reveal_strlit("Creator");
    reveal_strlit("Constructor");
    reveal_strlit("Updater");
    reveal_strlit("Signer");
    reveal_strlit("Combiner");
    reveal_strlit("Finalizer");
    reveal_strlit("Extractor");
    let s = ser_role(r) + rest;
    match r {
        crate::pskt::Role::NoOp => {
            assert(s[0] == 'N' as u8);
            lemma_parse_lit(lit_bytes("NoOp"@), rest);
        },
        crate::pskt::Role::Creator => {
            assert(s[0] == 'C' as u8 && s[1] == 'r' as u8);
            lemma_parse_lit(lit_bytes("Creator"@), rest);
        },
        crate::pskt::Role::Constructor => {
            assert(s[0] == 'C' as u8 && s[1] == 'o' as u8 && s[2] == 'n' as u8);
            lemma_parse_lit(lit_bytes("Constructor"@), rest);
        },
        crate::pskt::Role::Updater => {
            assert(s[0] == 'U' as u8);
            lemma_parse_lit(lit_bytes("Updater"@), rest);
        },
        crate::pskt::Role::Signer => {
            assert(s[0] == 'S' as u8);
            lemma_parse_lit(lit_bytes("Signer"@), rest);
        },
        crate::pskt::Role::Combiner => {
            assert(s[0] == 'C' as u8 && s[1] == 'o' as u8 && s[2] == 'm' as u8);
            lemma_parse_lit(lit_bytes("Combiner"@), rest);
        },
        crate::pskt::Role::Finalizer => {
            assert(s[0] == 'F' as u8);
            lemma_parse_lit(lit_bytes("Finalizer"@), rest);
        },
        crate::pskt::Role::Extractor => {
            assert(s[0] == 'E' as u8);
            lemma_parse_lit(lit_bytes("Extractor"@), rest);
        },
    }
}

/// Renders the payload body of a state: `null` for the uninitialized
/// transitional state, the skeleton otherwise.
pub open spec fn ser_body(p: crate::pskt::PsktV) -> Seq<u8> {
    match p {
        crate::pskt::PsktV::NoOp(None) => lit_bytes("null"@),
        crate::pskt::PsktV::NoOp(Some(s)) => ser_skel(s),
        crate::pskt::PsktV::Creator(s) => ser_skel(s),
        crate::pskt::PsktV::Constructor(s) => ser_skel(s),
        crate::pskt::PsktV::Updater(s) => ser_skel(s),
        crate::pskt::PsktV::Signer(s) => ser_skel(s),
        crate::pskt::PsktV::Combiner(s) => ser_skel(s),
        crate::pskt::PsktV::Finalizer(s) => ser_skel(s),
        crate::pskt::PsktV::Extractor(s) => ser_skel(s),
    }
}

/// Renders a role-tagged state.
pub open spec fn ser_state(p: crate::pskt::PsktV) -> Seq<u8> {
    lit_bytes("{\"state\":\""@) + ser_role(crate::pskt::role_of(p)) + lit_bytes(
        "\",\"payload\":"@,
    ) + ser_body(p) + lit_bytes("}"@)
}

/// Parses the payload body for a given role.
pub open spec fn parse_state_body(r: crate::pskt::Role, b: Seq<u8>) -> Option<
    (crate::pskt::PsktV, Seq<u8>),
> {
    match r {
        crate::pskt::Role::NoOp => if b.len() >= 1 && b[0] == 'n' as u8 {
            match parse_lit(b, lit_bytes("null"@)) {
                Some(rem) => Some((crate::pskt::PsktV::NoOp(None), rem)),
                None => None,
            }
        } else {
            match parse_skel(b) {
                Some(t) => Some((crate::pskt::PsktV::NoOp(Some(t.0)), t.1)),
                None => None,
            }
        },
        crate::pskt::Role::Creator => match parse_skel(b) {
            Some(t) => Some((crate::pskt::PsktV::Creator(t.0), t.1)),
            None => None,
        },
        crate::pskt::Role::Constructor => match parse_skel(b) {
            Some(t) => Some((crate::pskt::PsktV::Constructor(t.0), t.1)),
            None => None,
        },
        crate::pskt::Role::Updater => match parse_skel(b) {
            Some(t) => Some((crate::pskt::PsktV::Updater(t.0), t.1)),
            None => None,
        },
        crate::pskt::Role::Signer => match parse_skel(b) {
            Some(t) => Some((crate::pskt::PsktV::Signer(t.0), t.1)),
            None => None,
        },
        crate::pskt::Role::Combiner => match parse_skel(b) {
            Some(t) => Some((crate::pskt::PsktV::Combiner(t.0), t.1)),
            None => None,
        },
        crate::pskt::Role::Finalizer => match parse_skel(b) {
            Some(t) => Some((crate::pskt::PsktV::Finalizer(t.0), t.1)),
            None => None,
        },
        crate::pskt::Role::Extractor => match parse_skel(b) {
            Some(t) => Some((crate::pskt::PsktV::Extractor(t.0), t.1)),
            None => None,
        },
    }
}

/// Parses a role-tagged state.
pub open spec fn parse_state(b: Seq<u8>) -> Option<(crate::pskt::PsktV, Seq<u8>)> {
    match parse_lit(b, lit_bytes("{\"state\":\""@)) {
        Some(r1) => match parse_role(r1) {
            Some(tr) => match parse_lit(tr.1, lit_bytes("\",\"payload\":"@)) {
                Some(r2) => match parse_state_body(tr.0, r2) {
                    Some(tb) => match parse_lit(tb.1, lit_bytes("}"@)) {
                        Some(rem) => Some((tb.0, rem)),
                        None => None,
                    },
                    None => None,
                },
                None => None,
            },
            None => None,
        },
        None => None,
    }
}

/// Parses a whole payload: a role-tagged state with nothing after it.
pub open spec fn parse_payload_spec(b: Seq<u8>) -> Option<crate::pskt::PsktV> {
    match parse_state(b) {
        Some(t) => if t.1.len() == 0 {
            Some(t.0)
        } else {
            None
        },
        None => None,
    }
}

/// Parsing inverts rendering for role-tagged states.
pub proof fn lemma_rt_state(p: crate::pskt::PsktV, rest: Seq<u8>)
    ensures
        parse_state(ser_state(p) + rest) == Some((p, rest)),
{
    reveal_strlit("{\"state\":\"");
    reveal_strlit("\",\"payload\":");
    reveal_strlit("null");
    reveal_strlit("}");
    let l1 = lit_bytes("{\"state\":\""@);
    let l2 = lit_bytes("\",\"payload\":"@);
    let l3 = lit_bytes("}"@);
    let u3 = l3 + rest;
    let u2b = ser_body(p) + u3;
    let u2 = l2 + u2b;
    let u1b = ser_role(crate::pskt::role_of(p)) + u2;
    assert(ser_state(p) + rest =~= l1 + u1b);
    lemma_parse_lit(l1, u1b);
    lemma_rt_role(crate::pskt::role_of(p), u2);
    lemma_parse_lit(l2, u2b);
    match p {
        crate::pskt::PsktV::NoOp(None) => {
            assert(u2b =~= lit_bytes("null"@) + u3);
            assert(u2b[0] == 'n' as u8);
            lemma_parse_lit(lit_bytes("null"@), u3);
        },
        crate::pskt::PsktV::NoOp(Some(s)) => {
            assert(u2b =~= ser_skel(s) + u3);
            lemma_ser_skel_head(s);
            assert(u2b[0] != 'n' as u8);
            lemma_rt_skel(s, u3);
        },
        crate::pskt::PsktV::Creator(s) => {
            assert(u2b =~= ser_skel(s) + u3);
            lemma_rt_skel(s, u3);
        },
        crate::pskt::PsktV::Constructor(s) => {
            assert(u2b =~= ser_skel(s) + u3);
            lemma_rt_skel(s, u3);
        },
        crate::pskt::PsktV::Updater(s) => {
            assert(u2b =~= ser_skel(s) + u3);
            lemma_rt_skel(s, u3);
        },
        crate::pskt::PsktV::Signer(s) => {
            assert(u2b =~= ser_skel(s) + u3);
            lemma_rt_skel(s, u3);
        },
        crate::pskt::PsktV::Combiner(s) => {
            assert(u2b =~= ser_skel(s) + u3);
            lemma_rt_skel(s, u3);
        },
        crate::pskt::PsktV::Finalizer(s) => {
            assert(u2b =~= ser_skel(s) + u3);
            lemma_rt_skel(s, u3);
        },
        crate::pskt::PsktV::Extractor(s) => {
            assert(u2b =~= ser_skel(s) + u3);
            lemma_rt_skel(s, u3);
        },
    }
    lemma_parse_lit(l3, rest);
}

/// The round trip: parsing a rendered state reproduces the state's role
/// and skeleton content exactly, for every role variant.
pub proof fn lemma_round_trip(p: crate::pskt::PsktV)
    ensures
        parse_payload_spec(ser_state(p)) == Some(p),
{
    assert(ser_state(p) =~= ser_state(p) + Seq::<u8>::empty());
    lemma_rt_state(p, Seq::<u8>::empty());
}

/// Appends the rendered role tag of a state.
fn write_role(out: &mut Vec<u8>, p: &crate::pskt::Pskt)
    ensures
        final(out)@ == old(out)@ + ser_role(crate::pskt::role_of(p@)),
{
    proof {
        reveal_strlit("NoOp");
        reveal_strlit("Creator");
        reveal_strlit("Constructor");
        reveal_strlit("Updater");
        reveal_strlit("Signer");
        reveal_strlit("Combiner");
        reveal_strlit("Finalizer");
        reveal_strlit("Extractor");
    }
    match p {
        crate::pskt::Pskt::NoOp(_) => write_lit(out, "NoOp"),
        crate::pskt::Pskt::Creator(_) => write_lit(out, "Creator"),
        crate::pskt::Pskt::Constructor(_) => write_lit(out, "Constructor"),
        crate::pskt::Pskt::Updater(_) => write_lit(out, "Updater"),
        crate::pskt::Pskt::Signer(_) => write_lit(out, "Signer"),
        crate::pskt::Pskt::Combiner(_) => write_lit(out, "Combiner"),
        crate::pskt::Pskt::Finalizer(_) => write_lit(out, "Finalizer"),
        crate::pskt::Pskt::Extractor(_) => write_lit(out, "Extractor"),
    }
}

/// Appends the rendered payload body of a state.
fn write_body(out: &mut Vec<u8>, p: &crate::pskt::Pskt)
    ensures
        final(out)@ == old(out)@ + ser_body(p@),
{
    proof {
        reveal_strlit("null");
    }
    match p {
        crate::pskt::Pskt::NoOp(None) => write_lit(out, "null"),
        crate::pskt::Pskt::NoOp(Some(s)) => write_skel(out, s),
        crate::pskt::Pskt::Creator(s) => write_skel(out, s),
        crate::pskt::Pskt::Constructor(s) => write_skel(out, s),
        crate::pskt::Pskt::Updater(s) => write_skel(out, s),
        crate::pskt::Pskt::Signer(s) => write_skel(out, s),
        crate::pskt::Pskt::Combiner(s) => write_skel(out, s),
        crate::pskt::Pskt::Finalizer(s) => write_skel(out, s),
        crate::pskt::Pskt::Extractor(s) => write_skel(out, s),
    }
}

/// Parses a role tag at `pos`.
fn parse_role_exec(b: &[u8], pos: usize) -> (r: Option<(crate::pskt::Role, usize)>)
    requires
        pos <= b@.len(),
    ensures
        match parse_role(b@.skip(pos as int)) {
            Some(t) => r matches Some(p) && p.0 == t.0 && pos <= p.1 <= b@.len() && b@.skip(
                p.1 as int,
            ) == t.1,
            None => r is None,
        },
{
    proof {
        reveal_strlit("NoOp");
        reveal_strlit("Creator");
        reveal_strlit("Constructor");
        reveal_strlit("Updater");
        reveal_strlit("Signer");
        reveal_strlit("Combiner");
        reveal_strlit("Finalizer");
        reveal_strlit("Extractor");
        if pos < b@.len() {
            assert(b@.skip(pos as int)[0] == b@[pos as int]);
        }
        if pos + 1 < b@.len() {
            assert(b@.skip(pos as int)[1] == b@[pos as int + 1]);
        }
        if pos + 2 < b@.len() {
            assert(b@.skip(pos as int)[2] == b@[pos as int + 2]);
        }
    }
    let n = b.len();
    if pos < n && b[pos] == 78 {
        match expect_lit(b, pos, "NoOp") {
            Some(np) => Some((crate::pskt::Role::NoOp, np)),
            None => None,
        }
    } else if pos < n && b[pos] == 67 && pos + 1 < n && b[pos + 1] == 114 {
        match expect_lit(b, pos, "Creator") {
            Some(np) => Some((crate::pskt::Role::Creator, np)),
            None => None,
        }
    } else if pos < n && b[pos] == 67 && pos + 1 < n && b[pos + 1] == 111 && pos + 2 < n && b[pos + 2] == 110 {
        match expect_lit(b, pos, "Constructor") {
            Some(np) => Some((crate::pskt::Role::Constructor, np)),
            None => None,
        }
    } else if pos < n && b[pos] == 67 && pos + 1 < n && b[pos + 1] == 111 && pos + 2 < n && b[pos + 2] == 109 {
        match expect_lit(b, pos, "Combiner") {
            Some(np) => Some((crate::pskt::Role::Combiner, np)),
            None => None,
        }
    } else if pos < n && b[pos] == 85 {
        match expect_lit(b, pos, "Updater") {
            Some(np) => Some((crate::pskt::Role::Updater, np)),
            None => None,
        }
    } else if pos < n && b[pos] == 83 {
        match expect_lit(b, pos, "Signer") {
            Some(np) => Some((crate::pskt::Role::Signer, np)),
            None => None,
        }
    } else if pos < n && b[pos] == 70 {
        match expect_lit(b, pos, "Finalizer") {
            Some(np) => Some((crate::pskt::Role::Finalizer, np)),
            None => None,
        }
    } else if pos < n && b[pos] == 69 {
        match expect_lit(b, pos, "Extractor") {
            Some(np) => Some((crate::pskt::Role::Extractor, np)),
            None => None,
        }
    } else {
        None
    }
}

/// Parses a role-tagged state at `pos`.
fn parse_state_exec(b: &[u8], pos: usize) -> (r: Option<(crate::pskt::Pskt, usize)>)
    requires
        pos <= b@.len(),
    ensures
        match parse_state(b@.skip(pos as int)) {
            Some(t) => r matches Some(p) && p.0@ == t.0 && pos <= p.1 <= b@.len() && b@.skip(
                p.1 as int,
            ) == t.1,
            None => r is None,
        },
{
    proof {
        reveal_strlit("{\"state\":\"");
        reveal_strlit("\",\"payload\":");
        reveal_strlit("null");
        reveal_strlit("}");
    }
    let p1 = match expect_lit(b, pos, "{\"state\":\"") {
        Some(np) => np,
        None => {
            return None;
        },
    };
    let (role, p2) = match parse_role_exec(b, p1) {
        Some(t) => t,
        None => {
            return None;
        },
    };
    let p3 = match expect_lit(b, p2, "\",\"payload\":") {
        Some(np) => np,
        None => {
            return None;
        },
    };
    let (state, p4): (crate::pskt::Pskt, usize) = match role {
        crate::pskt::Role::NoOp => {
            if p3 < b.len() && b[p3] == 110 {
                proof {
                    assert(b@.skip(p3 as int)[0] == 'n' as u8);
                }
                match expect_lit(b, p3, "null") {
                    Some(np) => (crate::pskt::Pskt::NoOp(None), np),
                    None => {
                        return None;
                    },
                }
            } else {
                proof {
                    if p3 < b@.len() {
                        assert(b@.skip(p3 as int)[0] != 'n' as u8);
                    }
                }
                match parse_skel_exec(b, p3) {
                    Some(t) => (crate::pskt::Pskt::NoOp(Some(t.0)), t.1),
                    None => {
                        return None;
                    },
                }
            }
        },
        crate::pskt::Role::Creator => {
            match parse_skel_exec(b, p3) {
                Some(t) => (crate::pskt::Pskt::Creator(t.0), t.1),
                None => {
                    return None;
                },
            }
        },
        crate::pskt::Role::Constructor => {
            match parse_skel_exec(b, p3) {
                Some(t) => (crate::pskt::Pskt::Constructor(t.0), t.1),
                None => {
                    return None;
                },
            }
        },
        crate::pskt::Role::Updater => {
            match parse_skel_exec(b, p3) {
                Some(t) => (crate::pskt::Pskt::Updater(t.0), t.1),
                None => {
                    return None;
                },
            }
        },
        crate::pskt::Role::Signer => {
            match parse_skel_exec(b, p3) {
                Some(t) => (crate::pskt::Pskt::Signer(t.0), t.1),
                None => {
                    return None;
                },
            }
        },
        crate::pskt::Role::Combiner => {
            match parse_skel_exec(b, p3) {
                Some(t) => (crate::pskt::Pskt::Combiner(t.0), t.1),
                None => {
                    return None;
                },
            }
        },
        crate::pskt::Role::Finalizer => {
            match parse_skel_exec(b, p3) {
                Some(t) => (crate::pskt::Pskt::Finalizer(t.0), t.1),
                None => {
                    return None;
                },
            }
        },
        crate::pskt::Role::Extractor => {
            match parse_skel_exec(b, p3) {
                Some(t) => (crate::pskt::Pskt::Extractor(t.0), t.1),
                None => {
                    return None;
                },
            }
        },
    };
    proof {
        assert(parse_state_body(role, b@.skip(p3 as int)) matches Some(t) && state@ == t.0
            && b@.skip(p4 as int) == t.1);
    }
    match expect_lit(b, p4, "}") {
        Some(np) => Some((state, np)),
        None => None,
    }
}

/// The three accepted forms of constructor input: nothing, a previously
/// serialized textual payload, or an existing transaction already
/// converted to a skeleton.
pub enum Payload {
    Empty,
    Text(Vec<u8>),
    Transaction(Skeleton),
}

impl crate::pskt::Pskt {
    /// Renders this state as its canonical textual payload, for transport
    /// between parties.
    pub fn serialize(&self) -> (r: Vec<u8>)
        ensures
            r@ == ser_state(self@),
    {
        proof {
            reveal_strlit("{\"state\":\"");
            reveal_strlit("\",\"payload\":");
            reveal_strlit("}");
        }
        let mut out: Vec<u8> = Vec::new();
        write_lit(&mut out, "{\"state\":\"");
        write_role(&mut out, self);
        write_lit(&mut out, "\",\"payload\":");
        write_body(&mut out, self);
        write_lit(&mut out, "}");
        proof {
            assert(out@ =~= ser_state(self@));
        }
        out
    }

    /// Builds a machine from one of the accepted constructor inputs:
    /// nothing yields a fresh creator; a serialized payload is parsed
    /// back into the state it rendered; an imported skeleton waits in the
    /// transitional state. A payload that parses to nothing, or whose
    /// content is malformed, is rejected.
    pub fn new(payload: Payload) -> (r: Result<crate::pskt::Pskt, crate::error::Error>)
        ensures
            match payload {
                Payload::Empty => r matches Ok(p) && p@ == crate::pskt::PsktV::Creator(
                    SkeletonV::empty(),
                ),
                Payload::Text(b) => match parse_payload_spec(b@) {
                    Some(pv) => if pv.wf() {
                        r matches Ok(p) && p@ == pv
                    } else {
                        r matches Err(e) && e@ == crate::error::ErrorV::InvalidPayload
                    },
                    None => r matches Err(e) && e@ == crate::error::ErrorV::InvalidPayload,
                },
                Payload::Transaction(skel) => if skel@.wf() {
                    r matches Ok(p) && p@ == crate::pskt::PsktV::NoOp(Some(skel@))
                } else {
                    r matches Err(e) && e@
                        == crate::error::ErrorV::ConstructorConversionError
                },
            },
    {
        match payload {
            Payload::Empty => Ok(crate::pskt::Pskt::fresh()),
            Payload::Transaction(skel) => {
                if skel.is_well_formed() {
                    Ok(crate::pskt::Pskt::NoOp(Some(skel)))
                } else {
                    Err(crate::error::Error::ConstructorConversionError)
                }
            },
            Payload::Text(text) => {
                proof {
                    assert(text@.skip(0) =~= text@);
                }
                match parse_state_exec(text.as_slice(), 0) {
                    Some((p, np)) => {
                        if np == text.len() {
                            proof {
                                assert(text@.skip(np as int).len() == 0);
                            }
                            if p.is_well_formed() {
                                Ok(p)
                            } else {
                                Err(crate::error::Error::InvalidPayload)
                            }
                        } else {
                            proof {
                                assert(text@.skip(np as int).len() > 0);
                            }
                            Err(crate::error::Error::InvalidPayload)
                        }
                    },
                    None => Err(crate::error::Error::InvalidPayload),
                }
            },
        }
    }
}

} // verus!
