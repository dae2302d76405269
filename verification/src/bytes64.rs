//! URL-safe base64 (no padding), the textual carrier for token segments.
//!
//! Encoding is specified byte-for-byte; decoding is specified as its exact
//! inverse, so a decoded segment pins down the bytes that produced it.
use vstd::prelude::*;

verus! {

/// The URL-safe alphabet: `A`-`Z`, `a`-`z`, `0`-`9`, `-`, `_`.
pub open spec fn b64_char(v: u8) -> u8 {
    if v < 26 {
        (65 + v) as u8
    } else if v < 52 {
        (97 + (v - 26)) as u8
    } else if v < 62 {
        (48 + (v - 52)) as u8
    } else if v == 62 {
        45u8
    } else {
        95u8
    }
}

/// Inverse of the alphabet: `None` for a byte outside it.
pub open spec fn b64_val(c: u8) -> Option<u8> {
    if 65 <= c && c <= 90 {
        Some((c - 65) as u8)
    } else if 97 <= c && c <= 122 {
        Some((c - 97 + 26) as u8)
    } else if 48 <= c && c <= 57 {
        Some((c - 48 + 52) as u8)
    } else if c == 45 {
        Some(62u8)
    } else if c == 95 {
        Some(63u8)
    } else {
        None
    }
}

/// URL-safe base64 without padding, grouping the input three bytes at a time.
pub open spec fn b64_encode(s: Seq<u8>) -> Seq<u8>
    decreases s.len(),
{
    if s.len() == 0 {
        Seq::empty()
    } else if s.len() == 1 {
        seq![b64_char((s[0] / 4) as u8), b64_char(((s[0] % 4) * 16) as u8)]
    } else if s.len() == 2 {
        seq![
            b64_char((s[0] / 4) as u8),
            b64_char(((s[0] % 4) * 16 + s[1] / 16) as u8),
            b64_char(((s[1] % 16) * 4) as u8),
        ]
    } else {
        seq![
            b64_char((s[0] / 4) as u8),
            b64_char(((s[0] % 4) * 16 + s[1] / 16) as u8),
            b64_char(((s[1] % 16) * 4 + s[2] / 64) as u8),
            b64_char((s[2] % 64) as u8),
        ] + b64_encode(s.skip(3))
    }
}

/// Decoding, grouping the text four characters at a time; the exact inverse
/// of `b64_encode` on its range.
pub open spec fn b64_decode(s: Seq<u8>) -> Option<Seq<u8>>
    decreases s.len(),
{
    if s.len() == 0 {
        Some(Seq::empty())
    } else if s.len() == 1 {
        None
    } else if s.len() == 2 {
        match (b64_val(s[0]), b64_val(s[1])) {
            (Some(a), Some(b)) => Some(seq![(a * 4 + b / 16) as u8]),
            _ => None,
        }
    } else if s.len() == 3 {
        match (b64_val(s[0]), b64_val(s[1]), b64_val(s[2])) {
            (Some(a), Some(b), Some(c)) => Some(
                seq![(a * 4 + b / 16) as u8, ((b % 16) * 16 + c / 4) as u8],
            ),
            _ => None,
        }
    } else {
        match (b64_val(s[0]), b64_val(s[1]), b64_val(s[2]), b64_val(s[3])) {
            (Some(a), Some(b), Some(c), Some(d)) => match b64_decode(s.skip(4)) {
                Some(rest) => Some(
                    seq![
                        (a * 4 + b / 16) as u8,
                        ((b % 16) * 16 + c / 4) as u8,
                        ((c % 4) * 64 + d) as u8,
                    ] + rest,
                ),
                None => None,
            },
            _ => None,
        }
    }
}

/// The alphabet round-trips through its inverse.
proof fn lemma_char_val(v: u8)
    requires
        v < 64,
    ensures
        b64_val(b64_char(v)) == Some(v),
{
}

/// Every encoded byte lies in the alphabet (in particular, none is a dot).
pub proof fn lemma_b64_encode_in_alphabet(s: Seq<u8>)
    ensures
        forall|i: int| 0 <= i < b64_encode(s).len() ==> (#[trigger] b64_val(b64_encode(s)[i])) is Some,
    decreases s.len(),
{
    if s.len() == 0 {
    } else if s.len() == 1 {
        lemma_char_val((s[0] / 4) as u8);
        lemma_char_val(((s[0] % 4) * 16) as u8);
    } else if s.len() == 2 {
        lemma_char_val((s[0] / 4) as u8);
        lemma_char_val(((s[0] % 4) * 16 + s[1] / 16) as u8);
        lemma_char_val(((s[1] % 16) * 4) as u8);
    } else {
        lemma_char_val((s[0] / 4) as u8);
        lemma_char_val(((s[0] % 4) * 16 + s[1] / 16) as u8);
        lemma_char_val(((s[1] % 16) * 4 + s[2] / 64) as u8);
        lemma_char_val((s[2] % 64) as u8);
        lemma_b64_encode_in_alphabet(s.skip(3));
        assert forall|i: int| 0 <= i < b64_encode(s).len() implies (#[trigger] b64_val(
            b64_encode(s)[i],
        )) is Some by {
            if i >= 4 {
                assert(b64_encode(s)[i] == b64_encode(s.skip(3))[i - 4]);
            }
        }
    }
}

/// Decoding undoes encoding exactly.
pub proof fn lemma_b64_round_trip(s: Seq<u8>)
    ensures
        b64_decode(b64_encode(s)) == Some(s),
    decreases s.len(),
{
    if s.len() == 0 {
        assert(b64_decode(b64_encode(s)) == Some(s));
    } else if s.len() == 1 {
        let a = (s[0] / 4) as u8;
        let b = ((s[0] % 4) * 16) as u8;
        lemma_char_val(a);
        lemma_char_val(b);
        assert(a * 4 + b / 16 == s[0]);
        assert(b64_decode(b64_encode(s))->Some_0 =~= s);
    } else if s.len() == 2 {
        let a = (s[0] / 4) as u8;
        let b = ((s[0] % 4) * 16 + s[1] / 16) as u8;
        let c = ((s[1] % 16) * 4) as u8;
        lemma_char_val(a);
        lemma_char_val(b);
        lemma_char_val(c);
        assert(a * 4 + b / 16 == s[0]);
        assert((b % 16) * 16 + c / 4 == s[1]);
        assert(b64_decode(b64_encode(s))->Some_0 =~= s);
    } else {
        let a = (s[0] / 4) as u8;
        let b = ((s[0] % 4) * 16 + s[1] / 16) as u8;
        let c = ((s[1] % 16) * 4 + s[2] / 64) as u8;
        let d = (s[2] % 64) as u8;
        lemma_char_val(a);
        lemma_char_val(b);
        lemma_char_val(c);
        lemma_char_val(d);
        lemma_b64_round_trip(s.skip(3));
        let e = b64_encode(s);
        assert(e == seq![b64_char(a), b64_char(b), b64_char(c), b64_char(d)] + b64_encode(
            s.skip(3),
        ));
        assert(e.len() >= 4);
        assert(e.skip(4) =~= b64_encode(s.skip(3)));
        assert(a * 4 + b / 16 == s[0]);
        assert((b % 16) * 16 + c / 4 == s[1]);
        assert((c % 4) * 64 + d == s[2]);
        assert(b64_decode(e)->Some_0 =~= s);
    }
}

/// The alphabet byte for a six-bit value.
fn enc_char(v: u8) -> (c: u8)
    requires
        v < 64,
    ensures
        c == b64_char(v),
{
    if v < 26 {
        65 + v
    } else if v < 52 {
        97 + (v - 26)
    } else if v < 62 {
        48 + (v - 52)
    } else if v == 62 {
        45
    } else {
        95
    }
}

/// The six-bit value of an alphabet byte, or `None` outside the alphabet.
fn dec_char(c: u8) -> (v: Option<u8>)
    ensures
        v == b64_val(c),
{
    if 65 <= c && c <= 90 {
        Some(c - 65)
    } else if 97 <= c && c <= 122 {
        Some(c - 97 + 26)
    } else if 48 <= c && c <= 57 {
        Some(c - 48 + 52)
    } else if c == 45 {
        Some(62)
    } else if c == 95 {
        Some(63)
    } else {
        None
    }
}

/// Encodes `s` as URL-safe base64 without padding.
pub fn b64url_encode(s: &[u8]) -> (out: Vec<u8>)
    ensures
        out@ == b64_encode(s@),
{
    let mut out: Vec<u8> = Vec::new();
    let mut i: usize = 0;
    proof {
        assert(s@.skip(0) =~= s@);
        assert(out@ + b64_encode(s@) =~= b64_encode(s@));
    }
    while s.len() - i >= 3
        invariant
            i <= s.len(),
            b64_encode(s@) == out@ + b64_encode(s@.skip(i as int)),
        decreases s.len() - i,
    {
        let b0 = s[i];
        let b1 = s[i + 1];
        let b2 = s[i + 2];
        proof {
            assert(s@.skip(i as int)[0] == b0);
            assert(s@.skip(i as int)[1] == b1);
            assert(s@.skip(i as int)[2] == b2);
            assert(s@.skip(i as int).skip(3) =~= s@.skip(i + 3));
        }
        out.push(enc_char(b0 / 4));
        out.push(enc_char((b0 % 4) * 16 + b1 / 16));
        out.push(enc_char((b1 % 16) * 4 + b2 / 64));
        out.push(enc_char(b2 % 64));
        proof {
            assert(b64_encode(s@) =~= out@ + b64_encode(s@.skip(i + 3)));
        }
        i = i + 3;
    }
    if s.len() - i == 1 {
        let b0 = s[i];
        proof {
            assert(s@.skip(i as int)[0] == b0);
            assert(s@.skip(i as int).len() == 1);
        }
        out.push(enc_char(b0 / 4));
        out.push(enc_char((b0 % 4) * 16));
        proof {
            assert(out@ =~= b64_encode(s@));
        }
    } else if s.len() - i == 2 {
        let b0 = s[i];
        let b1 = s[i + 1];
        proof {
            assert(s@.skip(i as int)[0] == b0);
            assert(s@.skip(i as int)[1] == b1);
            assert(s@.skip(i as int).len() == 2);
        }
        out.push(enc_char(b0 / 4));
        out.push(enc_char((b0 % 4) * 16 + b1 / 16));
        out.push(enc_char((b1 % 16) * 4));
        proof {
            assert(out@ =~= b64_encode(s@));
        }
    } else {
        proof {
            assert(s@.skip(i as int).len() == 0);
            assert(out@ =~= b64_encode(s@));
        }
    }
    out
}

/// Relates a partial decode to the whole: what the remaining input decides.
spec fn decode_joins(whole: Seq<u8>, done: Seq<u8>, rest: Seq<u8>) -> bool {
    match b64_decode(rest) {
        Some(t) => b64_decode(whole) == Some(done + t),
        None => b64_decode(whole) is None,
    }
}

/// Decodes URL-safe unpadded base64, `None` on any malformed input.
pub fn b64url_decode(s: &[u8]) -> (out: Option<Vec<u8>>)
    ensures
        match out {
            Some(v) => b64_decode(s@) == Some(v@),
            None => b64_decode(s@) is None,
        },
{
    let mut out: Vec<u8> = Vec::new();
    let mut i: usize = 0;
    proof {
        assert(s@.skip(0) =~= s@);
        if b64_decode(s@) is Some {
            assert(out@ + b64_decode(s@)->Some_0 =~= b64_decode(s@)->Some_0);
        }
    }
    while s.len() - i >= 4
        invariant
            i <= s.len(),
            decode_joins(s@, out@, s@.skip(i as int)),
        decreases s.len() - i,
    {
        let v0 = dec_char(s[i]);
        let v1 = dec_char(s[i + 1]);
        let v2 = dec_char(s[i + 2]);
        let v3 = dec_char(s[i + 3]);
        proof {
            assert(s@.skip(i as int)[0] == s@[i as int]);
            assert(s@.skip(i as int)[1] == s@[i + 1]);
            assert(s@.skip(i as int)[2] == s@[i + 2]);
            assert(s@.skip(i as int)[3] == s@[i + 3]);
            assert(s@.skip(i as int).skip(4) =~= s@.skip(i + 4));
        }
        match (v0, v1, v2, v3) {
            (Some(a), Some(b), Some(c), Some(d)) => {
                let ghost out0 = out@;
                out.push(a * 4 + b / 16);
                out.push((b % 16) * 16 + c / 4);
                out.push((c % 4) * 64 + d);
                proof {
                    let first3 = seq![
                        (a * 4 + b / 16) as u8,
                        ((b % 16) * 16 + c / 4) as u8,
                        ((c % 4) * 64 + d) as u8,
                    ];
                    assert(out@ =~= out0 + first3);
                    match b64_decode(s@.skip(i + 4)) {
                        Some(rest) => {
                            assert(b64_decode(s@.skip(i as int)) == Some(first3 + rest));
                            assert(out0 + (first3 + rest) =~= out@ + rest);
                        },
                        None => {
                            assert(b64_decode(s@.skip(i as int)) is None);
                        },
                    }
                }
                i = i + 4;
            },
            _ => {
                return None;
            },
        }
    }
    if s.len() - i == 1 {
        return None;
    } else if s.len() - i == 2 {
        let v0 = dec_char(s[i]);
        let v1 = dec_char(s[i + 1]);
        proof {
            assert(s@.skip(i as int)[0] == s@[i as int]);
            assert(s@.skip(i as int)[1] == s@[i + 1]);
            assert(s@.skip(i as int).len() == 2);
        }
        match (v0, v1) {
            (Some(a), Some(b)) => {
                out.push(a * 4 + b / 16);
                proof {
                    assert(b64_decode(s@)->Some_0 =~= out@);
                }
                return Some(out);
            },
            _ => {
                return None;
            },
        }
    } else if s.len() - i == 3 {
        let v0 = dec_char(s[i]);
        let v1 = dec_char(s[i + 1]);
        let v2 = dec_char(s[i + 2]);
        proof {
            assert(s@.skip(i as int)[0] == s@[i as int]);
            assert(s@.skip(i as int)[1] == s@[i + 1]);
            assert(s@.skip(i as int)[2] == s@[i + 2]);
            assert(s@.skip(i as int).len() == 3);
        }
        match (v0, v1, v2) {
            (Some(a), Some(b), Some(c)) => {
                out.push(a * 4 + b / 16);
                out.push((b % 16) * 16 + c / 4);
                proof {
                    assert(b64_decode(s@)->Some_0 =~= out@);
                }
                return Some(out);
            },
            _ => {
                return None;
            },
        }
    } else {
        proof {
            assert(s@.skip(i as int).len() == 0);
            assert(b64_decode(s@)->Some_0 =~= out@);
        }
        return Some(out);
    }
}

} // verus!
