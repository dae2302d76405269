//! The claim a token carries — subject, validity window, kind — and its
//! canonical JSON payload: `{"sub":"…","exp":N,"iat":N,"acc":B}`.
use vstd::prelude::*;

use crate::jsontext::dec_int;
use crate::jsontext::esc;
use crate::jsontext::is_digit;
use crate::jsontext::lemma_parse_int_canonical;
use crate::jsontext::lemma_unesc_esc;
use crate::jsontext::spec_parse_int;
use crate::jsontext::spec_unesc;
use crate::jsontext::encode_i64;
use crate::jsontext::json_escape;
use crate::jsontext::json_unescape;
use crate::jsontext::parse_i64;
use crate::outside::now_unix_seconds;
use crate::outside::string_from_utf8;
use vstd::utf8::encode_utf8;
use vstd::utf8::decode_utf8;
use vstd::utf8::valid_utf8;
use vstd::utf8::decode_utf8_encode_utf8;

verus! {

/// The payload of a token: who it is for, when it was issued and expires
/// (Unix seconds), and whether it is an access or a refresh credential.
#[derive(Debug)]
pub struct NomerClaim {
    pub sub: String,
    pub exp: i64,
    pub iat: i64,
    pub acc: bool,
}

/// The mathematical content of a claim.
pub struct ClaimView {
    pub sub: Seq<char>,
    pub exp: int,
    pub iat: int,
    pub acc: bool,
}

impl View for NomerClaim {
    type V = ClaimView;

    open spec fn view(&self) -> ClaimView {
        ClaimView { sub: self.sub@, exp: self.exp as int, iat: self.iat as int, acc: self.acc }
    }
}

impl ClaimView {
    /// Timestamps representable by the executable claim type.
    pub open spec fn wf(self) -> bool {
        &&& -0x8000000000000000 <= self.exp <= 0x7fffffffffffffff
        &&& -0x8000000000000000 <= self.iat <= 0x7fffffffffffffff
    }
}

impl NomerClaim {
    /// A claim for `subject`, issued at the current clock second and
    /// expiring `duration` seconds later; an access claim iff `is_access`.
    /// The duration must be positive — a claim expires after it is issued —
    /// and capped so that the expiry fits `i64` against any clock value.
    pub fn make(subject: String, duration: i64, is_access: bool) -> (c: NomerClaim)
        requires
            0 < duration <= 1_000_000_000,
        ensures
            c@.sub == subject@,
            c@.acc == is_access,
            c@.exp == c@.iat + duration,
            -9_000_000_000_000 <= c@.iat <= 9_000_000_000_000,
    {
        let now = now_unix_seconds();
        NomerClaim { sub: subject, exp: now + duration, iat: now, acc: is_access }
    }
}

/// The subject as it stands in the payload: the UTF-8 bytes of the string.
pub open spec fn sub_bytes(c: ClaimView) -> Seq<u8> {
    encode_utf8(c.sub)
}

/// `{"sub":"`
pub open spec fn lit_sub() -> Seq<u8> {
    seq![123u8, 34u8, 115u8, 117u8, 98u8, 34u8, 58u8, 34u8]
}

/// `,"exp":` — what follows the subject's closing quote.
pub open spec fn lit_exp() -> Seq<u8> {
    seq![44u8, 34u8, 101u8, 120u8, 112u8, 34u8, 58u8]
}

/// `,"iat":`
pub open spec fn lit_iat() -> Seq<u8> {
    seq![44u8, 34u8, 105u8, 97u8, 116u8, 34u8, 58u8]
}

/// `,"acc":`
pub open spec fn lit_acc() -> Seq<u8> {
    seq![44u8, 34u8, 97u8, 99u8, 99u8, 34u8, 58u8]
}

/// `true` or `false`.
pub open spec fn bool_lit(b: bool) -> Seq<u8> {
    if b {
        seq![116u8, 114u8, 117u8, 101u8]
    } else {
        seq![102u8, 97u8, 108u8, 115u8, 101u8]
    }
}

/// The canonical payload text of a claim.
pub open spec fn spec_payload(c: ClaimView) -> Seq<u8> {
    lit_sub() + esc(sub_bytes(c)) + seq![34u8] + lit_exp() + dec_int(c.exp) + lit_iat() + dec_int(
        c.iat,
    ) + lit_acc() + bool_lit(c.acc) + seq![125u8]
}

/// The strict payload parse: subject bytes, expiry, issue time, kind.
/// `None` unless the whole text is one canonical payload.
pub open spec fn spec_parse_payload(p: Seq<u8>) -> Option<(Seq<u8>, int, int, bool)> {
    if p.len() < 8 || p.subrange(0, 8) != lit_sub() {
        None
    } else {
        match spec_unesc(p.skip(8)) {
            None => None,
            Some(sn) => {
                let p1 = 8 + sn.1;
                if p1 + 7 > p.len() || p.subrange(p1, p1 + 7) != lit_exp() {
                    None
                } else {
                    match spec_parse_int(p.skip(p1 + 7)) {
                        None => None,
                        Some(en) => {
                            let p3 = p1 + 7 + en.1;
                            if p3 + 7 > p.len() || p.subrange(p3, p3 + 7) != lit_iat() {
                                None
                            } else {
                                match spec_parse_int(p.skip(p3 + 7)) {
                                    None => None,
                                    Some(tn) => {
                                        let p5 = p3 + 7 + tn.1;
                                        if p5 + 7 > p.len() || p.subrange(p5, p5 + 7) != lit_acc() {
                                            None
                                        } else {
                                            let p6 = p5 + 7;
                                            if p6 + 4 <= p.len() && p.subrange(p6, p6 + 4)
                                                == bool_lit(true) {
                                                if p6 + 5 == p.len() && p[p6 + 4] == 125 {
                                                    Some((sn.0, en.0, tn.0, true))
                                                } else {
                                                    None
                                                }
                                            } else if p6 + 5 <= p.len() && p.subrange(p6, p6 + 5)
                                                == bool_lit(false) {
                                                if p6 + 6 == p.len() && p[p6 + 5] == 125 {
                                                    Some((sn.0, en.0, tn.0, false))
                                                } else {
                                                    None
                                                }
                                            } else {
                                                None
                                            }
                                        }
                                    },
                                }
                            }
                        },
                    }
                }
            },
        }
    }
}

/// Parsing reads back exactly the canonical payload of any claim.
#[verifier::rlimit(100)]
pub proof fn lemma_parse_payload_canonical(c: ClaimView)
    requires
        c.wf(),
    ensures
        spec_parse_payload(spec_payload(c)) == Some((sub_bytes(c), c.exp, c.iat, c.acc)),
{
    let p = spec_payload(c);
    let e = esc(sub_bytes(c));
    let tail1 = lit_exp() + dec_int(c.exp) + lit_iat() + dec_int(c.iat) + lit_acc() + bool_lit(
        c.acc,
    ) + seq![125u8];
    assert(p.len() >= 8);
    assert(p.subrange(0, 8) =~= lit_sub());
    assert(p.skip(8) =~= e + seq![34u8] + tail1);
    lemma_unesc_esc(sub_bytes(c), tail1);
    assert(spec_unesc(p.skip(8)) == Some((sub_bytes(c), e.len() as int + 1)));
    let p1 = 8 + e.len() as int + 1;
    assert(p.subrange(p1, p1 + 7) =~= lit_exp());
    let tail2 = lit_iat() + dec_int(c.iat) + lit_acc() + bool_lit(c.acc) + seq![125u8];
    assert(p.skip(p1 + 7) =~= dec_int(c.exp) + tail2);
    assert(tail2[0] == 44);
    assert(!is_digit(tail2[0]));
    lemma_parse_int_canonical(c.exp, tail2);
    assert(spec_parse_int(p.skip(p1 + 7)) == Some((c.exp, dec_int(c.exp).len() as int)));
    let p3 = p1 + 7 + dec_int(c.exp).len() as int;
    assert(p.subrange(p3, p3 + 7) =~= lit_iat());
    let tail3 = lit_acc() + bool_lit(c.acc) + seq![125u8];
    assert(p.skip(p3 + 7) =~= dec_int(c.iat) + tail3);
    assert(tail3[0] == 44);
    assert(!is_digit(tail3[0]));
    lemma_parse_int_canonical(c.iat, tail3);
    assert(spec_parse_int(p.skip(p3 + 7)) == Some((c.iat, dec_int(c.iat).len() as int)));
    let p5 = p3 + 7 + dec_int(c.iat).len() as int;
    assert(p.subrange(p5, p5 + 7) =~= lit_acc());
    let p6 = p5 + 7;
    if c.acc {
        assert(p.subrange(p6, p6 + 4) =~= bool_lit(true));
        assert(p6 + 5 == p.len());
        assert(p[p6 + 4] == 125);
    } else {
        assert(p.subrange(p6, p6 + 5) =~= bool_lit(false));
        assert(p6 + 6 == p.len());
        assert(p[p6 + 5] == 125);
        assert(p6 + 4 <= p.len());
        assert(p.subrange(p6, p6 + 4)[0] == 102);
        assert(bool_lit(true)[0] == 116);
        assert(p.subrange(p6, p6 + 4) != bool_lit(true));
    }
}

/// True iff `p` carries `lit` at position `pos`.
fn match_lit(p: &[u8], pos: usize, lit: &[u8]) -> (b: bool)
    requires
        pos <= p@.len(),
    ensures
        b <==> (pos + lit@.len() <= p@.len() && p@.subrange(
            pos as int,
            pos as int + lit@.len() as int,
        ) == lit@),
{
    if p.len() - pos < lit.len() {
        return false;
    }
    let mut k: usize = 0;
    while k < lit.len()
        invariant
            p@.len() <= usize::MAX,
            pos + lit@.len() <= p@.len(),
            k <= lit@.len(),
            forall|t: int| 0 <= t < k ==> p@[pos + t] == lit@[t],
        decreases lit@.len() - k,
    {
        if p[pos + k] != lit[k] {
            proof {
                let sr = p@.subrange(pos as int, pos as int + lit@.len() as int);
                if sr == lit@ {
                    assert(sr[k as int] == p@[pos + k]);
                    assert(false);
                }
            }
            return false;
        }
        k = k + 1;
    }
    proof {
        assert(p@.subrange(pos as int, pos as int + lit@.len() as int) =~= lit@);
    }
    true
}

/// `{"sub":"` as bytes.
fn lit_sub_vec() -> (v: Vec<u8>)
    ensures
        v@ == lit_sub(),
{
    let v: Vec<u8> = vec![123u8, 34u8, 115u8, 117u8, 98u8, 34u8, 58u8, 34u8];
    proof {
        assert(v@ =~= lit_sub());
    }
    v
}

/// `,"exp":` as bytes.
fn lit_exp_vec() -> (v: Vec<u8>)
    ensures
        v@ == lit_exp(),
{
    let v: Vec<u8> = vec![44u8, 34u8, 101u8, 120u8, 112u8, 34u8, 58u8];
    proof {
        assert(v@ =~= lit_exp());
    }
    v
}

/// `,"iat":` as bytes.
fn lit_iat_vec() -> (v: Vec<u8>)
    ensures
        v@ == lit_iat(),
{
    let v: Vec<u8> = vec![44u8, 34u8, 105u8, 97u8, 116u8, 34u8, 58u8];
    proof {
        assert(v@ =~= lit_iat());
    }
    v
}

/// `,"acc":` as bytes.
fn lit_acc_vec() -> (v: Vec<u8>)
    ensures
        v@ == lit_acc(),
{
    let v: Vec<u8> = vec![44u8, 34u8, 97u8, 99u8, 99u8, 34u8, 58u8];
    proof {
        assert(v@ =~= lit_acc());
    }
    v
}

/// `true` or `false` as bytes.
fn bool_lit_vec(b: bool) -> (v: Vec<u8>)
    ensures
        v@ == bool_lit(b),
{
    let v: Vec<u8> = if b {
        vec![116u8, 114u8, 117u8, 101u8]
    } else {
        vec![102u8, 97u8, 108u8, 115u8, 101u8]
    };
    proof {
        assert(v@ =~= bool_lit(b));
    }
    v
}

/// Writes the canonical payload of a claim.
pub fn encode_payload(c: &NomerClaim) -> (out: Vec<u8>)
    ensures
        out@ == spec_payload(c@),
{
    let mut out: Vec<u8> = Vec::new();
    let mut l = lit_sub_vec();
    out.append(&mut l);
    let sb = c.sub.as_str().as_bytes_vec();
    json_escape(&mut out, sb.as_slice());
    out.push(34);
    let mut l2 = lit_exp_vec();
    out.append(&mut l2);
    encode_i64(&mut out, c.exp);
    let mut l3 = lit_iat_vec();
    out.append(&mut l3);
    encode_i64(&mut out, c.iat);
    let mut l4 = lit_acc_vec();
    out.append(&mut l4);
    let mut l5 = bool_lit_vec(c.acc);
    out.append(&mut l5);
    out.push(125);
    proof {
        assert(out@ =~= spec_payload(c@));
    }
    out
}

/// Reads a canonical payload back into a claim. On success the parse is
/// exact; failure means the text is not a canonical payload (or its subject
/// bytes are not UTF-8, which no canonical payload's are).
pub fn parse_payload(p: &[u8]) -> (r: Option<NomerClaim>)
    ensures
        r matches Some(rc) ==> spec_parse_payload(p@) == Some(
            (encode_utf8(rc@.sub), rc@.exp, rc@.iat, rc@.acc),
        ),
        r is None ==> (spec_parse_payload(p@) is None || !valid_utf8(
            spec_parse_payload(p@)->Some_0.0,
        )),
{
    let l_sub = lit_sub_vec();
    let l_exp = lit_exp_vec();
    let l_iat = lit_iat_vec();
    let l_acc = lit_acc_vec();
    let l_true = bool_lit_vec(true);
    let l_false = bool_lit_vec(false);
    let total: usize = p.len();
    proof {
        assert(p@.len() == total);
    }
    if !match_lit(p, 0, l_sub.as_slice()) {
        proof {
            if p@.len() >= 8 {
                assert(p@.subrange(0, 8) != lit_sub());
            }
        }
        return None;
    }
    let sr = json_unescape(p, 8);
    let (sub_v, pos1) = match sr {
        Some(x) => x,
        None => {
            return None;
        },
    };
    if !match_lit(p, pos1, l_exp.as_slice()) {
        return None;
    }
    let pos2 = pos1 + 7;
    let er = parse_i64(p, pos2);
    let (exp, pos3) = match er {
        Some(x) => x,
        None => {
            return None;
        },
    };
    if !match_lit(p, pos3, l_iat.as_slice()) {
        return None;
    }
    let pos4 = pos3 + 7;
    let ir = parse_i64(p, pos4);
    let (iat, pos5) = match ir {
        Some(x) => x,
        None => {
            return None;
        },
    };
    if !match_lit(p, pos5, l_acc.as_slice()) {
        return None;
    }
    let pos6 = pos5 + 7;
    let (acc, pos7): (bool, usize) = if match_lit(p, pos6, l_true.as_slice()) {
        (true, pos6 + 4)
    } else if match_lit(p, pos6, l_false.as_slice()) {
        (false, pos6 + 5)
    } else {
        return None;
    };
    if !(p.len() - pos7 == 1) {
        return None;
    }
    if p[pos7] != 125 {
        return None;
    }
    let ghost spp = spec_parse_payload(p@);
    proof {
        assert(spp matches Some(t) && t.0 == sub_v@ && t.1 == exp as int && t.2 == iat as int
            && t.3 == acc);
    }
    let sub = match string_from_utf8(sub_v) {
        Some(s) => s,
        None => {
            return None;
        },
    };
    proof {
        decode_utf8_encode_utf8(spp->Some_0.0);
    }
    Some(NomerClaim { sub, exp, iat, acc })
}

} // verus!
