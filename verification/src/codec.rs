//! Signing and verifying claim tokens: three dot-separated base64 segments —
//! a fixed header, the claim payload, and an HMAC-SHA-256 tag over the first
//! two segments.
use vstd::prelude::*;

use crate::bytes64::b64_decode;
use crate::bytes64::b64_encode;
use crate::bytes64::b64_val;
use crate::bytes64::b64url_decode;
use crate::bytes64::b64url_encode;
use crate::bytes64::lemma_b64_encode_in_alphabet;
use crate::bytes64::lemma_b64_round_trip;
use crate::claim::ClaimView;
use crate::claim::NomerClaim;
use crate::claim::encode_payload;
use crate::claim::lemma_parse_payload_canonical;
use crate::claim::parse_payload;
use crate::claim::spec_parse_payload;
use crate::claim::spec_payload;
use crate::claim::sub_bytes;
use crate::outside::hmac_sha256;
use crate::outside::hmac_sha256_of;
use crate::outside::now_unix_seconds;
use vstd::utf8::encode_utf8_decode_utf8;
use vstd::utf8::encode_utf8_valid_utf8;

verus! {

/// `{"alg":"HS256"}` — the header every token of this crate carries.
pub open spec fn header_bytes() -> Seq<u8> {
    seq![
        123u8,
        34u8,
        97u8,
        108u8,
        103u8,
        34u8,
        58u8,
        34u8,
        72u8,
        83u8,
        50u8,
        53u8,
        54u8,
        34u8,
        125u8,
    ]
}

/// What the tag is computed over: encoded header, dot, encoded payload.
pub open spec fn spec_signing_input(c: ClaimView) -> Seq<u8> {
    b64_encode(header_bytes()) + seq![46u8] + b64_encode(spec_payload(c))
}

/// The complete token for a claim under a key.
pub open spec fn spec_token(c: ClaimView, key: Seq<u8>) -> Seq<u8> {
    spec_signing_input(c) + seq![46u8] + b64_encode(
        hmac_sha256_of(key, spec_signing_input(c)),
    )
}

/// Acceptance: what a verifier may answer for a token at time `now`.
pub open spec fn token_accepted(token: Seq<u8>, key: Seq<u8>, now: int, c: ClaimView) -> bool {
    &&& c.wf()
    &&& token == spec_token(c, key)
    &&& c.exp > now
}

/// Signs a claim: the token bytes are a function of the claim and key alone.
pub fn sign(claim: &NomerClaim, key: &[u8]) -> (t: Vec<u8>)
    ensures
        t@ == spec_token(claim@, key@),
{
    let payload = encode_payload(claim);
    let header: Vec<u8> = vec![
        123u8,
        34u8,
        97u8,
        108u8,
        103u8,
        34u8,
        58u8,
        34u8,
        72u8,
        83u8,
        50u8,
        53u8,
        54u8,
        34u8,
        125u8,
    ];
    proof {
        assert(header@ =~= header_bytes());
    }
    let mut si = b64url_encode(header.as_slice());
    si.push(46);
    let mut pb = b64url_encode(payload.as_slice());
    si.append(&mut pb);
    proof {
        assert(si@ =~= spec_signing_input(claim@));
    }
    let tag = hmac_sha256(key, si.as_slice());
    let mut mb = b64url_encode(tag.as_slice());
    let mut t = si;
    t.push(46);
    t.append(&mut mb);
    proof {
        assert(t@ =~= spec_token(claim@, key@));
    }
    t
}

/// The first dot at or after `from`.
fn find_dot(v: &[u8], from: usize) -> (r: Option<usize>)
    requires
        from <= v@.len(),
    ensures
        match r {
            Some(j) => from <= j < v@.len() && v@[j as int] == 46 && (forall|k: int|
                from <= k < j ==> v@[k] != 46),
            None => forall|k: int| from <= k < v@.len() ==> v@[k] != 46,
        },
{
    let mut j = from;
    while j < v.len()
        invariant
            from <= j <= v@.len(),
            forall|k: int| from <= k < j ==> v@[k] != 46,
        decreases v@.len() - j,
    {
        if v[j] == 46 {
            return Some(j);
        }
        j = j + 1;
    }
    None
}

/// Byte-for-byte equality of two slices.
fn bytes_eq(a: &[u8], b: &[u8]) -> (r: bool)
    ensures
        r <==> a@ == b@,
{
    if a.len() != b.len() {
        proof {
            if a@ == b@ {
                assert(false);
            }
        }
        return false;
    }
    let mut k: usize = 0;
    while k < a.len()
        invariant
            a@.len() == b@.len(),
            k <= a@.len(),
            forall|t: int| 0 <= t < k ==> a@[t] == b@[t],
        decreases a@.len() - k,
    {
        if a[k] != b[k] {
            proof {
                if a@ == b@ {
                    assert(a@[k as int] == b@[k as int]);
                    assert(false);
                }
            }
            return false;
        }
        k = k + 1;
    }
    proof {
        assert(a@ =~= b@);
    }
    true
}

/// Where the dots of a canonical token stand, and what lies between them.
proof fn lemma_token_structure(c: ClaimView, key: Seq<u8>)
    ensures
        ({
            let t = spec_token(c, key);
            let hl = b64_encode(header_bytes()).len() as int;
            let pl = b64_encode(spec_payload(c)).len() as int;
            &&& t.len() == hl + 1 + pl + 1 + b64_encode(
                hmac_sha256_of(key, spec_signing_input(c)),
            ).len()
            &&& t[hl] == 46
            &&& (forall|k: int| 0 <= k < hl ==> t[k] != 46)
            &&& t[hl + 1 + pl] == 46
            &&& (forall|k: int| hl + 1 <= k < hl + 1 + pl ==> t[k] != 46)
            &&& t.subrange(hl + 1, hl + 1 + pl) == b64_encode(spec_payload(c))
        }),
{
    let t = spec_token(c, key);
    let hb = b64_encode(header_bytes());
    let pb = b64_encode(spec_payload(c));
    let hl = hb.len() as int;
    let pl = pb.len() as int;
    lemma_b64_encode_in_alphabet(header_bytes());
    lemma_b64_encode_in_alphabet(spec_payload(c));
    assert(b64_val(46u8) is None);
    assert forall|k: int| 0 <= k < hl implies t[k] != 46 by {
        assert(t[k] == hb[k]);
        assert(b64_val(hb[k]) is Some);
    }
    assert forall|k: int| hl + 1 <= k < hl + 1 + pl implies t[k] != 46 by {
        assert(t[k] == pb[k - hl - 1]);
        assert(b64_val(pb[k - hl - 1]) is Some);
    }
    assert(t[hl] == 46);
    assert(t[hl + 1 + pl] == 46);
    assert(t.subrange(hl + 1, hl + 1 + pl) =~= pb);
}

/// A token pins both its claim and its tag down: if one byte string is the
/// token of `c1` under `k1` and of `c2` under `k2`, the claims are equal and
/// the two keys gave the identical tag over the signing input.
pub proof fn lemma_token_pins_claim(c1: ClaimView, c2: ClaimView, k1: Seq<u8>, k2: Seq<u8>)
    requires
        c1.wf(),
        c2.wf(),
        spec_token(c1, k1) == spec_token(c2, k2),
    ensures
        c1 == c2,
        hmac_sha256_of(k1, spec_signing_input(c1)) == hmac_sha256_of(k2, spec_signing_input(c1)),
{
    let t = spec_token(c1, k1);
    let hl = b64_encode(header_bytes()).len() as int;
    let pb1 = b64_encode(spec_payload(c1));
    let pb2 = b64_encode(spec_payload(c2));
    lemma_token_structure(c1, k1);
    lemma_token_structure(c2, k2);
    if pb1.len() < pb2.len() {
        assert(t[hl + 1 + pb1.len()] == 46);
        assert(t[hl + 1 + pb1.len()] != 46);
    }
    if pb2.len() < pb1.len() {
        assert(t[hl + 1 + pb2.len()] == 46);
        assert(t[hl + 1 + pb2.len()] != 46);
    }
    assert(pb1.len() == pb2.len());
    assert(pb1 == t.subrange(hl + 1, hl + 1 + pb1.len() as int));
    assert(pb2 == t.subrange(hl + 1, hl + 1 + pb2.len() as int));
    lemma_b64_round_trip(spec_payload(c1));
    lemma_b64_round_trip(spec_payload(c2));
    assert(b64_decode(pb1) == b64_decode(pb2));
    assert(spec_payload(c1) == spec_payload(c2));
    lemma_parse_payload_canonical(c1);
    lemma_parse_payload_canonical(c2);
    assert(sub_bytes(c1) == sub_bytes(c2));
    encode_utf8_decode_utf8(c1.sub);
    encode_utf8_decode_utf8(c2.sub);
    assert(c1.sub == c2.sub);
    assert(c1 == c2);
    let si = spec_signing_input(c1);
    assert(spec_signing_input(c2) == si);
    let m1 = b64_encode(hmac_sha256_of(k1, si));
    let m2 = b64_encode(hmac_sha256_of(k2, si));
    assert(m1 =~= t.skip(si.len() as int + 1));
    assert(m2 =~= t.skip(si.len() as int + 1));
    lemma_b64_round_trip(hmac_sha256_of(k1, si));
    lemma_b64_round_trip(hmac_sha256_of(k2, si));
    assert(b64_decode(m1) == b64_decode(m2));
}

/// Tokens of distinct claims differ: the token pins its claim down.
pub proof fn lemma_token_unique(c1: ClaimView, c2: ClaimView, key: Seq<u8>)
    requires
        c1.wf(),
        c2.wf(),
        spec_token(c1, key) == spec_token(c2, key),
    ensures
        c1 == c2,
{
    lemma_token_pins_claim(c1, c2, key, key);
}

/// Acceptance under another key demands a MAC collision: a token minted
/// under `k1` is accepted under `k2` only as the very claim it was minted
/// for, and only if both keys give the identical tag over its signing input.
/// The codec cannot exclude such a collision; that the keyed MAC makes one
/// infeasible is HMAC's guarantee, exercised by test rather than proved.
pub proof fn lemma_cross_key_needs_collision(
    c1: ClaimView,
    c2: ClaimView,
    k1: Seq<u8>,
    k2: Seq<u8>,
    now: int,
)
    requires
        c1.wf(),
        token_accepted(spec_token(c1, k1), k2, now, c2),
    ensures
        c2 == c1,
        hmac_sha256_of(k2, spec_signing_input(c1)) == hmac_sha256_of(k1, spec_signing_input(c1)),
{
    lemma_token_pins_claim(c2, c1, k2, k1);
}

/// Round trip: a freshly signed claim is accepted, before its expiry, as
/// exactly that claim and as nothing else.
pub proof fn lemma_sign_verify_round_trip(c: ClaimView, key: Seq<u8>, now: int)
    requires
        c.wf(),
        c.exp > now,
    ensures
        token_accepted(spec_token(c, key), key, now, c),
        forall|c2: ClaimView| token_accepted(spec_token(c, key), key, now, c2) ==> c2 == c,
{
    assert forall|c2: ClaimView| token_accepted(spec_token(c, key), key, now, c2) implies c2
        == c by {
        lemma_token_unique(c2, c, key);
    }
}

/// Verifies a token at time `now`: accepts exactly the unexpired canonical
/// tokens under `key`, and returns the claim each one carries.
pub fn verify_at(token: &[u8], key: &[u8], now: i64) -> (r: Option<NomerClaim>)
    ensures
        r matches Some(c) ==> token_accepted(token@, key@, now as int, c@),
        forall|c: ClaimView|
            token_accepted(token@, key@, now as int, c) ==> (r matches Some(rc) && rc@ == c),
{
    let n = token.len();
    proof {
        assert(token@.len() == n);
    }
    let d1 = match find_dot(token, 0) {
        Some(j) => j,
        None => {
            proof {
                assert forall|c: ClaimView|
                    token_accepted(token@, key@, now as int, c) implies false by {
                    lemma_token_structure(c, key@);
                }
            }
            return None;
        },
    };
    let d2 = match find_dot(token, d1 + 1) {
        Some(j) => j,
        None => {
            proof {
                assert forall|c: ClaimView|
                    token_accepted(token@, key@, now as int, c) implies false by {
                    lemma_token_structure(c, key@);
                    let hl = b64_encode(header_bytes()).len() as int;
                    let pl = b64_encode(spec_payload(c)).len() as int;
                    assert(d1 == hl);
                    assert(token@[hl + 1 + pl] == 46);
                }
            }
            return None;
        },
    };
    let part = vstd::slice::slice_subrange(token, d1 + 1, d2);
    let payload = match b64url_decode(part) {
        Some(v) => v,
        None => {
            proof {
                assert forall|c: ClaimView|
                    token_accepted(token@, key@, now as int, c) implies false by {
                    lemma_token_structure(c, key@);
                    let hl = b64_encode(header_bytes()).len() as int;
                    let pl = b64_encode(spec_payload(c)).len() as int;
                    assert(d1 == hl);
                    assert(d2 == hl + 1 + pl);
                    assert(part@ == b64_encode(spec_payload(c)));
                    lemma_b64_round_trip(spec_payload(c));
                }
            }
            return None;
        },
    };
    let claim = match parse_payload(payload.as_slice()) {
        Some(c) => c,
        None => {
            proof {
                assert forall|c: ClaimView|
                    token_accepted(token@, key@, now as int, c) implies false by {
                    lemma_token_structure(c, key@);
                    let hl = b64_encode(header_bytes()).len() as int;
                    let pl = b64_encode(spec_payload(c)).len() as int;
                    assert(d1 == hl);
                    assert(d2 == hl + 1 + pl);
                    assert(part@ == b64_encode(spec_payload(c)));
                    lemma_b64_round_trip(spec_payload(c));
                    assert(payload@ == spec_payload(c));
                    lemma_parse_payload_canonical(c);
                    encode_utf8_valid_utf8(c.sub);
                }
            }
            return None;
        },
    };
    let expected = sign(&claim, key);
    let matches_key = bytes_eq(token, expected.as_slice());
    if matches_key && claim.exp > now {
        proof {
            assert forall|c: ClaimView|
                token_accepted(token@, key@, now as int, c) implies claim@ == c by {
                lemma_token_unique(claim@, c, key@);
            }
        }
        Some(claim)
    } else {
        proof {
            assert forall|c: ClaimView|
                token_accepted(token@, key@, now as int, c) implies false by {
                lemma_token_structure(c, key@);
                let hl = b64_encode(header_bytes()).len() as int;
                let pl = b64_encode(spec_payload(c)).len() as int;
                assert(d1 == hl);
                assert(d2 == hl + 1 + pl);
                assert(part@ == b64_encode(spec_payload(c)));
                lemma_b64_round_trip(spec_payload(c));
                assert(payload@ == spec_payload(c));
                lemma_parse_payload_canonical(c);
                encode_utf8_valid_utf8(c.sub);
                assert(spec_parse_payload(payload@) == Some(
                    (sub_bytes(c), c.exp, c.iat, c.acc),
                ));
                encode_utf8_decode_utf8(claim@.sub);
                encode_utf8_decode_utf8(c.sub);
                assert(claim@ == c);
                assert(expected@ == token@);
                assert(claim.exp > now);
            }
        }
        None
    }
}

/// Whether, at time `now`, the token verifies to no claim at all under the
/// key.
pub open spec fn none_accepted(token: Seq<u8>, key: Seq<u8>, now: int) -> bool {
    forall|c: ClaimView| !token_accepted(token, key, now, c)
}

/// Verifies a token against the current clock. Expiry is enforced here,
/// centrally: no caller needs to re-check it. A refusal is never gratuitous:
/// it means that at some plausible clock second the token verified to
/// nothing.
pub fn verify(token: &[u8], key: &[u8]) -> (r: Option<NomerClaim>)
    ensures
        r matches Some(c) ==> exists|t_now: int|
            #![auto]
            -9_000_000_000_000 <= t_now <= 9_000_000_000_000 && token_accepted(
                token@,
                key@,
                t_now,
                c@,
            ),
        r is None ==> exists|t_now: int|
            #![auto]
            -9_000_000_000_000 <= t_now <= 9_000_000_000_000 && none_accepted(
                token@,
                key@,
                t_now,
            ),
{
    let now = now_unix_seconds();
    let r = verify_at(token, key, now);
    proof {
        if r is None {
            assert forall|c: ClaimView| !token_accepted(token@, key@, now as int, c) by {
                if token_accepted(token@, key@, now as int, c) {
                    assert(false);
                }
            }
            assert(none_accepted(token@, key@, now as int));
        }
    }
    r
}

} // verus!
