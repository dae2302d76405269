//! The textual pieces of the claim payload: decimal integers and escaped
//! JSON strings, with exact round trips on the canonical forms this crate
//! writes.
use vstd::prelude::*;

verus! {

pub open spec fn is_digit(b: u8) -> bool {
    48 <= b && b <= 57
}

/// Decimal digits of `n`, most significant first.
pub open spec fn dec_digits(n: nat) -> Seq<u8>
    decreases n,
{
    if n < 10 {
        seq![(48 + n) as u8]
    } else {
        dec_digits(n / 10) + seq![(48 + n % 10) as u8]
    }
}

/// The canonical decimal rendering of an integer: a minus sign for negative
/// values, then digits without leading zeros.
pub open spec fn dec_int(n: int) -> Seq<u8> {
    if n < 0 {
        seq![45u8] + dec_digits((-n) as nat)
    } else {
        dec_digits(n as nat)
    }
}

pub open spec fn all_digits(s: Seq<u8>) -> bool {
    forall|i: int| 0 <= i < s.len() ==> is_digit(#[trigger] s[i])
}

/// Reads digits from the front of `s` into an accumulator, most significant
/// first.
pub open spec fn digits_val(s: Seq<u8>, acc: int) -> int
    decreases s.len(),
{
    if s.len() == 0 {
        acc
    } else {
        digits_val(s.skip(1), acc * 10 + (s[0] - 48))
    }
}

/// Greedy digit parse: the accumulated value and how many bytes were
/// consumed, or `None` if the value outgrows `u64`.
pub open spec fn spec_parse_digits(p: Seq<u8>, acc: int) -> Option<(int, int)>
    decreases p.len(),
{
    if p.len() == 0 || !is_digit(p[0]) {
        Some((acc, 0))
    } else {
        let acc2 = acc * 10 + (p[0] - 48);
        if acc2 > u64::MAX {
            None
        } else {
            match spec_parse_digits(p.skip(1), acc2) {
                Some(vn) => Some((vn.0, vn.1 + 1)),
                None => None,
            }
        }
    }
}

/// Parse of an optionally signed decimal integer that fits in `i64`:
/// the value and the count of bytes consumed.
pub open spec fn spec_parse_int(p: Seq<u8>) -> Option<(int, int)> {
    if p.len() == 0 {
        None
    } else if p[0] == 45 {
        if p.len() >= 2 && is_digit(p[1]) {
            match spec_parse_digits(p.skip(1), 0) {
                Some(vn) => if vn.0 <= 0x8000000000000000 {
                    Some((-vn.0, vn.1 + 1))
                } else {
                    None
                },
                None => None,
            }
        } else {
            None
        }
    } else if is_digit(p[0]) {
        match spec_parse_digits(p, 0) {
            Some(vn) => if vn.0 <= 0x7fffffffffffffff {
                Some((vn.0, vn.1))
            } else {
                None
            },
            None => None,
        }
    } else {
        None
    }
}

proof fn lemma_dec_digits_all(n: nat)
    ensures
        all_digits(dec_digits(n)),
        dec_digits(n).len() >= 1,
    decreases n,
{
    if n >= 10 {
        lemma_dec_digits_all(n / 10);
        let s = dec_digits(n);
        assert forall|i: int| 0 <= i < s.len() implies is_digit(#[trigger] s[i]) by {
            if i < dec_digits(n / 10).len() {
                assert(s[i] == dec_digits(n / 10)[i]);
            }
        }
    }
}

/// Appending one digit multiplies the read value by ten and adds it.
pub proof fn lemma_digits_val_append(s: Seq<u8>, d: u8, acc: int)
    ensures
        digits_val(s + seq![d], acc) == digits_val(s, acc) * 10 + (d - 48),
    decreases s.len(),
{
    if s.len() == 0 {
        reveal_with_fuel(digits_val, 2);
        assert((s + seq![d]).len() == 1);
        assert((s + seq![d])[0] == d);
        assert((s + seq![d]).skip(1) =~= Seq::<u8>::empty());
    } else {
        assert((s + seq![d])[0] == s[0]);
        assert((s + seq![d]).skip(1) =~= s.skip(1) + seq![d]);
        lemma_digits_val_append(s.skip(1), d, acc * 10 + (s[0] - 48));
    }
}

proof fn lemma_digits_val_dec_digits(n: nat)
    ensures
        digits_val(dec_digits(n), 0) == n,
    decreases n,
{
    lemma_digits_val_dec_digits_acc(n, 0);
}

proof fn lemma_digits_val_dec_digits_acc(n: nat, acc: int)
    ensures
        digits_val(dec_digits(n), acc) == acc * pow10(dec_digits(n).len() as nat) + n,
    decreases n,
{
    if n < 10 {
        reveal_with_fuel(digits_val, 2);
        assert(dec_digits(n).skip(1) =~= Seq::<u8>::empty());
        assert(pow10(0) == 1);
        assert(pow10(1) == 10);
    } else {
        lemma_digits_val_dec_digits_acc(n / 10, acc);
        lemma_digits_val_append(dec_digits(n / 10), (48 + n % 10) as u8, acc);
        let l = dec_digits(n / 10).len() as nat;
        assert(dec_digits(n).len() == l + 1);
        assert(digits_val(dec_digits(n), acc) == (acc * pow10(l) + n / 10) * 10 + n % 10);
        assert((acc * pow10(l) + n / 10) * 10 == acc * pow10(l) * 10 + (n / 10) * 10)
            by (nonlinear_arith);
        assert(acc * pow10(l) * 10 == acc * (pow10(l) * 10)) by (nonlinear_arith);
        assert(pow10(l + 1) == pow10(l) * 10);
        assert((n / 10) * 10 + n % 10 == n);
    }
}

spec fn pow10(k: nat) -> int
    decreases k,
{
    if k == 0 {
        1
    } else {
        pow10((k - 1) as nat) * 10
    }
}

/// Reading digits never lowers a non-negative accumulator.
pub proof fn lemma_digits_val_lower(s: Seq<u8>, acc: int)
    requires
        all_digits(s),
        acc >= 0,
    ensures
        digits_val(s, acc) >= acc,
    decreases s.len(),
{
    if s.len() > 0 {
        assert(is_digit(s[0]));
        assert(forall|i: int| 0 <= i < s.skip(1).len() ==> is_digit(#[trigger] s.skip(1)[i]));
        lemma_digits_val_lower(s.skip(1), acc * 10 + (s[0] - 48));
    }
}

/// Digit parsing recovers exactly the digits written, when the value fits
/// and the text that follows does not begin with a digit.
proof fn lemma_parse_digits_canonical(s: Seq<u8>, rest: Seq<u8>, acc: int)
    requires
        all_digits(s),
        acc >= 0,
        digits_val(s, acc) <= u64::MAX,
        rest.len() == 0 || !is_digit(rest[0]),
    ensures
        spec_parse_digits(s + rest, acc) == Some((digits_val(s, acc), s.len() as int)),
    decreases s.len(),
{
    let p = s + rest;
    if s.len() == 0 {
        assert(p =~= rest);
    } else {
        assert(p[0] == s[0]);
        assert(is_digit(p[0]));
        let acc2 = acc * 10 + (p[0] - 48);
        assert(forall|i: int| 0 <= i < s.skip(1).len() ==> is_digit(#[trigger] s.skip(1)[i]));
        assert(digits_val(s, acc) == digits_val(s.skip(1), acc2));
        lemma_digits_val_lower(s.skip(1), acc2);
        assert(acc2 <= u64::MAX);
        assert(p.skip(1) =~= s.skip(1) + rest);
        lemma_parse_digits_canonical(s.skip(1), rest, acc2);
    }
}

/// Integer parsing reads back exactly the canonical rendering of any `i64`.
pub proof fn lemma_parse_int_canonical(n: int, rest: Seq<u8>)
    requires
        -0x8000000000000000 <= n <= 0x7fffffffffffffff,
        rest.len() == 0 || !is_digit(rest[0]),
    ensures
        spec_parse_int(dec_int(n) + rest) == Some((n, dec_int(n).len() as int)),
{
    if n >= 0 {
        lemma_dec_digits_all(n as nat);
        lemma_digits_val_dec_digits(n as nat);
        lemma_parse_digits_canonical(dec_digits(n as nat), rest, 0);
        let p = dec_int(n) + rest;
        assert(p[0] == dec_digits(n as nat)[0]);
        assert(is_digit(p[0]));
        assert(p[0] != 45);
        assert(p =~= dec_digits(n as nat) + rest);
    } else {
        let m = (-n) as nat;
        lemma_dec_digits_all(m);
        lemma_digits_val_dec_digits(m);
        lemma_parse_digits_canonical(dec_digits(m), rest, 0);
        let p = dec_int(n) + rest;
        assert(p[0] == 45);
        assert(p.skip(1) =~= dec_digits(m) + rest);
        assert(p.skip(1)[0] == dec_digits(m)[0]);
        assert(is_digit(p[1]));
    }
}

/// Appends the decimal digits of `m`, most significant first.
fn push_digits(out: &mut Vec<u8>, m: u64)
    ensures
        final(out)@ == old(out)@ + dec_digits(m as nat),
    decreases m,
{
    if m < 10 {
        out.push(48 + (m as u8));
        proof {
            assert(out@ =~= old(out)@ + dec_digits(m as nat));
        }
    } else {
        let ghost pre = out@;
        push_digits(out, m / 10);
        out.push(48 + ((m % 10) as u8));
        proof {
            assert(out@ =~= pre + dec_digits(m as nat));
        }
    }
}

/// Writes `n` in its canonical decimal form.
pub fn encode_i64(out: &mut Vec<u8>, n: i64)
    ensures
        final(out)@ == old(out)@ + dec_int(n as int),
{
    if n >= 0 {
        push_digits(out, n as u64);
    } else {
        let ghost pre = out@;
        out.push(45);
        let mag: u64 = if n == i64::MIN {
            9223372036854775808u64
        } else {
            (-n) as u64
        };
        proof {
            assert(mag as nat == (-(n as int)) as nat);
        }
        push_digits(out, mag);
        proof {
            assert(out@ =~= pre + dec_int(n as int));
        }
    }
}

/// Whether the relation between a finished digit parse and a partial one
/// holds: what remains decides the whole.
spec fn digits_step_joins(whole: Seq<u8>, j: int, start: int, acc: int) -> bool {
    match spec_parse_digits(whole.skip(j), acc) {
        Some(vn) => spec_parse_digits(whole.skip(start), 0) == Some((vn.0, (j - start) + vn.1)),
        None => spec_parse_digits(whole.skip(start), 0) is None,
    }
}

/// Parses an optionally signed decimal integer at `start`, returning the
/// value and the position just past it.
pub fn parse_i64(p: &[u8], start: usize) -> (r: Option<(i64, usize)>)
    requires
        start <= p@.len(),
    ensures
        match r {
            Some(vp) => {
                &&& start < vp.1 <= p@.len()
                &&& spec_parse_int(p@.skip(start as int)) == Some(
                    (vp.0 as int, vp.1 - start),
                )
            },
            None => spec_parse_int(p@.skip(start as int)) is None,
        },
{
    if start >= p.len() {
        return None;
    }
    let neg = p[start] == 45;
    let dstart = if neg {
        start + 1
    } else {
        start
    };
    if dstart >= p.len() || !(48 <= p[dstart] && p[dstart] <= 57) {
        proof {
            assert(p@.skip(start as int)[0] == p@[start as int]);
            if neg && start + 1 < p@.len() {
                assert(p@.skip(start as int)[1] == p@[start + 1]);
            }
        }
        return None;
    }
    let mut acc: u64 = 0;
    let mut j = dstart;
    proof {
        assert(p@.skip(dstart as int).skip(0) =~= p@.skip(dstart as int));
    }
    while j < p.len() && 48 <= p[j] && p[j] <= 57
        invariant
            start < p@.len(),
            dstart == if neg {
                start + 1
            } else {
                start as int
            },
            neg ==> p@[start as int] == 45,
            dstart < p@.len(),
            is_digit(p@[dstart as int]),
            dstart <= j <= p@.len(),
            digits_step_joins(p@, j as int, dstart as int, acc as int),
        decreases p@.len() - j,
    {
        let d = p[j] - 48;
        proof {
            assert(p@.skip(j as int)[0] == p@[j as int]);
            assert(is_digit(p@.skip(j as int)[0]));
            assert(p@.skip(j as int).skip(1) =~= p@.skip(j + 1));
        }
        let next = match acc.checked_mul(10) {
            Some(x) => x.checked_add(d as u64),
            None => None,
        };
        match next {
            Some(a2) => {
                acc = a2;
            },
            None => {
                proof {
                    assert(acc as int * 10 + (p@[j as int] - 48) > u64::MAX);
                    assert(spec_parse_digits(p@.skip(j as int), acc as int) is None);
                    assert(spec_parse_digits(p@.skip(dstart as int), 0) is None);
                    assert(p@.skip(start as int)[0] == p@[start as int]);
                    if neg {
                        assert(p@.skip(start as int).skip(1) =~= p@.skip(dstart as int));
                        assert(p@.skip(start as int)[1] == p@[dstart as int]);
                        assert(is_digit(p@.skip(start as int)[1]));
                    }
                    assert(spec_parse_int(p@.skip(start as int)) is None);
                }
                return None;
            },
        }
        j = j + 1;
    }
    proof {
        if j < p@.len() {
            assert(p@.skip(j as int)[0] == p@[j as int]);
            assert(!is_digit(p@.skip(j as int)[0]));
        }
        assert(spec_parse_digits(p@.skip(j as int), acc as int) == Some((acc as int, 0int)));
        assert(spec_parse_digits(p@.skip(dstart as int), 0) == Some(
            (acc as int, (j - dstart) as int),
        ));
        assert(p@.skip(start as int)[0] == p@[start as int]);
        if neg {
            assert(p@.skip(start as int).skip(1) =~= p@.skip(dstart as int));
            assert(p@.skip(start as int)[1] == p@[dstart as int]);
        }
    }
    if neg {
        if acc > 9223372036854775808u64 {
            return None;
        }
        let v: i64 = if acc == 9223372036854775808u64 {
            i64::MIN
        } else {
            -(acc as i64)
        };
        Some((v, j))
    } else {
        if acc > 9223372036854775807u64 {
            return None;
        }
        Some((acc as i64, j))
    }
}

pub open spec fn hex_digit(v: u8) -> u8 {
    if v < 10 {
        (48 + v) as u8
    } else {
        (97 + (v - 10)) as u8
    }
}

pub open spec fn hex_val(c: u8) -> Option<u8> {
    if 48 <= c && c <= 57 {
        Some((c - 48) as u8)
    } else if 97 <= c && c <= 102 {
        Some((c - 97 + 10) as u8)
    } else {
        None
    }
}

/// How one byte is written inside a JSON string: quote, backslash and the
/// short control escapes get two characters, other control bytes six, and
/// everything else passes through.
pub open spec fn esc_byte(b: u8) -> Seq<u8> {
    if b == 34 {
        seq![92u8, 34u8]
    } else if b == 92 {
        seq![92u8, 92u8]
    } else if b == 8 {
        seq![92u8, 98u8]
    } else if b == 9 {
        seq![92u8, 116u8]
    } else if b == 10 {
        seq![92u8, 110u8]
    } else if b == 12 {
        seq![92u8, 102u8]
    } else if b == 13 {
        seq![92u8, 114u8]
    } else if b < 32 {
        seq![92u8, 117u8, 48u8, 48u8, hex_digit(b / 16), hex_digit(b % 16)]
    } else {
        seq![b]
    }
}

/// JSON string-body escaping of a byte sequence.
pub open spec fn esc(s: Seq<u8>) -> Seq<u8>
    decreases s.len(),
{
    if s.len() == 0 {
        Seq::empty()
    } else {
        esc_byte(s[0]) + esc(s.skip(1))
    }
}

pub open spec fn unesc_code(c: u8) -> Option<u8> {
    if c == 34 {
        Some(34u8)
    } else if c == 92 {
        Some(92u8)
    } else if c == 98 {
        Some(8u8)
    } else if c == 116 {
        Some(9u8)
    } else if c == 110 {
        Some(10u8)
    } else if c == 102 {
        Some(12u8)
    } else if c == 114 {
        Some(13u8)
    } else {
        None
    }
}

/// Reads a JSON string body up to and including its closing quote:
/// the content and the count of bytes consumed.
pub open spec fn spec_unesc(p: Seq<u8>) -> Option<(Seq<u8>, int)>
    decreases p.len(),
{
    if p.len() == 0 {
        None
    } else if p[0] == 34 {
        Some((Seq::empty(), 1))
    } else if p[0] == 92 {
        if p.len() < 2 {
            None
        } else if p[1] == 117 {
            if p.len() >= 6 && p[2] == 48 && p[3] == 48 {
                match (hex_val(p[4]), hex_val(p[5])) {
                    (Some(h), Some(l)) => match spec_unesc(p.skip(6)) {
                        Some(tn) => Some((seq![(h * 16 + l) as u8] + tn.0, 6 + tn.1)),
                        None => None,
                    },
                    _ => None,
                }
            } else {
                None
            }
        } else {
            match unesc_code(p[1]) {
                Some(b) => match spec_unesc(p.skip(2)) {
                    Some(tn) => Some((seq![b] + tn.0, 2 + tn.1)),
                    None => None,
                },
                None => None,
            }
        }
    } else {
        match spec_unesc(p.skip(1)) {
            Some(tn) => Some((seq![p[0]] + tn.0, 1 + tn.1)),
            None => None,
        }
    }
}

/// Unescaping reads back exactly what escaping wrote, stopping at the
/// closing quote.
pub proof fn lemma_unesc_esc(s: Seq<u8>, rest: Seq<u8>)
    ensures
        spec_unesc(esc(s) + seq![34u8] + rest) == Some((s, esc(s).len() as int + 1)),
    decreases s.len(),
{
    if s.len() == 0 {
        let p = esc(s) + seq![34u8] + rest;
        assert(p[0] == 34);
        assert(spec_unesc(p) == Some((Seq::<u8>::empty(), 1int)));
        assert(s =~= Seq::<u8>::empty());
    } else {
        let b = s[0];
        let e = esc_byte(b);
        let p = esc(s) + seq![34u8] + rest;
        let q = esc(s.skip(1)) + seq![34u8] + rest;
        lemma_unesc_esc(s.skip(1), rest);
        assert(esc(s) =~= e + esc(s.skip(1)));
        assert(p =~= e + q);
        assert(forall|i: int| 0 <= i < e.len() ==> p[i] == e[i]);
        if b == 34 || b == 92 || b == 8 || b == 9 || b == 10 || b == 12 || b == 13 {
            assert(e.len() == 2);
            assert(p[0] == 92);
            assert(p.len() >= 2);
            assert(p[1] != 117);
            assert(unesc_code(p[1]) == Some(b));
            assert(p.skip(2) =~= q);
            assert(seq![b] + s.skip(1) =~= s);
        } else if b < 32 {
            assert(e.len() == 6);
            assert(p[0] == 92 && p[1] == 117 && p[2] == 48 && p[3] == 48);
            assert(p[4] == hex_digit(b / 16) && p[5] == hex_digit(b % 16));
            assert(hex_val(hex_digit(b / 16)) == Some((b / 16) as u8));
            assert(hex_val(hex_digit(b % 16)) == Some((b % 16) as u8));
            assert((b / 16) * 16 + b % 16 == b);
            assert(p.skip(6) =~= q);
            assert(seq![b] + s.skip(1) =~= s);
        } else {
            assert(e.len() == 1);
            assert(p[0] == b);
            assert(b != 34 && b != 92);
            assert(p.skip(1) =~= q);
            assert(seq![b] + s.skip(1) =~= s);
        }
    }
}

/// Appends the JSON escaping of `s`.
pub fn json_escape(out: &mut Vec<u8>, s: &[u8])
    ensures
        final(out)@ == old(out)@ + esc(s@),
{
    let mut i: usize = 0;
    proof {
        assert(s@.skip(0) =~= s@);
        assert(out@ + esc(s@) =~= old(out)@ + esc(s@));
    }
    while i < s.len()
        invariant
            i <= s@.len(),
            old(out)@ + esc(s@) == out@ + esc(s@.skip(i as int)),
        decreases s@.len() - i,
    {
        let b = s[i];
        let ghost pre = out@;
        proof {
            assert(s@.skip(i as int)[0] == b);
            assert(s@.skip(i as int).skip(1) =~= s@.skip(i + 1));
        }
        if b == 34 {
            out.push(92);
            out.push(34);
        } else if b == 92 {
            out.push(92);
            out.push(92);
        } else if b == 8 {
            out.push(92);
            out.push(98);
        } else if b == 9 {
            out.push(92);
            out.push(116);
        } else if b == 10 {
            out.push(92);
            out.push(110);
        } else if b == 12 {
            out.push(92);
            out.push(102);
        } else if b == 13 {
            out.push(92);
            out.push(114);
        } else if b < 32 {
            out.push(92);
            out.push(117);
            out.push(48);
            out.push(48);
            out.push(if b / 16 < 10 {
                48 + b / 16
            } else {
                97 + (b / 16 - 10)
            });
            out.push(if b % 16 < 10 {
                48 + b % 16
            } else {
                97 + (b % 16 - 10)
            });
        } else {
            out.push(b);
        }
        proof {
            assert(out@ =~= pre + esc_byte(b));
            assert(pre + (esc_byte(b) + esc(s@.skip(i + 1))) =~= out@ + esc(s@.skip(i + 1)));
        }
        i = i + 1;
    }
    proof {
        assert(esc(s@.skip(i as int)) =~= Seq::<u8>::empty());
        assert(out@ + Seq::<u8>::empty() =~= out@);
    }
}

/// Whether a finished unescape joins a partial one at `j`.
spec fn unesc_step_joins(whole: Seq<u8>, start: int, j: int, done: Seq<u8>) -> bool {
    match spec_unesc(whole.skip(j)) {
        Some(tn) => spec_unesc(whole.skip(start)) == Some((done + tn.0, (j - start) + tn.1)),
        None => spec_unesc(whole.skip(start)) is None,
    }
}

/// Reads a JSON string body starting at `start`, through its closing quote;
/// returns the unescaped content and the position just past the quote.
pub fn json_unescape(p: &[u8], start: usize) -> (r: Option<(Vec<u8>, usize)>)
    requires
        start <= p@.len(),
    ensures
        match r {
            Some(cp) => {
                &&& start < cp.1 <= p@.len()
                &&& spec_unesc(p@.skip(start as int)) == Some((cp.0@, cp.1 - start))
            },
            None => spec_unesc(p@.skip(start as int)) is None,
        },
{
    let mut out: Vec<u8> = Vec::new();
    let mut j = start;
    proof {
        if spec_unesc(p@.skip(start as int)) is Some {
            let tn = spec_unesc(p@.skip(start as int))->Some_0;
            assert(out@ + tn.0 =~= tn.0);
        }
    }
    loop
        invariant
            start <= j <= p@.len(),
            unesc_step_joins(p@, start as int, j as int, out@),
        decreases p@.len() - j,
    {
        if j >= p.len() {
            return None;
        }
        let b = p[j];
        proof {
            assert(p@.skip(j as int)[0] == b);
        }
        if b == 34 {
            proof {
                assert(spec_unesc(p@.skip(j as int)) == Some((Seq::<u8>::empty(), 1int)));
                assert(out@ + Seq::<u8>::empty() =~= out@);
            }
            return Some((out, j + 1));
        } else if b == 92 {
            if p.len() - j < 2 {
                return None;
            }
            let c = p[j + 1];
            proof {
                assert(p@.skip(j as int)[1] == c);
            }
            if c == 117 {
                if p.len() - j < 6 {
                    return None;
                }
                proof {
                    assert(p@.skip(j as int)[2] == p@[j + 2]);
                    assert(p@.skip(j as int)[3] == p@[j + 3]);
                    assert(p@.skip(j as int)[4] == p@[j + 4]);
                    assert(p@.skip(j as int)[5] == p@[j + 5]);
                    assert(p@.skip(j as int).skip(6) =~= p@.skip(j + 6));
                }
                if !(p[j + 2] == 48 && p[j + 3] == 48) {
                    return None;
                }
                let h = p[j + 4];
                let l = p[j + 5];
                let hv: u8 = if 48 <= h && h <= 57 {
                    h - 48
                } else if 97 <= h && h <= 102 {
                    h - 97 + 10
                } else {
                    return None;
                };
                let lv: u8 = if 48 <= l && l <= 57 {
                    l - 48
                } else if 97 <= l && l <= 102 {
                    l - 97 + 10
                } else {
                    return None;
                };
                let ghost pre = out@;
                out.push(hv * 16 + lv);
                proof {
                    assert(out@ =~= pre + seq![(hv * 16 + lv) as u8]);
                    if spec_unesc(p@.skip(j + 6)) is Some {
                        let tn = spec_unesc(p@.skip(j + 6))->Some_0;
                        assert(pre + (seq![(hv * 16 + lv) as u8] + tn.0) =~= out@ + tn.0);
                    }
                }
                j = j + 6;
            } else {
                let ub: u8 = if c == 34 {
                    34
                } else if c == 92 {
                    92
                } else if c == 98 {
                    8
                } else if c == 116 {
                    9
                } else if c == 110 {
                    10
                } else if c == 102 {
                    12
                } else if c == 114 {
                    13
                } else {
                    return None;
                };
                proof {
                    assert(unesc_code(c) == Some(ub));
                    assert(p@.skip(j as int).skip(2) =~= p@.skip(j + 2));
                }
                let ghost pre = out@;
                out.push(ub);
                proof {
                    assert(out@ =~= pre + seq![ub]);
                    if spec_unesc(p@.skip(j + 2)) is Some {
                        let tn = spec_unesc(p@.skip(j + 2))->Some_0;
                        assert(pre + (seq![ub] + tn.0) =~= out@ + tn.0);
                    }
                }
                j = j + 2;
            }
        } else {
            proof {
                assert(p@.skip(j as int).skip(1) =~= p@.skip(j + 1));
            }
            let ghost pre = out@;
            out.push(b);
            proof {
                assert(out@ =~= pre + seq![b]);
                if spec_unesc(p@.skip(j + 1)) is Some {
                    let tn = spec_unesc(p@.skip(j + 1))->Some_0;
                    assert(pre + (seq![b] + tn.0) =~= out@ + tn.0);
                }
            }
            j = j + 1;
        }
    }
}

} // verus!
