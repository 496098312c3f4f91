//! Canonical JSON serialisation of the token's header and claims.
//!
//! The signed bytes must be reproducible exactly, so the two record shapes
//! are serialised with a fixed key order, integer timestamps, and a fixed
//! string-escaping scheme, rather than through a JSON library whose output
//! could drift.

use vstd::prelude::*;

use vstd::string::StrSliceExecFns;
use vstd::utf8::encode_utf8;

verus! {

/// The decimal digits of a non-negative integer, most significant first.
pub open spec fn dec_nat(n: nat) -> Seq<u8>
    decreases n,
{
    if n < 10 {
        seq![(48 + n) as u8]
    } else {
        dec_nat(n / 10).push((48 + n % 10) as u8)
    }
}

/// The canonical decimal rendering of an integer: a leading `-` for
/// negative values, digits otherwise, never a leading zero.
pub open spec fn dec_i64(n: int) -> Seq<u8>
    recommends
        n > i64::MIN,
{
    if n < 0 {
        seq![45u8] + dec_nat((-n) as nat)
    } else {
        dec_nat(n as nat)
    }
}

/// Appends the decimal digits of `n` to `out`.
pub fn push_decimal_u64(out: &mut Vec<u8>, n: u64)
    ensures
        final(out)@ == old(out)@ + dec_nat(n as nat),
    decreases n,
{
    if n < 10 {
        out.push(48 + n as u8);
        proof {
            assert(out@ =~= old(out)@ + dec_nat(n as nat));
        }
    } else {
        push_decimal_u64(out, n / 10);
        out.push(48 + (n % 10) as u8);
        proof {
            assert(out@ =~= old(out)@ + dec_nat(n as nat));
        }
    }
}

/// Appends the canonical decimal rendering of `n` to `out`.
pub fn push_decimal_i64(out: &mut Vec<u8>, n: i64)
    requires
        n > i64::MIN,
    ensures
        final(out)@ == old(out)@ + dec_i64(n as int),
{
    if n < 0 {
        out.push(45);
        push_decimal_u64(out, (-n) as u64);
        proof {
            assert(out@ =~= old(out)@ + dec_i64(n as int));
        }
    } else {
        push_decimal_u64(out, n as u64);
    }
}

/// The byte for one hexadecimal digit, lower case.
pub open spec fn hex_digit(n: u8) -> u8
    recommends
        n < 16,
{
    if n < 10 {
        (48 + n) as u8
    } else {
        (87 + n) as u8
    }
}

/// How one byte of a JSON string value is written: `"` and `\` get a
/// backslash escape, control bytes get a `\u00XX` escape, and every other
/// byte — including non-ASCII UTF-8 bytes — passes through unchanged.
pub open spec fn escaped_byte(b: u8) -> Seq<u8> {
    if b == 34 {
        seq![92u8, 34u8]
    } else if b == 92 {
        seq![92u8, 92u8]
    } else if b < 32 {
        seq![92u8, 117u8, 48u8, 48u8, hex_digit(b / 16), hex_digit(b % 16)]
    } else {
        seq![b]
    }
}

/// The JSON string-value escaping of a whole byte sequence.
pub open spec fn json_escaped(s: Seq<u8>) -> Seq<u8>
    decreases s.len(),
{
    if s.len() == 0 {
        seq![]
    } else {
        json_escaped(s.drop_last()) + escaped_byte(s.last())
    }
}

/// Appends the JSON string-value escaping of `s` to `out`.
pub fn push_json_escaped(out: &mut Vec<u8>, s: &Vec<u8>)
    ensures
        final(out)@ == old(out)@ + json_escaped(s@),
{
    let mut i: usize = 0;
    while i < s.len()
        invariant
            i <= s.len(),
            out@ == old(out)@ + json_escaped(s@.take(i as int)),
        decreases s.len() - i,
    {
        let b = s[i];
        proof {
            assert(s@.take(i + 1).drop_last() =~= s@.take(i as int));
            assert(s@.take(i + 1).last() == b);
        }
        if b == 34 {
            out.push(92);
            out.push(34);
        } else if b == 92 {
            out.push(92);
            out.push(92);
        } else if b < 32 {
            out.push(92);
            out.push(117);
            out.push(48);
            out.push(48);
            let hi = b / 16;
            let lo = b % 16;
            out.push(if hi < 10 { 48 + hi } else { 87 + hi });
            out.push(if lo < 10 { 48 + lo } else { 87 + lo });
        } else {
            out.push(b);
        }
        proof {
            assert(out@ =~= old(out)@ + json_escaped(s@.take(i + 1)));
        }
        i += 1;
    }
    proof {
        assert(s@.take(s@.len() as int) =~= s@);
    }
}

/// The characters of the fixed header record.  The compatibility form adds
/// the non-standard `sign_type` field that some verifiers expect.
pub open spec fn header_chars(legacy_sign_type: bool) -> Seq<char> {
    if legacy_sign_type {
        "{\"alg\":\"HS256\",\"typ\":\"JWT\",\"sign_type\":\"SIGN\"}"@
    } else {
        "{\"alg\":\"HS256\",\"typ\":\"JWT\"}"@
    }
}

/// The UTF-8 bytes of the fixed header record.
pub open spec fn header_bytes(legacy_sign_type: bool) -> Seq<u8> {
    encode_utf8(header_chars(legacy_sign_type))
}

/// Serialises the header record.
pub fn header_json(legacy_sign_type: bool) -> (v: Vec<u8>)
    ensures
        v@ == header_bytes(legacy_sign_type),
{
    if legacy_sign_type {
        "{\"alg\":\"HS256\",\"typ\":\"JWT\",\"sign_type\":\"SIGN\"}".as_bytes_vec()
    } else {
        "{\"alg\":\"HS256\",\"typ\":\"JWT\"}".as_bytes_vec()
    }
}

/// Decimal renderings are non-empty and consist of digit bytes.
pub proof fn lemma_dec_nat_shape(n: nat)
    ensures
        dec_nat(n).len() >= 1,
        forall|i: int| 0 <= i < dec_nat(n).len() ==> 48 <= #[trigger] dec_nat(n)[i] <= 57,
    decreases n,
{
    if n >= 10 {
        lemma_dec_nat_shape(n / 10);
        assert forall|i: int| 0 <= i < dec_nat(n).len() implies 48 <= #[trigger] dec_nat(n)[i]
            <= 57 by {
            if i < dec_nat(n / 10).len() {
                assert(dec_nat(n)[i] == dec_nat(n / 10)[i]);
            }
        }
    }
}

/// Two equal decimal renderings come from the same number.
pub proof fn lemma_dec_nat_injective(a: nat, b: nat)
    requires
        dec_nat(a) == dec_nat(b),
    ensures
        a == b,
    decreases a,
{
    lemma_dec_nat_shape(a);
    lemma_dec_nat_shape(b);
    if a < 10 && b < 10 {
        assert(dec_nat(a)[0] == dec_nat(b)[0]);
        assert(((48 + a) as u8) as nat == 48 + a);
        assert(((48 + b) as u8) as nat == 48 + b);
    } else if a < 10 && b >= 10 {
        lemma_dec_nat_shape(b / 10);
        assert(dec_nat(b).len() >= 2);
    } else if a >= 10 && b < 10 {
        lemma_dec_nat_shape(a / 10);
        assert(dec_nat(a).len() >= 2);
    } else {
        assert(dec_nat(a).last() == dec_nat(b).last());
        assert(dec_nat(a).last() == (48 + a % 10) as u8);
        assert(dec_nat(b).last() == (48 + b % 10) as u8);
        assert(((48 + a % 10) as u8) as nat == 48 + a % 10);
        assert(((48 + b % 10) as u8) as nat == 48 + b % 10);
        assert(a % 10 == b % 10);
        assert(dec_nat(a).drop_last() =~= dec_nat(a / 10));
        assert(dec_nat(b).drop_last() =~= dec_nat(b / 10));
        lemma_dec_nat_injective(a / 10, b / 10);
        vstd::arithmetic::div_mod::lemma_fundamental_div_mod(a as int, 10);
        vstd::arithmetic::div_mod::lemma_fundamental_div_mod(b as int, 10);
    }
}

/// Signed decimal renderings are non-empty, consist of `-` and digit
/// bytes, and start with `-` exactly for negative numbers.
pub proof fn lemma_dec_i64_shape(n: int)
    requires
        n > i64::MIN,
    ensures
        dec_i64(n).len() >= 1,
        forall|i: int|
            0 <= i < dec_i64(n).len() ==> (#[trigger] dec_i64(n)[i] == 45 || 48 <= dec_i64(n)[i]
                <= 57),
        n >= 0 ==> 48 <= dec_i64(n)[0] <= 57,
        n < 0 ==> dec_i64(n)[0] == 45,
{
    if n < 0 {
        lemma_dec_nat_shape((-n) as nat);
        assert forall|i: int|
            0 <= i < dec_i64(n).len() implies (#[trigger] dec_i64(n)[i] == 45 || 48 <= dec_i64(
            n,
        )[i] <= 57) by {
            if i > 0 {
                assert(dec_i64(n)[i] == dec_nat((-n) as nat)[i - 1]);
            }
        }
    } else {
        lemma_dec_nat_shape(n as nat);
    }
}

/// Two equal signed decimal renderings come from the same number.
pub proof fn lemma_dec_i64_injective(a: int, b: int)
    requires
        a > i64::MIN,
        b > i64::MIN,
        dec_i64(a) == dec_i64(b),
    ensures
        a == b,
{
    lemma_dec_i64_shape(a);
    lemma_dec_i64_shape(b);
    assert(dec_i64(a)[0] == dec_i64(b)[0]);
    if a < 0 && b < 0 {
        assert(dec_i64(a).drop_first() =~= dec_nat((-a) as nat));
        assert(dec_i64(b).drop_first() =~= dec_nat((-b) as nat));
        lemma_dec_nat_injective((-a) as nat, (-b) as nat);
    } else if a >= 0 && b >= 0 {
        lemma_dec_nat_injective(a as nat, b as nat);
    }
}

/// Equal sequences with the same prefix have the same remainder.
pub proof fn lemma_concat_cancel_left(a: Seq<u8>, b: Seq<u8>, c: Seq<u8>)
    requires
        a + b == a + c,
    ensures
        b == c,
{
    assert((a + b).len() == a.len() + b.len());
    assert((a + c).len() == a.len() + c.len());
    assert(b.len() == c.len());
    assert(b =~= c) by {
        assert forall|j: int| 0 <= j < b.len() implies b[j] == c[j] by {
            assert((a + b)[a.len() + j] == b[j]);
            assert((a + c)[a.len() + j] == c[j]);
        }
    }
}

/// Cutting at the first occurrence of a marker byte is unambiguous when
/// neither head contains it.
pub proof fn lemma_cut_at_marker(a1: Seq<u8>, b1: Seq<u8>, a2: Seq<u8>, b2: Seq<u8>, x: u8)
    requires
        forall|i: int| 0 <= i < a1.len() ==> a1[i] != x,
        forall|i: int| 0 <= i < a2.len() ==> a2[i] != x,
        b1.len() > 0 && b1[0] == x,
        b2.len() > 0 && b2[0] == x,
        a1 + b1 == a2 + b2,
    ensures
        a1 == a2,
        b1 == b2,
{
    let t = a1 + b1;
    let u = a2 + b2;
    let n1 = a1.len() as int;
    let n2 = a2.len() as int;
    assert(t[n1] == x);
    assert(u[n2] == x);
    if n1 < n2 {
        assert(t[n1] == u[n1]);
        assert(u[n1] == a2[n1]);
        assert(false);
    }
    if n2 < n1 {
        assert(u[n2] == t[n2]);
        assert(t[n2] == a1[n2]);
        assert(false);
    }
    assert(a1 =~= a2) by {
        assert forall|j: int| 0 <= j < n1 implies a1[j] == a2[j] by {
            assert(t[j] == a1[j]);
            assert(u[j] == a2[j]);
        }
    }
    lemma_concat_cancel_left(a1, b1, b2);
}

/// The serialised claims record pins both timestamps: any reading of the
/// same record as the same id with some `exp` and `timestamp` reads the
/// one pair it was written from.
pub proof fn lemma_payload_bytes_injective(id: Seq<u8>, e1: int, i1: int, e2: int, i2: int)
    requires
        e1 > i64::MIN,
        i1 > i64::MIN,
        e2 > i64::MIN,
        i2 > i64::MIN,
        payload_bytes(id, e1, i1) == payload_bytes(id, e2, i2),
    ensures
        e1 == e2,
        i1 == i2,
{
    let pre = encode_utf8("{\"api_key\":\""@) + json_escaped(id) + encode_utf8("\",\"exp\":"@);
    let ts_key = encode_utf8(",\"timestamp\":"@);
    let close = encode_utf8("}"@);
    assert(payload_bytes(id, e1, i1) =~= pre + (dec_i64(e1) + (ts_key + (dec_i64(i1) + close))));
    assert(payload_bytes(id, e2, i2) =~= pre + (dec_i64(e2) + (ts_key + (dec_i64(i2) + close))));
    lemma_concat_cancel_left(
        pre,
        dec_i64(e1) + (ts_key + (dec_i64(i1) + close)),
        dec_i64(e2) + (ts_key + (dec_i64(i2) + close)),
    );
    lemma_dec_i64_shape(e1);
    lemma_dec_i64_shape(e2);
    lemma_dec_i64_shape(i1);
    lemma_dec_i64_shape(i2);
    proof_ts_key_starts_with_comma();
    lemma_cut_at_marker(
        dec_i64(e1),
        ts_key + (dec_i64(i1) + close),
        dec_i64(e2),
        ts_key + (dec_i64(i2) + close),
        44,
    );
    lemma_dec_i64_injective(e1, e2);
    lemma_concat_cancel_left(ts_key, dec_i64(i1) + close, dec_i64(i2) + close);
    proof_close_is_brace();
    lemma_cut_at_marker(dec_i64(i1), close, dec_i64(i2), close, 125);
    lemma_dec_i64_injective(i1, i2);
}

/// The timestamp key begins with the `,` separator byte.
proof fn proof_ts_key_starts_with_comma()
    ensures
        encode_utf8(",\"timestamp\":"@).len() > 0,
        encode_utf8(",\"timestamp\":"@)[0] == 44,
{
    reveal_strlit(",\"timestamp\":");
    let s = ",\"timestamp\":"@;
    assert(s[0] == ',');
    assert(',' as u32 == 44);
    assert(44u32 & 0x7F == 44) by (bit_vector);
    assert(encode_utf8(s) == vstd::utf8::encode_scalar(s[0] as u32) + encode_utf8(s.drop_first()));
}

/// The closing byte sequence is exactly one `}`.
proof fn proof_close_is_brace()
    ensures
        encode_utf8("}"@).len() > 0,
        encode_utf8("}"@)[0] == 125,
{
    reveal_strlit("}");
    let s = "}"@;
    assert(s[0] == '}');
    assert('}' as u32 == 125);
    assert(125u32 & 0x7F == 125) by (bit_vector);
    assert(encode_utf8(s) == vstd::utf8::encode_scalar(s[0] as u32) + encode_utf8(s.drop_first()));
}

/// The serialised header is never empty, and small enough that its
/// encoding always fits.
pub proof fn lemma_header_bytes_len(legacy_sign_type: bool)
    ensures
        0 < header_bytes(legacy_sign_type).len() <= 47,
{
    reveal_strlit("{\"alg\":\"HS256\",\"typ\":\"JWT\",\"sign_type\":\"SIGN\"}");
    reveal_strlit("{\"alg\":\"HS256\",\"typ\":\"JWT\"}");
    let s = header_chars(legacy_sign_type);
    assert(0 < s.len() <= 47);
    assert(vstd::utf8::is_ascii_chars(s));
    vstd::utf8::is_ascii_chars_encode_utf8(s);
}

/// The serialised claims record is never empty.
pub proof fn lemma_payload_bytes_nonempty(id: Seq<u8>, exp: int, iat: int)
    ensures
        payload_bytes(id, exp, iat).len() > 0,
{
    reveal_strlit("{\"api_key\":\"");
    assert("{\"api_key\":\""@.len() > 0);
    assert(encode_utf8("{\"api_key\":\""@).len() > 0);
}

/// The UTF-8 bytes of the claims record, keys in the fixed order
/// `api_key`, `exp`, `timestamp`, timestamps as plain integers.
pub open spec fn payload_bytes(id: Seq<u8>, exp: int, iat: int) -> Seq<u8> {
    encode_utf8("{\"api_key\":\""@) + json_escaped(id) + encode_utf8("\",\"exp\":"@) + dec_i64(exp)
        + encode_utf8(",\"timestamp\":"@) + dec_i64(iat) + encode_utf8("}"@)
}

/// Serialises the claims record from the issuer id's UTF-8 bytes and the
/// two millisecond timestamps.
pub fn payload_json(id: &Vec<u8>, exp: i64, iat: i64) -> (v: Vec<u8>)
    requires
        exp > i64::MIN,
        iat > i64::MIN,
    ensures
        v@ == payload_bytes(id@, exp as int, iat as int),
{
    let mut v = "{\"api_key\":\"".as_bytes_vec();
    push_json_escaped(&mut v, id);
    let mut exp_key = "\",\"exp\":".as_bytes_vec();
    v.append(&mut exp_key);
    push_decimal_i64(&mut v, exp);
    let mut ts_key = ",\"timestamp\":".as_bytes_vec();
    v.append(&mut ts_key);
    push_decimal_i64(&mut v, iat);
    let mut close = "}".as_bytes_vec();
    v.append(&mut close);
    proof {
        assert(v@ =~= payload_bytes(id@, exp as int, iat as int));
    }
    v
}

} // verus!
