//! Splitting the composite credential `"<id>.<secret>"`.

use vstd::prelude::*;

use vstd::string::{StrSliceExecFns, StringSliceAdditionalSpecFns};

use crate::errors::JWTError;

verus! {

/// The index of the first occurrence of `x` in `s`, or `-1` if absent.
pub open spec fn first_pos<T>(s: Seq<T>, x: T) -> int
    decreases s.len(),
{
    if s.len() == 0 {
        -1
    } else if s[0] == x {
        0
    } else {
        let r = first_pos(s.drop_first(), x);
        if r < 0 {
            -1
        } else {
            r + 1
        }
    }
}

/// If `i` is an occurrence of `x` with none before it, it is the first.
pub proof fn lemma_first_pos_found<T>(s: Seq<T>, x: T, i: int)
    requires
        0 <= i < s.len(),
        s[i] == x,
        forall|j: int| 0 <= j < i ==> s[j] != x,
    ensures
        first_pos(s, x) == i,
    decreases i,
{
    if i > 0 {
        lemma_first_pos_found(s.drop_first(), x, i - 1);
    }
}

/// If `x` occurs nowhere in `s`, there is no first occurrence.
pub proof fn lemma_first_pos_absent<T>(s: Seq<T>, x: T)
    requires
        forall|j: int| 0 <= j < s.len() ==> s[j] != x,
    ensures
        first_pos(s, x) == -1,
    decreases s.len(),
{
    if s.len() > 0 {
        lemma_first_pos_absent(s.drop_first(), x);
    }
}

/// A credential is valid when it splits on its single `.` into a non-empty
/// id and a non-empty secret: the first dot exists, is neither first nor
/// last, and no second dot follows it.
pub open spec fn valid_credential(s: Seq<u8>) -> bool {
    let i = first_pos(s, 46);
    &&& 1 <= i
    &&& i + 2 <= s.len()
    &&& forall|j: int| i < j < s.len() ==> s[j] != 46
}

/// The UTF-8 bytes of the id: everything before the first dot.
pub open spec fn credential_id(s: Seq<u8>) -> Seq<u8>
    recommends
        valid_credential(s),
{
    s.subrange(0, first_pos(s, 46))
}

/// The UTF-8 bytes of the secret: everything after the first dot.
pub open spec fn credential_secret(s: Seq<u8>) -> Seq<u8>
    recommends
        valid_credential(s),
{
    s.subrange(first_pos(s, 46) + 1, s.len() as int)
}

/// Validity read at the character level: exactly one `.`, neither first
/// nor last, so the string splits into a non-empty id and a non-empty
/// secret.
pub open spec fn valid_credential_chars(s: Seq<char>) -> bool {
    let i = first_pos(s, '.');
    &&& 1 <= i
    &&& i + 2 <= s.len()
    &&& forall|j: int| i < j < s.len() ==> s[j] != '.'
}

/// Two pointwise-matching sequences have their first occurrences at the
/// same place.
proof fn lemma_first_pos_pointwise(bytes: Seq<u8>, chars: Seq<char>)
    requires
        bytes.len() == chars.len(),
        forall|i: int| 0 <= i < bytes.len() ==> ((bytes[i] == 46) <==> (chars[i] == '.')),
    ensures
        first_pos(bytes, 46) == first_pos(chars, '.'),
    decreases bytes.len(),
{
    if bytes.len() > 0 {
        assert forall|i: int|
            0 <= i < bytes.drop_first().len() implies ((bytes.drop_first()[i] == 46) <==> (
        chars.drop_first()[i] == '.')) by {
            assert(bytes.drop_first()[i] == bytes[i + 1]);
            assert(chars.drop_first()[i] == chars[i + 1]);
        }
        lemma_first_pos_pointwise(bytes.drop_first(), chars.drop_first());
    }
}

/// Law: for an ASCII credential the byte-level validity the contracts
/// speak of is exactly the string-level reading — one `.` separating a
/// non-empty id from a non-empty secret.
pub proof fn lemma_valid_credential_ascii(chars: Seq<char>)
    requires
        vstd::utf8::is_ascii_chars(chars),
    ensures
        valid_credential(vstd::utf8::encode_utf8(chars)) <==> valid_credential_chars(chars),
{
    let bytes = vstd::utf8::encode_utf8(chars);
    vstd::utf8::is_ascii_chars_encode_utf8(chars);
    assert forall|i: int| 0 <= i < bytes.len() implies ((bytes[i] == 46) <==> (chars[i]
        == '.')) by {
        assert(chars[i] as u8 == bytes[i]);
        assert((chars[i] as u32) < 128);
        assert('.' as u32 == 46);
    }
    lemma_first_pos_pointwise(bytes, chars);
}

/// Splits the composite credential into the UTF-8 bytes of its id and its
/// secret, rejecting anything without exactly one `.` between two
/// non-empty parts.
pub fn split_credential(credential: &str) -> (r: Result<(Vec<u8>, Vec<u8>), JWTError>)
    ensures
        r is Ok <==> valid_credential(credential.spec_bytes()),
        r matches Ok(p) ==> {
            &&& p.0@ == credential_id(credential.spec_bytes())
            &&& p.1@ == credential_secret(credential.spec_bytes())
        },
        r matches Err(e) ==> e == JWTError::InvalidCredentialFormat,
{
    let bytes = credential.as_bytes_vec();
    let n = bytes.len();
    let mut dot: usize = 0;
    while dot < n && bytes[dot] != 46
        invariant
            dot <= n,
            n == bytes.len(),
            bytes@ == credential.spec_bytes(),
            forall|j: int| 0 <= j < dot ==> bytes@[j] != 46,
        decreases n - dot,
    {
        dot += 1;
    }
    if dot == n {
        proof {
            lemma_first_pos_absent(bytes@, 46);
        }
        return Err(JWTError::InvalidCredentialFormat);
    }
    proof {
        lemma_first_pos_found(bytes@, 46, dot as int);
    }
    let mut k: usize = dot + 1;
    while k < n && bytes[k] != 46
        invariant
            dot < k <= n,
            n == bytes.len(),
            bytes@ == credential.spec_bytes(),
            forall|j: int| dot < j < k ==> bytes@[j] != 46,
        decreases n - k,
    {
        k += 1;
    }
    if k < n {
        // a second separator
        return Err(JWTError::InvalidCredentialFormat);
    }
    if dot == 0 || n - dot < 2 {
        // an empty id or an empty secret
        return Err(JWTError::InvalidCredentialFormat);
    }
    let mut id: Vec<u8> = Vec::new();
    let mut j: usize = 0;
    while j < dot
        invariant
            j <= dot,
            dot < n == bytes.len(),
            id@ == bytes@.subrange(0, j as int),
        decreases dot - j,
    {
        id.push(bytes[j]);
        proof {
            assert(id@ =~= bytes@.subrange(0, j + 1));
        }
        j += 1;
    }
    let mut secret: Vec<u8> = Vec::new();
    let mut m: usize = dot + 1;
    while m < n
        invariant
            dot + 1 <= m <= n,
            n == bytes.len(),
            secret@ == bytes@.subrange(dot + 1, m as int),
        decreases n - m,
    {
        secret.push(bytes[m]);
        proof {
            assert(secret@ =~= bytes@.subrange(dot + 1, m + 1));
        }
        m += 1;
    }
    Ok((id, secret))
}

} // verus!
