//! Signed, time-bounded identity claims.
//!
//! A token is the usual three-segment form: a fixed header, the claims
//! payload, and a keyed signature, each segment base64url-encoded and the
//! segments joined by dots.  The payload is the JSON object
//! `{"exp":E,"iat":I,"sub":"S","role":"R"}`; this module serializes and
//! parses that object in verified code, so that issuing and verifying a
//! token are exact inverses up to the trusted signature primitive.

use vstd::prelude::*;
use vstd::string::StringSliceAdditionalSpecFns;

use crate::base64url::{
    b64_decode_range, b64_encode, b64_encode_push, is_b64_byte, lemma_b64_no_dot,
    lemma_decode_of_encode, lemma_encode_bytes_in_alphabet, lemma_encode_of_decode,
};
use crate::digits::{
    dec_digits, digits_val, lemma_dec_digits_wf, lemma_scan_of_dec_digits, push_dec_u128,
    scan_digits_end, scan_u128,
};
use crate::ascii::ascii_to_string;
use crate::error::AuthError;

verus! {

/// The two roles a user can hold.
#[derive(Clone, Copy, Debug, PartialEq, Eq, Structural)]
pub enum Role {
    Admin,
    User,
}

/// The signed payload of a session token.  Timestamps are seconds since
/// the epoch; `sub` is the stable user identifier.
#[derive(Clone, Copy, Debug, PartialEq, Eq, Structural)]
pub struct Claims {
    pub exp: i64,
    pub iat: i64,
    pub sub: u128,
    pub role: Role,
}

/// Claims the token format can carry: non-negative timestamps.
pub open spec fn wf_claims(c: Claims) -> bool {
    0 <= c.exp && 0 <= c.iat
}

/// JSON spelling of a role.
pub open spec fn role_bytes(r: Role) -> Seq<u8> {
    match r {
        Role::Admin => seq![0x61u8, 0x64, 0x6D, 0x69, 0x6E],
        Role::User => seq![0x75u8, 0x73, 0x65, 0x72],
    }
}

/// `{"exp":`
pub open spec fn lit_exp() -> Seq<u8> {
    seq![0x7Bu8, 0x22, 0x65, 0x78, 0x70, 0x22, 0x3A]
}

/// `,"iat":`
pub open spec fn lit_iat() -> Seq<u8> {
    seq![0x2Cu8, 0x22, 0x69, 0x61, 0x74, 0x22, 0x3A]
}

/// `,"sub":"`
pub open spec fn lit_sub() -> Seq<u8> {
    seq![0x2Cu8, 0x22, 0x73, 0x75, 0x62, 0x22, 0x3A, 0x22]
}

/// `","role":"`
pub open spec fn lit_role() -> Seq<u8> {
    seq![0x22u8, 0x2C, 0x22, 0x72, 0x6F, 0x6C, 0x65, 0x22, 0x3A, 0x22]
}

/// `"}`
pub open spec fn lit_end() -> Seq<u8> {
    seq![0x22u8, 0x7D]
}

/// The canonical JSON payload of a claims value.
pub open spec fn ser_claims(c: Claims) -> Seq<u8> {
    lit_exp() + dec_digits(c.exp as int) + lit_iat() + dec_digits(c.iat as int) + lit_sub()
        + dec_digits(c.sub as int) + lit_role() + role_bytes(c.role) + lit_end()
}

/// Index just past the `exp` digits.
pub open spec fn exp_end(c: Claims) -> int {
    7 + dec_digits(c.exp as int).len() as int
}

/// Index just past the `iat` digits.
pub open spec fn iat_end(c: Claims) -> int {
    exp_end(c) + 7 + dec_digits(c.iat as int).len() as int
}

/// Index just past the `sub` digits.
pub open spec fn sub_end(c: Claims) -> int {
    iat_end(c) + 8 + dec_digits(c.sub as int).len() as int
}

/// Where the payload of a serialized claims value keeps each field.
pub proof fn lemma_ser_positions(c: Claims)
    requires
        wf_claims(c),
    ensures
        ser_claims(c).len() == sub_end(c) + 10 + role_bytes(c.role).len() + 2,
        8 <= exp_end(c),
        exp_end(c) + 8 <= iat_end(c),
        iat_end(c) + 9 <= sub_end(c),
        sub_end(c) + 16 <= ser_claims(c).len(),
        scan_digits_end(ser_claims(c), 7) == exp_end(c),
        digits_val(ser_claims(c).subrange(7, exp_end(c))) == c.exp,
        scan_digits_end(ser_claims(c), exp_end(c) + 7) == iat_end(c),
        digits_val(ser_claims(c).subrange(exp_end(c) + 7, iat_end(c))) == c.iat,
        scan_digits_end(ser_claims(c), iat_end(c) + 8) == sub_end(c),
        digits_val(ser_claims(c).subrange(iat_end(c) + 8, sub_end(c))) == c.sub,
        ser_claims(c)[sub_end(c) + 10] == (if c.role is Admin {
            0x61u8
        } else {
            0x75u8
        }),
{
    let s = ser_claims(c);
    let e = dec_digits(c.exp as int);
    let i = dec_digits(c.iat as int);
    let u = dec_digits(c.sub as int);
    let r = role_bytes(c.role);
    lemma_dec_digits_wf(c.exp as int);
    lemma_dec_digits_wf(c.iat as int);
    lemma_dec_digits_wf(c.sub as int);
    assert(s.len() == 7 + e.len() + 7 + i.len() + 8 + u.len() + 10 + r.len() + 2);

    assert(s.subrange(7, exp_end(c)) =~= e);
    assert(s[exp_end(c)] == 0x2Cu8);
    lemma_scan_of_dec_digits(s, 7, c.exp as int);

    assert(s.subrange(exp_end(c) + 7, iat_end(c)) =~= i);
    assert(s[iat_end(c)] == 0x2Cu8);
    lemma_scan_of_dec_digits(s, exp_end(c) + 7, c.iat as int);

    assert(s.subrange(iat_end(c) + 8, sub_end(c)) =~= u);
    assert(s[sub_end(c)] == 0x22u8);
    lemma_scan_of_dec_digits(s, iat_end(c) + 8, c.sub as int);

    assert(s[sub_end(c) + 10] == r[0]);
}

/// Appends `{"exp":` to `out`.
fn push_lit_exp(out: &mut Vec<u8>)
    ensures
        final(out)@ == old(out)@ + lit_exp(),
{
    out.push(0x7B);
    out.push(0x22);
    out.push(0x65);
    out.push(0x78);
    out.push(0x70);
    out.push(0x22);
    out.push(0x3A);
    proof {
        assert(out@ =~= old(out)@ + lit_exp());
    }
}

/// Appends `,"iat":` to `out`.
fn push_lit_iat(out: &mut Vec<u8>)
    ensures
        final(out)@ == old(out)@ + lit_iat(),
{
    out.push(0x2C);
    out.push(0x22);
    out.push(0x69);
    out.push(0x61);
    out.push(0x74);
    out.push(0x22);
    out.push(0x3A);
    proof {
        assert(out@ =~= old(out)@ + lit_iat());
    }
}

/// Appends `,"sub":"` to `out`.
fn push_lit_sub(out: &mut Vec<u8>)
    ensures
        final(out)@ == old(out)@ + lit_sub(),
{
    out.push(0x2C);
    out.push(0x22);
    out.push(0x73);
    out.push(0x75);
    out.push(0x62);
    out.push(0x22);
    out.push(0x3A);
    out.push(0x22);
    proof {
        assert(out@ =~= old(out)@ + lit_sub());
    }
}

/// Appends `","role":"` to `out`.
fn push_lit_role(out: &mut Vec<u8>)
    ensures
        final(out)@ == old(out)@ + lit_role(),
{
    out.push(0x22);
    out.push(0x2C);
    out.push(0x22);
    out.push(0x72);
    out.push(0x6F);
    out.push(0x6C);
    out.push(0x65);
    out.push(0x22);
    out.push(0x3A);
    out.push(0x22);
    proof {
        assert(out@ =~= old(out)@ + lit_role());
    }
}

/// Appends the spelling of `role` and the closing `"}` to `out`.
fn push_role_and_end(out: &mut Vec<u8>, role: Role)
    ensures
        final(out)@ == old(out)@ + role_bytes(role) + lit_end(),
{
    match role {
        Role::Admin => {
            out.push(0x61);
            out.push(0x64);
            out.push(0x6D);
            out.push(0x69);
            out.push(0x6E);
        },
        Role::User => {
            out.push(0x75);
            out.push(0x73);
            out.push(0x65);
            out.push(0x72);
        },
    }
    out.push(0x22);
    out.push(0x7D);
    proof {
        assert(out@ =~= old(out)@ + role_bytes(role) + lit_end());
    }
}

/// Appends the canonical JSON payload of `c` to `out`.
pub fn push_claims_json(out: &mut Vec<u8>, c: &Claims)
    requires
        wf_claims(*c),
    ensures
        final(out)@ == old(out)@ + ser_claims(*c),
{
    push_lit_exp(out);
    push_dec_u128(out, c.exp as u128);
    proof {
        assert(dec_digits(c.exp as u128 as int) =~= dec_digits(c.exp as int));
    }
    push_lit_iat(out);
    push_dec_u128(out, c.iat as u128);
    proof {
        assert(dec_digits(c.iat as u128 as int) =~= dec_digits(c.iat as int));
    }
    push_lit_sub(out);
    push_dec_u128(out, c.sub);
    push_lit_role(out);
    push_role_and_end(out, c.role);
    proof {
        assert(out@ =~= old(out)@ + ser_claims(*c));
    }
}

/// Byte-for-byte equality of two vectors.
fn vec_eq(a: &Vec<u8>, b: &Vec<u8>) -> (r: bool)
    ensures
        r == (a@ == b@),
{
    if a.len() != b.len() {
        return false;
    }
    let n = a.len();
    let mut k: usize = 0;
    while k < n
        invariant
            n == a@.len() == b@.len(),
            k <= n,
            forall|m: int| 0 <= m < k ==> a@[m] == b@[m],
        decreases n - k,
    {
        if a[k] != b[k] {
            return false;
        }
        k = k + 1;
    }
    proof {
        assert(a@ =~= b@);
    }
    true
}

/// Parses the canonical JSON payload.  Exact: it accepts the
/// serializations of well-formed claims, and nothing else.
pub fn parse_claims(s: &Vec<u8>) -> (r: Option<Claims>)
    ensures
        r matches Some(c) ==> wf_claims(c) && s@ == ser_claims(c),
        forall|c: Claims| wf_claims(c) && s@ == #[trigger] ser_claims(c) ==> r == Some(c),
{
    if s.len() < 7 {
        proof {
            assert forall|c0: Claims| !(wf_claims(c0) && s@ == ser_claims(c0)) by {
                if wf_claims(c0) && s@ == ser_claims(c0) {
                    lemma_ser_positions(c0);
                }
            }
        }
        return None;
    }
    let scanned_exp = scan_u128(s, 7);
    proof {
        assert forall|c0: Claims|
            wf_claims(c0) && s@ == ser_claims(c0) implies scanned_exp matches Some(p)
            && p.0 == c0.exp && p.1 == exp_end(c0) by {
            lemma_ser_positions(c0);
        }
    }
    let (exp_v, j1) = match scanned_exp {
        Some(p) => p,
        None => {
            return None;
        },
    };
    if exp_v > i64::MAX as u128 || s.len() - j1 < 7 {
        proof {
            assert forall|c0: Claims| !(wf_claims(c0) && s@ == ser_claims(c0)) by {
                if wf_claims(c0) && s@ == ser_claims(c0) {
                    lemma_ser_positions(c0);
                }
            }
        }
        return None;
    }
    let scanned_iat = scan_u128(s, j1 + 7);
    proof {
        assert forall|c0: Claims|
            wf_claims(c0) && s@ == ser_claims(c0) implies scanned_iat matches Some(p)
            && p.0 == c0.iat && p.1 == iat_end(c0) by {
            lemma_ser_positions(c0);
        }
    }
    let (iat_v, j2) = match scanned_iat {
        Some(p) => p,
        None => {
            return None;
        },
    };
    if iat_v > i64::MAX as u128 || s.len() - j2 < 8 {
        proof {
            assert forall|c0: Claims| !(wf_claims(c0) && s@ == ser_claims(c0)) by {
                if wf_claims(c0) && s@ == ser_claims(c0) {
                    lemma_ser_positions(c0);
                }
            }
        }
        return None;
    }
    let scanned_sub = scan_u128(s, j2 + 8);
    proof {
        assert forall|c0: Claims|
            wf_claims(c0) && s@ == ser_claims(c0) implies scanned_sub matches Some(p)
            && p.0 == c0.sub && p.1 == sub_end(c0) by {
            lemma_ser_positions(c0);
        }
    }
    let (sub_v, j3) = match scanned_sub {
        Some(p) => p,
        None => {
            return None;
        },
    };
    if s.len() - j3 < 16 {
        proof {
            assert forall|c0: Claims| !(wf_claims(c0) && s@ == ser_claims(c0)) by {
                if wf_claims(c0) && s@ == ser_claims(c0) {
                    lemma_ser_positions(c0);
                }
            }
        }
        return None;
    }
    let role = if s[j3 + 10] == 0x61 {
        Role::Admin
    } else {
        Role::User
    };
    let c = Claims { exp: exp_v as i64, iat: iat_v as i64, sub: sub_v, role };
    let mut t: Vec<u8> = Vec::new();
    push_claims_json(&mut t, &c);
    let same = vec_eq(&t, s);
    proof {
        assert forall|c0: Claims|
            wf_claims(c0) && s@ == ser_claims(c0) implies same && c == c0 by {
            lemma_ser_positions(c0);
            assert(c.exp == c0.exp && c.iat == c0.iat && c.sub == c0.sub);
            assert(c.role == c0.role);
            assert(t@ =~= ser_claims(c));
            assert(t@ == s@);
        }
    }
    if same {
        Some(c)
    } else {
        None
    }
}

/// Lifetime of a token, in seconds.
pub const TOKEN_TTL_SECS: i64 = 3600;

/// The JSON bytes of the fixed token header `{"typ":"JWT","alg":"HS256"}`.
pub open spec fn header_bytes() -> Seq<u8> {
    seq![
        0x7Bu8, 0x22, 0x74, 0x79, 0x70, 0x22, 0x3A, 0x22, 0x4A, 0x57, 0x54, 0x22, 0x2C,
        0x22, 0x61, 0x6C, 0x67, 0x22, 0x3A, 0x22, 0x48, 0x53, 0x32, 0x35, 0x36, 0x22, 0x7D,
    ]
}

/// The encoded header segment.
pub open spec fn header_b64() -> Seq<u8> {
    b64_encode(header_bytes())
}

/// The part of a token that is signed: header segment, dot, payload segment.
pub open spec fn signing_input(c: Claims) -> Seq<u8> {
    header_b64() + seq![0x2Eu8] + b64_encode(ser_claims(c))
}

/// What `jsonwebtoken`'s HMAC-SHA256 signing returns for a message and
/// key: the base64url bytes of the message authentication code.
pub uninterp spec fn hs256_sig(msg: Seq<u8>, key: Seq<u8>) -> Seq<u8>;

/// The complete token issued for claims `c` under `key`.
pub open spec fn token_for(c: Claims, key: Seq<u8>) -> Seq<u8> {
    signing_input(c) + seq![0x2Eu8] + hs256_sig(signing_input(c), key)
}

/// Relies on `jsonwebtoken::crypto::sign` with HMAC-SHA256 (the key
/// built by `EncodingKey::from_secret`): the signature is a function of
/// message and key alone, and is returned base64url encoded, so its
/// bytes lie in the base64url alphabet.  Signing never fails for an
/// HMAC secret -- the signer accepts keys of any length and its signing
/// step is infallible -- so the error arm below is unreachable.
#[verifier::external_body]
fn sign_hs256(msg: &Vec<u8>, key: &Vec<u8>) -> (r: Vec<u8>)
    ensures
        r@ == hs256_sig(msg@, key@),
        forall|i: int| 0 <= i < r@.len() ==> is_b64_byte(#[trigger] r@[i]),
{
    let encoding_key = jsonwebtoken::EncodingKey::from_secret(key.as_slice());
    match jsonwebtoken::crypto::sign(msg.as_slice(), &encoding_key, jsonwebtoken::Algorithm::HS256) {
        Ok(s) => s.into_bytes(),
        Err(_) => Vec::new(),
    }
}

/// Relies on `jsonwebtoken::crypto::verify` with HMAC-SHA256 (the key
/// built by `DecodingKey::from_secret`): it recomputes the signature for
/// the message and compares; its base64 decoding is strict, so the
/// comparison holds exactly when `sig` is the base64url signature
/// `jsonwebtoken::crypto::sign` would return.
#[verifier::external_body]
fn verify_hs256(sig: &Vec<u8>, msg: &Vec<u8>, key: &Vec<u8>) -> (r: bool)
    ensures
        r == (sig@ == hs256_sig(msg@, key@)),
{
    let decoding_key = jsonwebtoken::DecodingKey::from_secret(key.as_slice());
    match core::str::from_utf8(sig.as_slice()) {
        Ok(s) => {
            jsonwebtoken::crypto::verify(s, msg.as_slice(), &decoding_key, jsonwebtoken::Algorithm::HS256)
                .unwrap_or(false)
        },
        Err(_) => false,
    }
}

/// Relies on `chrono::Utc::now` for the current time as seconds since
/// the epoch.  Nothing is promised of the value.  A system clock set
/// before the epoch aborts inside chrono, exactly as it would have in
/// any surrounding use of the same call; such an environment is not
/// supported.
#[verifier::external_body]
pub(crate) fn now_unix() -> i64 {
    chrono::Utc::now().timestamp()
}

/// Copies `s[from..to]` out as a fresh vector.
fn sub_vec(s: &Vec<u8>, from: usize, to: usize) -> (r: Vec<u8>)
    requires
        from <= to <= s@.len(),
    ensures
        r@ == s@.subrange(from as int, to as int),
{
    let mut r: Vec<u8> = Vec::new();
    let mut k: usize = from;
    while k < to
        invariant
            from <= k <= to <= s@.len(),
            r@ == s@.subrange(from as int, k as int),
        decreases to - k,
    {
        r.push(s[k]);
        proof {
            assert(r@ =~= s@.subrange(from as int, k + 1));
        }
        k = k + 1;
    }
    r
}

/// Index of the first occurrence of `b` in `s` at or after `from`, or
/// the length of `s` if there is none.
pub open spec fn find_byte_spec(s: Seq<u8>, from: int, b: u8) -> int
    decreases s.len() - from,
{
    if from < 0 || from >= s.len() {
        s.len() as int
    } else if s[from] == b {
        from
    } else {
        find_byte_spec(s, from + 1, b)
    }
}

/// If nothing in `[from, j)` is `b` and `s[j]` is `b` (or `j` is the
/// end), the search from `from` stops at `j`.
proof fn lemma_find_byte_run(s: Seq<u8>, from: int, j: int, b: u8)
    requires
        0 <= from <= j <= s.len(),
        forall|m: int| from <= m < j ==> s[m] != b,
        j < s.len() ==> s[j] == b,
    ensures
        find_byte_spec(s, from, b) == if j < s.len() { j } else { s.len() as int },
    decreases j - from,
{
    if from < j {
        lemma_find_byte_run(s, from + 1, j, b);
    }
}

/// Searches for `b` in `s` from `from` on.
fn find_byte(s: &Vec<u8>, from: usize, b: u8) -> (r: Option<usize>)
    requires
        from <= s@.len(),
    ensures
        match r {
            Some(j) => from <= j < s@.len() && s@[j as int] == b && j == find_byte_spec(
                s@,
                from as int,
                b,
            ),
            None => find_byte_spec(s@, from as int, b) == s@.len(),
        },
{
    let mut k: usize = from;
    while k < s.len()
        invariant
            from <= k <= s@.len(),
            forall|m: int| from <= m < k ==> s@[m] != b,
        decreases s@.len() - k,
    {
        if s[k] == b {
            proof {
                lemma_find_byte_run(s@, from as int, k as int, b);
            }
            return Some(k);
        }
        k = k + 1;
    }
    proof {
        lemma_find_byte_run(s@, from as int, s@.len() as int, b);
    }
    None
}

/// Builds the encoded header segment.
fn build_header_b64() -> (r: Vec<u8>)
    ensures
        r@ == header_b64(),
{
    let mut hb: Vec<u8> = Vec::new();
    hb.push(0x7B);
    hb.push(0x22);
    hb.push(0x74);
    hb.push(0x79);
    hb.push(0x70);
    hb.push(0x22);
    hb.push(0x3A);
    hb.push(0x22);
    hb.push(0x4A);
    hb.push(0x57);
    hb.push(0x54);
    hb.push(0x22);
    hb.push(0x2C);
    hb.push(0x22);
    hb.push(0x61);
    hb.push(0x6C);
    hb.push(0x67);
    hb.push(0x22);
    hb.push(0x3A);
    hb.push(0x22);
    hb.push(0x48);
    hb.push(0x53);
    hb.push(0x32);
    hb.push(0x35);
    hb.push(0x36);
    hb.push(0x22);
    hb.push(0x7D);
    proof {
        assert(hb@ =~= header_bytes());
    }
    let mut r: Vec<u8> = Vec::new();
    b64_encode_push(&mut r, &hb);
    proof {
        assert(r@ =~= header_b64());
    }
    r
}

/// The fixed shape of every issued token: where its dots sit and what
/// each segment holds.
proof fn lemma_token_structure(c: Claims, key: Seq<u8>)
    requires
        wf_claims(c),
    ensures
        ({
            let tk = token_for(c, key);
            let h = header_b64();
            let p = b64_encode(ser_claims(c));
            let d2 = h.len() + 1 + p.len();
            &&& tk.len() == d2 + 1 + hs256_sig(signing_input(c), key).len()
            &&& find_byte_spec(tk, 0, 0x2E) == h.len()
            &&& find_byte_spec(tk, h.len() + 1 as int, 0x2E) == d2
            &&& tk.subrange(0, h.len() as int) == h
            &&& tk[h.len() as int] == 0x2E
            &&& tk.subrange(h.len() as int + 1, d2 as int) == p
            &&& tk[d2 as int] == 0x2E
            &&& tk.subrange(0, d2 as int) == signing_input(c)
            &&& tk.skip(d2 as int + 1) == hs256_sig(signing_input(c), key)
        }),
{
    let tk = token_for(c, key);
    let h = header_b64();
    let p = b64_encode(ser_claims(c));
    let sg = hs256_sig(signing_input(c), key);
    let d2 = h.len() + 1 + p.len();
    lemma_encode_bytes_in_alphabet(header_bytes());
    lemma_encode_bytes_in_alphabet(ser_claims(c));
    assert(tk.len() == d2 + 1 + sg.len());
    assert(tk.subrange(0, h.len() as int) =~= h);
    assert(tk[h.len() as int] == 0x2E);
    assert(tk.subrange(h.len() as int + 1, d2 as int) =~= p);
    assert(tk[d2 as int] == 0x2E);
    assert(tk.subrange(0, d2 as int) =~= signing_input(c));
    assert(tk.skip(d2 as int + 1) =~= sg);
    assert forall|m: int| 0 <= m < h.len() implies tk[m] != 0x2E by {
        assert(tk[m] == h[m]);
        lemma_b64_no_dot(h[m]);
    }
    lemma_find_byte_run(tk, 0, h.len() as int, 0x2E);
    assert forall|m: int| h.len() + 1 <= m < d2 implies tk[m] != 0x2E by {
        assert(tk[m] == p[m - (h.len() + 1)]);
        lemma_b64_no_dot(p[m - (h.len() + 1)]);
    }
    lemma_find_byte_run(tk, h.len() as int + 1, d2 as int, 0x2E);
}

/// Two different claims never serialize to the same payload.
proof fn lemma_ser_claims_injective(c1: Claims, c2: Claims)
    requires
        wf_claims(c1),
        wf_claims(c2),
        ser_claims(c1) == ser_claims(c2),
    ensures
        c1 == c2,
{
    let s = ser_claims(c1);
    lemma_ser_positions(c1);
    lemma_ser_positions(c2);
    assert(exp_end(c1) == exp_end(c2));
    assert(c1.exp == c2.exp);
    assert(iat_end(c1) == iat_end(c2));
    assert(c1.iat == c2.iat);
    assert(sub_end(c1) == sub_end(c2));
    assert(c1.sub == c2.sub);
    assert(c1.role == c2.role);
}

/// Law: a token pins its claims down.  Two well-formed claims with the
/// same token under the same key are the same claims; with the exact
/// contracts of `encode` and `decode_at` this is the round-trip law:
/// what was issued for a subject and role verifies back to exactly that
/// subject and role.
pub proof fn lemma_token_injective(c1: Claims, c2: Claims, key: Seq<u8>)
    requires
        wf_claims(c1),
        wf_claims(c2),
        token_for(c1, key) == token_for(c2, key),
    ensures
        c1 == c2,
{
    let tk = token_for(c1, key);
    let h = header_b64();
    let p1 = b64_encode(ser_claims(c1));
    let p2 = b64_encode(ser_claims(c2));
    lemma_token_structure(c1, key);
    lemma_token_structure(c2, key);
    assert(find_byte_spec(tk, h.len() + 1 as int, 0x2E) == h.len() + 1 + p1.len());
    assert(find_byte_spec(tk, h.len() + 1 as int, 0x2E) == h.len() + 1 + p2.len());
    assert(p1.len() == p2.len());
    assert(p1 =~= p2);
    lemma_decode_of_encode(ser_claims(c1));
    lemma_decode_of_encode(ser_claims(c2));
    assert(ser_claims(c1) == ser_claims(c2));
    lemma_ser_claims_injective(c1, c2);
}

/// The issue instant a clock reading is clamped to: within the epoch
/// and late enough before the end of representable time that the expiry
/// still fits.
pub open spec fn clamp_issue_instant(now: int) -> int {
    if now < 0 {
        0
    } else if now > i64::MAX - TOKEN_TTL_SECS {
        i64::MAX - TOKEN_TTL_SECS
    } else {
        now
    }
}

impl Claims {
    /// The line the application logs for a claims value.
    pub fn display_string(&self) -> (r: String)
        ensures
            r@ == "User ID: "@ + crate::ascii::dec_chars(self.sub as int),
    {
        let mut r = String::from_str("User ID: ");
        let digits = crate::ascii::to_dec_string(self.sub);
        r.append(digits.as_str());
        r
    }

    /// Fresh claims for a subject and role as of the instant `now`:
    /// issued at `now` (clamped into the representable window), expiring
    /// one hour later.
    pub fn at_instant(sub: u128, role: Role, now: i64) -> (c: Claims)
        ensures
            c.sub == sub,
            c.role == role,
            c.iat == clamp_issue_instant(now as int),
            c.exp == c.iat + TOKEN_TTL_SECS,
            wf_claims(c),
    {
        let t = if now < 0 {
            0
        } else if now > i64::MAX - TOKEN_TTL_SECS {
            i64::MAX - TOKEN_TTL_SECS
        } else {
            now
        };
        Claims { exp: t + TOKEN_TTL_SECS, iat: t, sub, role }
    }

    /// Fresh claims for a subject and role: issued at the clock's
    /// current reading, expiring one hour from it.
    pub fn new(sub: u128, role: Role) -> (c: Claims)
        ensures
            c.sub == sub,
            c.role == role,
            wf_claims(c),
            c.exp == c.iat + TOKEN_TTL_SECS,
    {
        Claims::at_instant(sub, role, now_unix())
    }
}

/// Serializes and signs `claims` under `key`.  Success is owed: signing
/// an HMAC secret cannot fail, and the returned string is exactly the
/// token for these claims.
pub fn encode(claims: &Claims, key: &Vec<u8>) -> (r: Result<String, AuthError>)
    requires
        wf_claims(*claims),
    ensures
        r matches Ok(t) && vstd::utf8::encode_utf8(t@) == token_for(*claims, key@),
{
    let mut msg = build_header_b64();
    msg.push(0x2E);
    let mut payload: Vec<u8> = Vec::new();
    push_claims_json(&mut payload, claims);
    b64_encode_push(&mut msg, &payload);
    proof {
        assert(msg@ =~= signing_input(*claims));
    }
    let sig = sign_hs256(&msg, key);
    let mut tok = msg;
    tok.push(0x2E);
    let ghost base = tok@;
    let mut k: usize = 0;
    while k < sig.len()
        invariant
            k <= sig@.len(),
            tok@ == base + sig@.subrange(0, k as int),
        decreases sig@.len() - k,
    {
        tok.push(sig[k]);
        proof {
            assert(tok@ =~= base + sig@.subrange(0, k + 1));
        }
        k = k + 1;
    }
    proof {
        assert(sig@.subrange(0, sig@.len() as int) =~= sig@);
        assert(tok@ =~= token_for(*claims, key@));
        lemma_token_structure(*claims, key@);
        let tk = token_for(*claims, key@);
        let h = header_b64();
        let p = b64_encode(ser_claims(*claims));
        let d2 = h.len() + 1 + p.len();
        lemma_encode_bytes_in_alphabet(header_bytes());
        lemma_encode_bytes_in_alphabet(ser_claims(*claims));
        assert forall|i: int| 0 <= i < tok@.len() implies tok@[i] < 128 by {
            if i < h.len() {
                assert(tok@[i] == h[i]);
                lemma_b64_no_dot(h[i]);
            } else if i == h.len() {
            } else if i < d2 {
                assert(tok@[i] == p[i - (h.len() + 1)]);
                lemma_b64_no_dot(p[i - (h.len() + 1)]);
            } else if i == d2 {
            } else {
                assert(tok@[i] == sig@[i - (d2 + 1)]);
                lemma_b64_no_dot(sig@[i - (d2 + 1)]);
            }
        }
    }
    let s = ascii_to_string(tok);
    proof {
        assert(vstd::utf8::is_ascii_chars(s@));
        vstd::utf8::is_ascii_chars_encode_utf8(s@);
        assert(vstd::utf8::encode_utf8(s@) =~= tok@);
    }
    Ok(s)
}

/// Verifies `token` against `key` at instant `now`.  Exact: a token
/// issued for well-formed claims is accepted back as exactly those
/// claims while `now` is before their expiry, rejected as expired from
/// their expiry instant on, and everything else -- malformed, forged, or
/// signed under another key -- is rejected as invalid.
pub fn decode_at(token: &str, key: &Vec<u8>, now: i64) -> (r: Result<Claims, AuthError>)
    ensures
        r matches Ok(c) ==> wf_claims(c) && token.spec_bytes() == token_for(c, key@) && now
            < c.exp,
        forall|c: Claims|
            wf_claims(c) && token.spec_bytes() == #[trigger] token_for(c, key@) ==> r == (
            if now < c.exp {
                Ok::<Claims, AuthError>(c)
            } else {
                Err::<Claims, AuthError>(AuthError::ExpiredSignature)
            }),
        r matches Err(e) ==> e == AuthError::ExpiredSignature || e == AuthError::InvalidToken,
        r == Err::<Claims, AuthError>(AuthError::ExpiredSignature) ==> exists|c: Claims|
            wf_claims(c) && token.spec_bytes() == #[trigger] token_for(c, key@) && now >= c.exp,
{
    let bytes = token.as_bytes_vec();
    let blen = bytes.len();
    let ghost tok = token.spec_bytes();
    let d1 = match find_byte(&bytes, 0, 0x2E) {
        Some(j) => j,
        None => {
            proof {
                assert forall|c0: Claims| !(wf_claims(c0) && tok == token_for(c0, key@)) by {
                    if wf_claims(c0) && tok == token_for(c0, key@) {
                        lemma_token_structure(c0, key@);
                    }
                }
            }
            return Err(AuthError::InvalidToken);
        },
    };
    let d2 = match find_byte(&bytes, d1 + 1, 0x2E) {
        Some(j) => j,
        None => {
            proof {
                assert forall|c0: Claims| !(wf_claims(c0) && tok == token_for(c0, key@)) by {
                    if wf_claims(c0) && tok == token_for(c0, key@) {
                        lemma_token_structure(c0, key@);
                    }
                }
            }
            return Err(AuthError::InvalidToken);
        },
    };
    let header = sub_vec(&bytes, 0, d1);
    let expected_header = build_header_b64();
    if !vec_eq(&header, &expected_header) {
        proof {
            assert forall|c0: Claims| !(wf_claims(c0) && tok == token_for(c0, key@)) by {
                if wf_claims(c0) && tok == token_for(c0, key@) {
                    lemma_token_structure(c0, key@);
                    assert(d1 == header_b64().len());
                    assert(header@ =~= header_b64());
                }
            }
        }
        return Err(AuthError::InvalidToken);
    }
    let msg = sub_vec(&bytes, 0, d2);
    let sig = sub_vec(&bytes, d2 + 1, blen);
    if !verify_hs256(&sig, &msg, key) {
        proof {
            assert forall|c0: Claims| !(wf_claims(c0) && tok == token_for(c0, key@)) by {
                if wf_claims(c0) && tok == token_for(c0, key@) {
                    lemma_token_structure(c0, key@);
                    let h = header_b64();
                    let p = b64_encode(ser_claims(c0));
                    assert(d2 == h.len() + 1 + p.len());
                    assert(msg@ == signing_input(c0));
                    assert(sig@ =~= tok.skip(d2 as int + 1));
                }
            }
        }
        return Err(AuthError::InvalidToken);
    }
    let pseg = sub_vec(&bytes, d1 + 1, d2);
    proof {
        assert(pseg@.skip(0) =~= pseg@);
    }
    let payload = match b64_decode_range(&pseg, 0) {
        Some(v) => v,
        None => {
            proof {
                assert forall|c0: Claims| !(wf_claims(c0) && tok == token_for(c0, key@)) by {
                    if wf_claims(c0) && tok == token_for(c0, key@) {
                        lemma_token_structure(c0, key@);
                        assert(pseg@ =~= b64_encode(ser_claims(c0)));
                        lemma_decode_of_encode(ser_claims(c0));
                    }
                }
            }
            return Err(AuthError::InvalidToken);
        },
    };
    let c = match parse_claims(&payload) {
        Some(c) => c,
        None => {
            proof {
                assert forall|c0: Claims| !(wf_claims(c0) && tok == token_for(c0, key@)) by {
                    if wf_claims(c0) && tok == token_for(c0, key@) {
                        lemma_token_structure(c0, key@);
                        assert(pseg@ =~= b64_encode(ser_claims(c0)));
                        lemma_decode_of_encode(ser_claims(c0));
                        assert(payload@ == ser_claims(c0));
                    }
                }
            }
            return Err(AuthError::InvalidToken);
        },
    };
    proof {
        lemma_encode_of_decode(pseg@, payload@);
        assert(pseg@ == b64_encode(ser_claims(c)));
        assert(msg@ =~= header_b64() + seq![0x2Eu8] + b64_encode(ser_claims(c)));
        assert(sig@ == hs256_sig(signing_input(c), key@));
        assert(tok =~= msg@ + seq![0x2Eu8] + sig@);
        assert(tok == token_for(c, key@));
        assert forall|c0: Claims|
            wf_claims(c0) && tok == token_for(c0, key@) implies c0 == c by {
            lemma_token_injective(c0, c, key@);
        }
    }
    if now < c.exp {
        Ok(c)
    } else {
        Err(AuthError::ExpiredSignature)
    }
}

/// Verifies `token` against `key` at the current instant.  Expiry is
/// judged by the verification routine itself; a genuine but expired
/// token is reported as expired, never as generically invalid.
pub fn decode(token: &str, key: &Vec<u8>) -> (r: Result<Claims, AuthError>)
    ensures
        r matches Ok(c) ==> wf_claims(c) && token.spec_bytes() == token_for(c, key@),
        r matches Err(e) ==> e == AuthError::ExpiredSignature || e == AuthError::InvalidToken,
        r == Err::<Claims, AuthError>(AuthError::InvalidToken) ==> forall|c: Claims|
            wf_claims(c) ==> token.spec_bytes() != #[trigger] token_for(c, key@),
        r == Err::<Claims, AuthError>(AuthError::ExpiredSignature) ==> exists|c: Claims|
            wf_claims(c) && token.spec_bytes() == #[trigger] token_for(c, key@),
{
    let now = now_unix();
    decode_at(token, key, now)
}

} // verus!


