//! The session-token codec: issuing and checking signed tokens of the form
//! `base64url(header) . base64url(body) . base64url(hmac_sha256(key, head.body))`,
//! where the header is the fixed text `{"alg":"HS256","typ":"JWT"}` and the
//! body is `{"user_id":<string>,"exp":<epoch millis>}`.
//!
//! Checking does not look at the clock: expiry and revocation are the
//! caller's concern (see the session guard).
use crate::b64::{
    b64_decodable, b64_decoded, b64url_decode, b64url_encode, base64url_of, is_b64_char,
    lemma_b64_alphabet, lemma_decode_unique,
};
use crate::bytesutil::{
    constant_time_eq, find_byte_from, first_index_from, lemma_first_index_exact,
    lemma_first_index_from_props, lemma_first_index_none,
};
use crate::json::{
    append_dec_i64, append_json_escaped, dec_i64, expect_lit, is_digit, json_escaped,
    lemma_dec_then_parse, lemma_escape_then_parse, parse_int_at, parse_int_at_spec,
    parse_str_content, parse_string_at,
};
use crate::strings::{string_from_ascii, string_from_utf8_opt, text_bytes};
use vstd::prelude::*;

verus! {

broadcast use vstd::utf8::encode_utf8_valid_utf8;

/// The signed claims carried by a token.
pub struct Body {
    pub user_id: String,
    pub exp: i64,
}

impl Body {
    /// The expiry instant, in milliseconds since the epoch.
    pub open spec fn exp_millis(&self) -> int {
        self.exp as int
    }
}

#[derive(Debug)]
pub enum TokenError {
    JsonEncode,
    Base64Encode,
    JsonDecode,
    HmacCreation,
    TokenPartMissing,
    InvalidSign,
    ExpireTimeCalculation,
}

/// What checking a token text yields, stated over the raw bytes.
pub enum TokenCheck {
    Malformed,
    BadBase64,
    BadJson,
    BadSign,
    Valid { user_id: Seq<u8>, exp: int },
}

// ------------------------------------------------------------------
// The exact bytes of the JSON texts inside a token
// ------------------------------------------------------------------
/// `{"alg":"HS256","typ":"JWT"}`
pub open spec fn header_json() -> Seq<u8> {
    header_pre() + seq![72u8, 83u8, 50u8, 53u8, 54u8] + header_mid() + seq![74u8, 87u8, 84u8]
        + seq![34u8, 125u8]
}

/// `{"alg":"`
pub open spec fn header_pre() -> Seq<u8> {
    seq![123u8, 34u8, 97u8, 108u8, 103u8, 34u8, 58u8, 34u8]
}

/// `","typ":"` (starting with the quote that closes the `alg` value)
pub open spec fn header_mid() -> Seq<u8> {
    seq![34u8, 44u8, 34u8, 116u8, 121u8, 112u8, 34u8, 58u8, 34u8]
}

/// `{"user_id":"`
pub open spec fn body_pre() -> Seq<u8> {
    seq![123u8, 34u8, 117u8, 115u8, 101u8, 114u8, 95u8, 105u8, 100u8, 34u8, 58u8, 34u8]
}

/// `","exp":` (starting with the quote that closes the `user_id` value)
pub open spec fn body_mid() -> Seq<u8> {
    seq![34u8, 44u8, 34u8, 101u8, 120u8, 112u8, 34u8, 58u8]
}

/// `{"user_id":<string>,"exp":<int>}`
pub open spec fn body_json_bytes(user_id: Seq<u8>, exp: int) -> Seq<u8> {
    body_pre() + json_escaped(user_id) + body_mid() + dec_i64(exp) + seq![125u8]
}

// ------------------------------------------------------------------
// Spec parsers for the two JSON shapes
// ------------------------------------------------------------------
/// Whether `s` is an object `{"alg":<string>,"typ":<string>}` in the
/// canonical form this library accepts.
pub open spec fn parse_header_json(s: Seq<u8>) -> bool {
    &&& s.len() >= 8
    &&& s.subrange(0, 8) == header_pre()
    &&& match parse_str_content(s, 8) {
        None => false,
        Some(p) => {
            &&& p.1 + 8 <= s.len()
            &&& s.subrange(p.1, p.1 + 8) == header_mid().skip(1)
            &&& match parse_str_content(s, p.1 + 8) {
                None => false,
                Some(q) => q.1 + 1 == s.len() && s[q.1] == 125,
            }
        },
    }
}

/// Parse `s` as an object `{"user_id":<string>,"exp":<int>}` in the
/// canonical form this library accepts.
pub open spec fn parse_body_json(s: Seq<u8>) -> Option<(Seq<u8>, int)> {
    if s.len() >= 12 && s.subrange(0, 12) == body_pre() {
        match parse_str_content(s, 12) {
            None => None,
            Some(p) => {
                if p.1 + 7 <= s.len() && s.subrange(p.1, p.1 + 7) == body_mid().skip(1) {
                    match parse_int_at_spec(s, p.1 + 7) {
                        None => None,
                        Some(q) => {
                            if q.1 + 1 == s.len() && s[q.1] == 125 {
                                Some((p.0, q.0))
                            } else {
                                None
                            }
                        },
                    }
                } else {
                    None
                }
            },
        }
    } else {
        None
    }
}

/// Escaping leaves a text unchanged when no byte of it needs an escape.
pub proof fn lemma_escaped_plain(u: Seq<u8>)
    requires
        forall|i: int| 0 <= i < u.len() ==> u[i] != 34 && u[i] != 92 && u[i] >= 32,
    ensures
        json_escaped(u) == u,
    decreases u.len(),
{
    if u.len() > 0 {
        lemma_escaped_plain(u.skip(1));
        assert(json_escaped(u) =~= u);
    }
}

/// The header text parses as a well-formed header.
pub proof fn lemma_header_roundtrip()
    ensures
        parse_header_json(header_json()),
{
    let s = header_json();
    let alg = seq![72u8, 83u8, 50u8, 53u8, 54u8];
    let typ = seq![74u8, 87u8, 84u8];
    assert(s.subrange(0, 8) =~= header_pre());
    lemma_escaped_plain(alg);
    assert(s.subrange(8, 14) =~= json_escaped(alg) + seq![34u8]);
    lemma_escape_then_parse(alg, s, 8);
    assert(parse_str_content(s, 8) == Some((alg, 14int)));
    assert(s.subrange(14, 22) =~= header_mid().skip(1));
    lemma_escaped_plain(typ);
    assert(s.subrange(22, 26) =~= json_escaped(typ) + seq![34u8]);
    lemma_escape_then_parse(typ, s, 22);
    assert(parse_str_content(s, 22) == Some((typ, 26int)));
    assert(s[26] == 125 && s.len() == 27);
}

/// A body built from a user id and an expiry parses back to exactly them.
pub proof fn lemma_body_roundtrip(user_id: Seq<u8>, exp: int)
    requires
        -0x8000000000000000 <= exp <= 0x7fffffffffffffff,
    ensures
        parse_body_json(body_json_bytes(user_id, exp)) == Some((user_id, exp)),
{
    let s = body_json_bytes(user_id, exp);
    let e = json_escaped(user_id);
    let d = dec_i64(exp);
    assert(s.len() == 12 + e.len() + 8 + d.len() + 1);
    assert(s.subrange(0, 12) =~= body_pre());
    assert(s.subrange(12, 12 + e.len() as int + 1) =~= e + seq![34u8]);
    lemma_escape_then_parse(user_id, s, 12);
    let i: int = 12 + e.len() as int + 1;
    assert(parse_str_content(s, 12) == Some((user_id, i)));
    assert(s.subrange(i, i + 7) =~= body_mid().skip(1));
    assert(s.subrange(i + 7, i + 7 + d.len() as int) =~= d);
    assert(!is_digit(s[i + 7 + d.len() as int]));
    lemma_dec_then_parse(exp, s, i + 7);
    assert(parse_int_at_spec(s, i + 7) == Some((exp, i + 7 + d.len() as int)));
    assert(s[i + 7 + d.len() as int] == 125);
    assert(i + 7 + d.len() as int + 1 == s.len());
}

// ------------------------------------------------------------------
// Trusted items
// ------------------------------------------------------------------
/// Names the HMAC-SHA-256 tag of `data` under `key`; the tag is a function
/// of the key and the data alone.
pub uninterp spec fn hmac_sha256_of(key: Seq<u8>, data: Seq<u8>) -> Seq<u8>;

/// Relies on hmac's `Hmac<Sha256>`: `new_from_slice` accepts a key of any
/// length (its `HmacCore` implementation never returns an error), and the
/// finalized tag is the 32-byte HMAC-SHA-256 of the data.
#[verifier::external_body]
fn hmac_sha256(key: &[u8], data: &[u8]) -> (r: Vec<u8>)
    ensures
        r@ == hmac_sha256_of(key@, data@),
        r@.len() == 32,
{
    let mut mac = match <hmac::Hmac<sha2::Sha256> as hmac::Mac>::new_from_slice(key) {
        Ok(m) => m,
        Err(_) => return Vec::new(),
    };
    hmac::Mac::update(&mut mac, data);
    hmac::Mac::finalize(mac).into_bytes().to_vec()
}

/// Relies on chrono's `Utc::now` and `checked_add_months`: the result is
/// the instant one month from now in milliseconds since the epoch, or
/// `None` when the date arithmetic fails. Nothing is promised of the
/// value: it depends on the clock.
#[verifier::external_body]
fn expiry_one_month_ahead() -> Option<i64> {
    match chrono::Utc::now().checked_add_months(chrono::Months::new(1)) {
        Some(d) => Some(d.timestamp_millis()),
        None => None,
    }
}

// ------------------------------------------------------------------
// The shape of a whole token
// ------------------------------------------------------------------
/// Split a token text on `.` into exactly three segments; the last
/// component is the index of the second dot.
pub open spec fn token_parts(t: Seq<u8>) -> Option<(Seq<u8>, Seq<u8>, Seq<u8>, int)> {
    match first_index_from(t, 46, 0) {
        None => None,
        Some(d1) => match first_index_from(t, 46, d1 + 1) {
            None => None,
            Some(d2) => {
                if first_index_from(t, 46, d2 + 1) is Some {
                    None
                } else {
                    Some(
                        (
                            t.subrange(0, d1),
                            t.subrange(d1 + 1, d2),
                            t.subrange(d2 + 1, t.len() as int),
                            d2,
                        ),
                    )
                }
            },
        },
    }
}

/// The two base64 segments of a fresh token, joined by a dot: the text the
/// signature is computed over.
pub open spec fn signing_input_of(user_id: Seq<u8>, exp: int) -> Seq<u8> {
    base64url_of(header_json()) + seq![46u8] + base64url_of(body_json_bytes(user_id, exp))
}

/// The whole text of a fresh token.
pub open spec fn jwt_bytes(user_id: Seq<u8>, exp: int, key: Seq<u8>) -> Seq<u8> {
    signing_input_of(user_id, exp) + seq![46u8] + base64url_of(
        hmac_sha256_of(key, signing_input_of(user_id, exp)),
    )
}

/// The complete meaning of checking a token text against a key.
pub open spec fn jwt_validate_spec(t: Seq<u8>, key: Seq<u8>) -> TokenCheck {
    match token_parts(t) {
        None => TokenCheck::Malformed,
        Some(parts) => {
            let h = parts.0;
            let b = parts.1;
            let sig = parts.2;
            let d2 = parts.3;
            if !b64_decodable(h) || !b64_decodable(b) {
                TokenCheck::BadBase64
            } else if !parse_header_json(b64_decoded(h)) {
                TokenCheck::BadJson
            } else {
                match parse_body_json(b64_decoded(b)) {
                    None => TokenCheck::BadJson,
                    Some(ue) => {
                        if !vstd::utf8::valid_utf8(ue.0) {
                            TokenCheck::BadJson
                        } else if sig != base64url_of(hmac_sha256_of(key, t.subrange(0, d2))) {
                            TokenCheck::BadSign
                        } else {
                            TokenCheck::Valid { user_id: ue.0, exp: ue.1 }
                        }
                    },
                }
            }
        },
    }
}

// ------------------------------------------------------------------
// Exec codec
// ------------------------------------------------------------------
/// The bytes of the fixed header JSON text.
fn header_json_exec() -> (r: Vec<u8>)
    ensures
        r@ == header_json(),
{
    let r: Vec<u8> = vec![
        123u8, 34, 97, 108, 103, 34, 58, 34, 72, 83, 50, 53, 54, 34, 44, 34, 116, 121, 112, 34,
        58, 34, 74, 87, 84, 34, 125,
    ];
    assert(r@ =~= header_json());
    r
}

/// Whether `s` is a well-formed header object.
fn check_header_bytes(s: &[u8]) -> (r: bool)
    ensures
        r == parse_header_json(s@),
{
    let n: usize = s.len();
    let hpre: Vec<u8> = vec![123u8, 34, 97, 108, 103, 34, 58, 34];
    assert(hpre@ =~= header_pre());
    if !expect_lit(s, 0, hpre.as_slice()) {
        return false;
    }
    match parse_string_at(s, 8) {
        None => false,
        Some(p) => {
            let i: usize = p.1;
            let hmid: Vec<u8> = vec![44u8, 34, 116, 121, 112, 34, 58, 34];
            assert(hmid@ =~= header_mid().skip(1));
            if !expect_lit(s, i, hmid.as_slice()) {
                return false;
            }
            match parse_string_at(s, i + 8) {
                None => false,
                Some(q) => {
                    let j: usize = q.1;
                    j < s.len() && s.len() - j == 1 && s[j] == 125
                },
            }
        },
    }
}

/// Parse `s` as a body object, yielding the user id bytes and the expiry.
fn parse_body_bytes(s: &[u8]) -> (r: Option<(Vec<u8>, i64)>)
    ensures
        match r {
            Some(p) => parse_body_json(s@) == Some((p.0@, p.1 as int)),
            None => parse_body_json(s@) is None,
        },
{
    let n: usize = s.len();
    let bpre: Vec<u8> = vec![123u8, 34, 117, 115, 101, 114, 95, 105, 100, 34, 58, 34];
    assert(bpre@ =~= body_pre());
    if !expect_lit(s, 0, bpre.as_slice()) {
        return None;
    }
    match parse_string_at(s, 12) {
        None => None,
        Some(p) => {
            let i: usize = p.1;
            let bmid: Vec<u8> = vec![44u8, 34, 101, 120, 112, 34, 58];
            assert(bmid@ =~= body_mid().skip(1));
            if !expect_lit(s, i, bmid.as_slice()) {
                return None;
            }
            match parse_int_at(s, i + 7) {
                None => None,
                Some(q) => {
                    let j: usize = q.1;
                    if j < s.len() && s.len() - j == 1 && s[j] == 125 {
                        Some((p.0, q.0))
                    } else {
                        None
                    }
                },
            }
        },
    }
}

/// Base64 of the HMAC-SHA-256 tag of `data` under `secret_key`, as text.
pub fn hmac_256_sign(secret_key: &[u8], data: &[u8]) -> (r: Result<String, TokenError>)
    ensures
        match r {
            Ok(s) => text_bytes(s@) == base64url_of(hmac_sha256_of(secret_key@, data@)),
            Err(_) => false,
        },
{
    let tag = hmac_sha256(secret_key, data);
    let enc = b64url_encode(tag.as_slice());
    proof {
        lemma_b64_alphabet(tag@);
        assert(forall|i: int| 0 <= i < enc@.len() ==> enc@[i] < 128) by {
            assert(forall|i: int|
                0 <= i < enc@.len() ==> is_b64_char(#[trigger] enc@[i]));
        }
    }
    Ok(string_from_ascii(enc))
}

/// Build the token for `user_id` expiring at `exp_millis`, signed with
/// `secret_key`. The result is pinned down to the exact token text.
pub fn generate_jwt_at(user_id: &str, exp_millis: i64, secret_key: &[u8]) -> (r: String)
    ensures
        text_bytes(r@) == jwt_bytes(text_bytes(user_id@), exp_millis as int, secret_key@),
{
    let ghost uid: Seq<u8> = text_bytes(user_id@);
    let ghost exp: int = exp_millis as int;
    let mut body: Vec<u8> = vec![123u8, 34, 117, 115, 101, 114, 95, 105, 100, 34, 58, 34];
    assert(body@ =~= body_pre());
    append_json_escaped(&mut body, user_id.as_bytes());
    let mut mid: Vec<u8> = vec![34u8, 44, 34, 101, 120, 112, 34, 58];
    assert(mid@ =~= body_mid());
    body.append(&mut mid);
    append_dec_i64(&mut body, exp_millis);
    body.push(125);
    proof {
        assert(body@ =~= body_json_bytes(uid, exp));
    }
    let hdr = header_json_exec();
    let mut tok = b64url_encode(hdr.as_slice());
    tok.push(46);
    let mut body64 = b64url_encode(body.as_slice());
    tok.append(&mut body64);
    proof {
        assert(tok@ =~= signing_input_of(uid, exp));
    }
    let tag = hmac_sha256(secret_key, tok.as_slice());
    let mut sig64 = b64url_encode(tag.as_slice());
    tok.push(46);
    tok.append(&mut sig64);
    proof {
        assert(tok@ =~= jwt_bytes(uid, exp, secret_key@));
        lemma_b64_alphabet(header_json());
        lemma_b64_alphabet(body_json_bytes(uid, exp));
        lemma_b64_alphabet(hmac_sha256_of(secret_key@, signing_input_of(uid, exp)));
        assert forall|i: int| 0 <= i < tok@.len() implies tok@[i] < 128 by {
            let e1 = base64url_of(header_json());
            let e2 = base64url_of(body_json_bytes(uid, exp));
            let e3 = base64url_of(hmac_sha256_of(secret_key@, signing_input_of(uid, exp)));
            if i < e1.len() {
                assert(tok@[i] == e1[i]);
            } else if i == e1.len() {
                assert(tok@[i] == 46);
            } else if i < e1.len() + 1 + e2.len() {
                assert(tok@[i] == e2[i - e1.len() - 1]);
            } else if i == e1.len() + 1 + e2.len() {
                assert(tok@[i] == 46);
            } else {
                assert(tok@[i] == e3[i - e1.len() - 1 - e2.len() - 1]);
            }
        }
    }
    string_from_ascii(tok)
}

/// Issue a token for `user_id` expiring one month from now. Fails only
/// when the clock's date arithmetic fails.
pub fn generate_jwt(user_id: &str, secret_key: &[u8]) -> (r: Result<String, TokenError>)
    ensures
        match r {
            Ok(tok) => exists|exp: int|
                #![auto]
                -0x8000000000000000 <= exp <= 0x7fffffffffffffff && text_bytes(tok@) == jwt_bytes(
                    text_bytes(user_id@),
                    exp,
                    secret_key@,
                ),
            Err(e) => e is ExpireTimeCalculation,
        },
{
    match expiry_one_month_ahead() {
        None => Err(TokenError::ExpireTimeCalculation),
        Some(exp) => {
            let tok = generate_jwt_at(user_id, exp, secret_key);
            proof {
                assert(-0x8000000000000000 <= exp as int <= 0x7fffffffffffffff && text_bytes(tok@)
                    == jwt_bytes(text_bytes(user_id@), exp as int, secret_key@));
            }
            Ok(tok)
        },
    }
}

/// Check a token text against `secret_key`: exactly three dot-separated
/// segments, base64 and JSON well-formedness, and the signature over the
/// first two segments, compared in constant time.
pub fn validate_jwt(token: &str, secret_key: &[u8]) -> (r: Result<Body, TokenError>)
    ensures
        match r {
            Ok(body) => jwt_validate_spec(text_bytes(token@), secret_key@) == (TokenCheck::Valid {
                user_id: text_bytes(body.user_id@),
                exp: body.exp_millis(),
            }),
            Err(e) => match e {
                TokenError::TokenPartMissing => jwt_validate_spec(
                    text_bytes(token@),
                    secret_key@,
                ) is Malformed,
                TokenError::Base64Encode => jwt_validate_spec(
                    text_bytes(token@),
                    secret_key@,
                ) is BadBase64,
                TokenError::JsonEncode => jwt_validate_spec(
                    text_bytes(token@),
                    secret_key@,
                ) is BadJson,
                TokenError::InvalidSign => jwt_validate_spec(
                    text_bytes(token@),
                    secret_key@,
                ) is BadSign,
                _ => false,
            },
        },
{
    let tb: &[u8] = token.as_bytes();
    let n: usize = tb.len();
    let d1: usize = match find_byte_from(tb, 46, 0) {
        Some(d) => d,
        None => {
            return Err(TokenError::TokenPartMissing);
        },
    };
    proof {
        lemma_first_index_from_props(tb@, 46, 0);
    }
    let d2: usize = match find_byte_from(tb, 46, d1 + 1) {
        Some(d) => d,
        None => {
            return Err(TokenError::TokenPartMissing);
        },
    };
    proof {
        lemma_first_index_from_props(tb@, 46, d1 + 1);
    }
    match find_byte_from(tb, 46, d2 + 1) {
        Some(_) => {
            return Err(TokenError::TokenPartMissing);
        },
        None => {},
    }
    let h = vstd::slice::slice_subrange(tb, 0, d1);
    let bseg = vstd::slice::slice_subrange(tb, d1 + 1, d2);
    let sig = vstd::slice::slice_subrange(tb, d2 + 1, n);
    let hd = match b64url_decode(h) {
        Some(v) => v,
        None => {
            return Err(TokenError::Base64Encode);
        },
    };
    let bd = match b64url_decode(bseg) {
        Some(v) => v,
        None => {
            return Err(TokenError::Base64Encode);
        },
    };
    proof {
        lemma_decode_unique(hd@, h@);
        lemma_decode_unique(bd@, bseg@);
    }
    if !check_header_bytes(hd.as_slice()) {
        return Err(TokenError::JsonEncode);
    }
    let parsed = match parse_body_bytes(bd.as_slice()) {
        Some(p) => p,
        None => {
            return Err(TokenError::JsonEncode);
        },
    };
    let exp: i64 = parsed.1;
    let uid_string = match string_from_utf8_opt(parsed.0) {
        Some(s) => s,
        None => {
            return Err(TokenError::JsonEncode);
        },
    };
    let signing = vstd::slice::slice_subrange(tb, 0, d2);
    let tag = hmac_sha256(secret_key, signing);
    let expected = b64url_encode(tag.as_slice());
    if !constant_time_eq(sig, expected.as_slice()) {
        return Err(TokenError::InvalidSign);
    }
    Ok(Body { user_id: uid_string, exp })
}

// ------------------------------------------------------------------
// Extracting the token from an Authorization header value
// ------------------------------------------------------------------
/// `"Bearer"`
pub open spec fn bearer_word() -> Seq<u8> {
    seq![66u8, 101u8, 97u8, 114u8, 101u8, 114u8]
}

/// The token part of an `Authorization` header value: the text between
/// the first space and the second space (or the end), provided the first
/// word is exactly `Bearer`.
pub open spec fn bearer_token(s: Seq<u8>) -> Option<Seq<u8>> {
    match first_index_from(s, 32, 0) {
        None => None,
        Some(sp1) => {
            if s.subrange(0, sp1) != bearer_word() {
                None
            } else {
                match first_index_from(s, 32, sp1 + 1) {
                    None => Some(s.subrange(sp1 + 1, s.len() as int)),
                    Some(sp2) => Some(s.subrange(sp1 + 1, sp2)),
                }
            }
        },
    }
}

/// In valid UTF-8, the position after a one-byte (ASCII) character is a
/// character boundary.
proof fn lemma_boundary_after_ascii(bytes: Seq<u8>, i: int)
    requires
        vstd::utf8::valid_utf8(bytes),
        0 <= i < bytes.len(),
        bytes[i] < 128,
        vstd::utf8::is_char_boundary(bytes, i),
    ensures
        vstd::utf8::is_char_boundary(bytes, i + 1),
    decreases bytes.len(),
{
    let lfs = vstd::utf8::length_of_first_scalar(bytes);
    let p = vstd::utf8::pop_first_scalar(bytes);
    assert(vstd::utf8::valid_first_scalar(bytes));
    if i == 0 {
        let b0 = bytes[0];
        assert(b0 & 0x80 == 0x00) by (bit_vector)
            requires
                b0 < 128,
        ;
        assert(vstd::utf8::is_leading_byte_width_1(bytes[0]));
        assert(lfs == 1);
        assert(vstd::utf8::is_char_boundary(bytes, 1) == vstd::utf8::is_char_boundary(p, 0));
    } else {
        assert(vstd::utf8::is_char_boundary(p, i - lfs));
        assert(i - lfs >= 0);
        lemma_boundary_after_ascii(p, i - lfs);
        assert(vstd::utf8::is_char_boundary(bytes, i + 1) == vstd::utf8::is_char_boundary(
            p,
            i + 1 - lfs,
        ));
    }
}

/// Extract the token from a `Bearer <token>` header value; anything else
/// is refused.
pub fn token_from_barear(str: &str) -> (r: Result<&str, TokenError>)
    ensures
        match r {
            Ok(t) => bearer_token(text_bytes(str@)) == Some(text_bytes(t@)),
            Err(e) => bearer_token(text_bytes(str@)) is None && e is TokenPartMissing,
        },
{
    let bytes: &[u8] = str.as_bytes();
    let n: usize = bytes.len();
    let sp1: usize = match find_byte_from(bytes, 32, 0) {
        Some(d) => d,
        None => {
            return Err(TokenError::TokenPartMissing);
        },
    };
    proof {
        lemma_first_index_from_props(bytes@, 32, 0);
    }
    if sp1 != 6 || bytes[0] != 66 || bytes[1] != 101 || bytes[2] != 97 || bytes[3] != 114
        || bytes[4] != 101 || bytes[5] != 114 {
        proof {
            let pre = bytes@.subrange(0, sp1 as int);
            if pre == bearer_word() {
                assert(pre.len() == 6);
                assert(bytes@[0] == pre[0] && bytes@[1] == pre[1] && bytes@[2] == pre[2]
                    && bytes@[3] == pre[3] && bytes@[4] == pre[4] && bytes@[5] == pre[5]);
                assert(false);
            }
        }
        return Err(TokenError::TokenPartMissing);
    }
    proof {
        assert(bytes@.subrange(0, 6) =~= bearer_word());
        vstd::utf8::is_char_boundary_iff_not_is_continuation_byte(bytes@, 6);
        assert(!(32u8 & 0xC0 == 0x80)) by (bit_vector);
        assert(!vstd::utf8::is_continuation_byte(bytes@[6]));
        lemma_boundary_after_ascii(bytes@, 6);
    }
    let parts = str.split_at(sp1 + 1);
    let tail: &str = parts.1;
    match find_byte_from(bytes, 32, sp1 + 1) {
        None => {
            proof {
                lemma_first_index_from_props(bytes@, 32, 7);
            }
            Ok(tail)
        },
        Some(sp2) => {
            proof {
                lemma_first_index_from_props(bytes@, 32, 7);
                vstd::utf8::valid_utf8_split(bytes@, 7);
                let tailb = bytes@.subrange(7, n as int);
                assert(vstd::utf8::valid_utf8(tailb));
                assert(tailb[sp2 - 7] == bytes@[sp2 as int]);
                vstd::utf8::is_char_boundary_iff_not_is_continuation_byte(tailb, sp2 - 7);
                assert(!(32u8 & 0xC0 == 0x80)) by (bit_vector);
            }
            let token_part = tail.split_at(sp2 - sp1 - 1).0;
            proof {
                assert(bytes@.subrange(7, n as int).subrange(0, sp2 - 7) =~= bytes@.subrange(
                    7,
                    sp2 as int,
                ));
            }
            Ok(token_part)
        },
    }
}

// ------------------------------------------------------------------
// Laws of the codec
// ------------------------------------------------------------------
/// A freshly issued token checks out, and carries exactly the subject and
/// expiry it was issued for: checking inverts issuing, for every user id
/// and every expiry.
pub proof fn lemma_issue_then_verify(user_id: Seq<u8>, exp: int, key: Seq<u8>)
    requires
        vstd::utf8::valid_utf8(user_id),
        -0x8000000000000000 <= exp <= 0x7fffffffffffffff,
    ensures
        jwt_validate_spec(jwt_bytes(user_id, exp, key), key) == (TokenCheck::Valid {
            user_id,
            exp,
        }),
{
    let hj = header_json();
    let bj = body_json_bytes(user_id, exp);
    let si = signing_input_of(user_id, exp);
    let h = base64url_of(hj);
    let b = base64url_of(bj);
    let sg = base64url_of(hmac_sha256_of(key, si));
    let t = jwt_bytes(user_id, exp, key);
    let d1: int = h.len() as int;
    let d2: int = d1 + 1 + b.len() as int;
    lemma_b64_alphabet(hj);
    lemma_b64_alphabet(bj);
    lemma_b64_alphabet(hmac_sha256_of(key, si));
    assert(si.len() == d2);
    assert(t.len() == d2 + 1 + sg.len());
    assert forall|m: int| 0 <= m < d1 implies t[m] == h[m] && t[m] != 46 by {
        assert(is_b64_char(h[m]));
    }
    assert(t[d1] == 46);
    assert forall|m: int| d1 + 1 <= m < d2 implies t[m] == b[m - d1 - 1] && t[m] != 46 by {
        assert(is_b64_char(b[m - d1 - 1]));
    }
    assert(t[d2] == 46);
    assert forall|m: int| d2 + 1 <= m < t.len() implies t[m] == sg[m - d2 - 1] && t[m] != 46 by {
        assert(is_b64_char(sg[m - d2 - 1]));
    }
    lemma_first_index_exact(t, 46, 0, d1);
    lemma_first_index_exact(t, 46, d1 + 1, d2);
    lemma_first_index_none(t, 46, d2 + 1);
    assert(t.subrange(0, d1) =~= h);
    assert(t.subrange(d1 + 1, d2) =~= b);
    assert(t.subrange(d2 + 1, t.len() as int) =~= sg);
    assert(t.subrange(0, d2) =~= si);
    lemma_decode_unique(hj, h);
    lemma_decode_unique(bj, b);
    lemma_header_roundtrip();
    lemma_body_roundtrip(user_id, exp);
}

/// Changing any single byte of a valid token's signature segment to any
/// other byte (other than the `.` separator, which would change the
/// token's shape) makes the check fail with a signature mismatch.
pub proof fn lemma_sig_tamper_detected(user_id: Seq<u8>, exp: int, key: Seq<u8>, i: int, c: u8)
    requires
        vstd::utf8::valid_utf8(user_id),
        -0x8000000000000000 <= exp <= 0x7fffffffffffffff,
        0 <= i < base64url_of(hmac_sha256_of(key, signing_input_of(user_id, exp))).len(),
        c != jwt_bytes(user_id, exp, key)[signing_input_of(user_id, exp).len() + 1 + i],
        c != 46,
    ensures
        jwt_validate_spec(
            jwt_bytes(user_id, exp, key).update(signing_input_of(user_id, exp).len() + 1 + i, c),
            key,
        ) is BadSign,
{
    let hj = header_json();
    let bj = body_json_bytes(user_id, exp);
    let si = signing_input_of(user_id, exp);
    let h = base64url_of(hj);
    let b = base64url_of(bj);
    let sg = base64url_of(hmac_sha256_of(key, si));
    let t = jwt_bytes(user_id, exp, key);
    let d1: int = h.len() as int;
    let d2: int = d1 + 1 + b.len() as int;
    let pos: int = d2 + 1 + i;
    let t2 = t.update(pos, c);
    lemma_b64_alphabet(hj);
    lemma_b64_alphabet(bj);
    lemma_b64_alphabet(hmac_sha256_of(key, si));
    assert(si.len() == d2);
    assert(t.len() == d2 + 1 + sg.len());
    assert(t2.len() == t.len());
    assert forall|m: int| 0 <= m < d1 implies t2[m] == h[m] && t2[m] != 46 by {
        assert(t2[m] == t[m]);
        assert(is_b64_char(h[m]));
    }
    assert(t2[d1] == 46);
    assert forall|m: int| d1 + 1 <= m < d2 implies t2[m] == b[m - d1 - 1] && t2[m] != 46 by {
        assert(t2[m] == t[m]);
        assert(is_b64_char(b[m - d1 - 1]));
    }
    assert(t2[d2] == 46);
    assert forall|m: int| d2 + 1 <= m < t2.len() implies t2[m] != 46 by {
        if m == pos {
        } else {
            assert(t2[m] == t[m]);
            assert(t[m] == sg[m - d2 - 1]);
            assert(is_b64_char(sg[m - d2 - 1]));
        }
    }
    lemma_first_index_exact(t2, 46, 0, d1);
    lemma_first_index_exact(t2, 46, d1 + 1, d2);
    lemma_first_index_none(t2, 46, d2 + 1);
    assert(t2.subrange(0, d1) =~= h);
    assert(t2.subrange(d1 + 1, d2) =~= b);
    assert(t2.subrange(0, d2) =~= si);
    lemma_decode_unique(hj, h);
    lemma_decode_unique(bj, b);
    lemma_header_roundtrip();
    lemma_body_roundtrip(user_id, exp);
    let sig2 = t2.subrange(d2 + 1, t2.len() as int);
    assert(sig2[i] == c);
    assert(sg[i] == t[pos]);
    assert(sig2 != sg) by {
        assert(sig2[i] != sg[i]);
    }
}

} // verus!
