//! The session guard and the account endpoints' decision logic: password
//! hashing, registration and sign-in outcomes, sign-out (revocation), and
//! the check run on every authenticated request.
use crate::base::{ApiResult, ApiResultBuilder, BaseRes, Error};
use crate::ids::fresh_uuid;
use crate::jwt::{
    bearer_token, generate_jwt, jwt_bytes, jwt_validate_spec, token_from_barear, validate_jwt,
    TokenCheck,
};
use crate::models::{RegisterParams, RegisterResponse, SignInParams, SignInResponse, User};
use crate::revocation::RevocationStore;
use crate::strings::text_bytes;
use vstd::prelude::*;

verus! {

/// The authenticated identity produced by the guard.
pub struct UserId {
    pub id: String,
    pub token: String,
}

/// Why the guard refused a request. `Expired` means the token was revoked
/// by a sign-out: such tokens are rejected permanently.
#[derive(Debug)]
pub enum ApiKeyError {
    Missing,
    Invalid,
    Expired,
    Db,
}

#[derive(Debug)]
pub enum UserGuardError {
    ApiKey(ApiKeyError),
    DB,
}

// ------------------------------------------------------------------
// Password hashing (a black-box one-way function)
// ------------------------------------------------------------------
/// Names the SHA-256 digest of `data`; the digest is a function of the
/// data alone.
pub uninterp spec fn sha256_of(data: Seq<u8>) -> Seq<u8>;

/// Relies on sha2's `Sha256::digest`: the 32-byte SHA-256 of the input.
#[verifier::external_body]
fn sha256_digest(data: &[u8]) -> (r: Vec<u8>)
    ensures
        r@ == sha256_of(data@),
        r@.len() == 32,
{
    <sha2::Sha256 as sha2::Digest>::digest(data).to_vec()
}

/// ASCII-lowercasing of a byte, as `to_ascii_lowercase` does it.
pub open spec fn lower_byte(b: u8) -> u8 {
    if 65 <= b <= 90 {
        (b + 32) as u8
    } else {
        b
    }
}

fn lower_bytes(v: &[u8]) -> (r: Vec<u8>)
    ensures
        r@ == v@.map(|i: int, b: u8| lower_byte(b)),
{
    let n: usize = v.len();
    let mut out: Vec<u8> = Vec::new();
    let mut i: usize = 0;
    while i < n
        invariant
            i <= n,
            n == v@.len(),
            out@ == v@.subrange(0, i as int).map(|j: int, b: u8| lower_byte(b)),
        decreases n - i,
    {
        let b: u8 = v[i];
        if 65 <= b && b <= 90 {
            out.push(b + 32);
        } else {
            out.push(b);
        }
        proof {
            assert(out@ =~= v@.subrange(0, i + 1).map(|j: int, b: u8| lower_byte(b)));
        }
        i = i + 1;
    }
    proof {
        assert(v@.subrange(0, n as int) =~= v@);
    }
    out
}

/// Lower-case hex text of a byte sequence.
pub open spec fn hex_chars(b: Seq<u8>) -> Seq<char>
    decreases b.len(),
{
    if b.len() == 0 {
        Seq::<char>::empty()
    } else {
        seq![hex_char(b[0] >> 4), hex_char(b[0] & 15)] + hex_chars(b.skip(1))
    }
}

pub open spec fn hex_char(v: u8) -> char {
    if v < 10 {
        ((48 + v) as u8) as char
    } else {
        ((87 + v) as u8) as char
    }
}

/// Relies on hex's `encode`: the lower-case hex text of the input, two
/// digits per byte.
#[verifier::external_body]
fn hex_encode(b: &[u8]) -> (r: String)
    ensures
        r@ == hex_chars(b@),
{
    hex::encode(b)
}

/// The stored form of a password: lower-case hex of the ASCII-lowercased
/// SHA-256 digest.
pub open spec fn password_hash_of(password: Seq<u8>) -> Seq<char> {
    hex_chars(sha256_of(password).map(|i: int, b: u8| lower_byte(b)))
}

/// Hash a password for storage or comparison.
pub fn hash(password: &str) -> (r: String)
    ensures
        r@ == password_hash_of(text_bytes(password@)),
{
    let digest = sha256_digest(password.as_bytes());
    let lowered = lower_bytes(digest.as_slice());
    hex_encode(lowered.as_slice())
}

// ------------------------------------------------------------------
// The guard
// ------------------------------------------------------------------
/// What the guard decides, stated over the header text and the store.
pub enum GuardCheck {
    Missing,
    Invalid,
    Expired,
    Accepted { user_id: Seq<u8>, token: Seq<u8> },
}

/// The complete meaning of the guard: extract the bearer token, refuse
/// revoked tokens permanently, then check the token's signature and shape.
pub open spec fn guard_spec(
    header: Option<Seq<char>>,
    store: &RevocationStore,
    key: Seq<u8>,
) -> GuardCheck {
    match header {
        None => GuardCheck::Missing,
        Some(h) => match bearer_token(text_bytes(h)) {
            None => GuardCheck::Invalid,
            Some(tok) => {
                if store.spec_has(tok) {
                    GuardCheck::Expired
                } else {
                    match jwt_validate_spec(tok, key) {
                        TokenCheck::Valid { user_id, exp } => GuardCheck::Accepted {
                            user_id,
                            token: tok,
                        },
                        _ => GuardCheck::Invalid,
                    }
                }
            },
        },
    }
}

/// The view of an optional header value.
pub open spec fn header_view(header: Option<&str>) -> Option<Seq<char>> {
    match header {
        None => None,
        Some(h) => Some(h@),
    }
}

/// Run the guard on a request's `Authorization` header value.
pub fn authenticate(header: Option<&str>, store: &RevocationStore, secret_key: &[u8]) -> (r:
    Result<UserId, ApiKeyError>)
    ensures
        match r {
            Ok(u) => guard_spec(header_view(header), store, secret_key@)
                == (GuardCheck::Accepted {
                user_id: text_bytes(u.id@),
                token: text_bytes(u.token@),
            }),
            Err(e) => match e {
                ApiKeyError::Missing => guard_spec(header_view(header), store, secret_key@)
                    is Missing,
                ApiKeyError::Invalid => guard_spec(header_view(header), store, secret_key@)
                    is Invalid,
                ApiKeyError::Expired => guard_spec(header_view(header), store, secret_key@)
                    is Expired,
                ApiKeyError::Db => false,
            },
        },
{
    let h: &str = match header {
        Some(h) => h,
        None => {
            return Err(ApiKeyError::Missing);
        },
    };
    let token: &str = match token_from_barear(h) {
        Ok(t) => t,
        Err(_) => {
            return Err(ApiKeyError::Invalid);
        },
    };
    if store.contains(token) {
        return Err(ApiKeyError::Expired);
    }
    match validate_jwt(token, secret_key) {
        Ok(body) => Ok(UserId { id: body.user_id, token: token.to_owned() }),
        Err(_) => Err(ApiKeyError::Invalid),
    }
}

/// A token in the revocation store is refused outright, whatever the
/// codec would say of it: revocation is permanent and overrides a valid
/// signature.
pub proof fn lemma_revoked_always_rejected(h: Seq<char>, store: &RevocationStore, key: Seq<u8>)
    requires
        bearer_token(text_bytes(h)) is Some,
        store.spec_has(bearer_token(text_bytes(h)).unwrap()),
    ensures
        guard_spec(Some(h), store, key) is Expired,
{
}

// ------------------------------------------------------------------
// Account endpoints
// ------------------------------------------------------------------
/// Revoke the caller's token. The token is in the store afterwards.
pub fn signout(store: &mut RevocationStore, user: &UserId) -> (r: ApiResult<String>)
    ensures
        final(store).spec_has(text_bytes(user.token@)),
        forall|t: Seq<u8>| #[trigger]
            final(store).spec_has(t) <==> old(store).spec_has(t) || t == text_bytes(user.token@),
        match r {
            Ok(res) => res.data@ == "Successfully signed out"@,
            Err(_) => false,
        },
{
    store.insert(user.token.clone());
    ApiResultBuilder::data("Successfully signed out".to_owned())
}

/// Build the stored record for a new account: a fresh id and the hashed
/// password.
pub fn new_user_record(params: &RegisterParams) -> (u: User)
    ensures
        u.name@ == params.username@,
        u.secret@ == password_hash_of(text_bytes(params.password@)),
        u.id@.len() == 36,
{
    User {
        id: fresh_uuid(),
        name: params.username.clone(),
        secret: hash(params.password.as_str()),
    }
}

/// The response once the new account's row has (or has not) been
/// persisted: a fresh token for the new id, or the endpoint's error
/// message.
pub fn register_outcome(insert_ok: bool, user_id: &str, secret_key: &[u8]) -> (r: ApiResult<
    RegisterResponse,
>)
    ensures
        !insert_ok ==> match r {
            Ok(_) => false,
            Err(e) => match e {
                Error::Logical(se) => se.msg@ == "Unable to create user {:?}"@,
                _ => false,
            },
        },
        insert_ok ==> match r {
            Ok(res) => exists|exp: int|
                #![auto]
                -0x8000000000000000 <= exp <= 0x7fffffffffffffff && text_bytes(res.data.token@)
                    == jwt_bytes(text_bytes(user_id@), exp, secret_key@),
            Err(e) => match e {
                Error::Logical(se) => se.msg@ == "Unable to create token"@,
                _ => false,
            },
        },
{
    if !insert_ok {
        return ApiResultBuilder::err("Unable to create user {:?}");
    }
    match generate_jwt(user_id, secret_key) {
        Ok(token) => ApiResultBuilder::data(RegisterResponse { token }),
        Err(_) => ApiResultBuilder::err("Unable to create token"),
    }
}

/// Decide a sign-in given the looked-up account: unknown users and wrong
/// passwords are refused with the exact messages of the surface; a match
/// yields a fresh token for the account's id.
pub fn signin(user_lookup: Option<User>, params: &SignInParams, secret_key: &[u8]) -> (r:
    ApiResult<SignInResponse>)
    ensures
        user_lookup is None ==> match r {
            Ok(_) => false,
            Err(e) => match e {
                Error::Logical(se) => se.msg@ == "User not found"@,
                _ => false,
            },
        },
        match user_lookup {
            None => true,
            Some(user) => {
                if password_hash_of(text_bytes(params.password@)) != user.secret@ {
                    match r {
                        Ok(_) => false,
                        Err(e) => match e {
                            Error::Logical(se) => se.msg@ == "Invalid password"@,
                            _ => false,
                        },
                    }
                } else {
                    match r {
                        Ok(res) => exists|exp: int|
                            #![auto]
                            -0x8000000000000000 <= exp <= 0x7fffffffffffffff && text_bytes(
                                res.data.token@,
                            ) == jwt_bytes(text_bytes(user.id@), exp, secret_key@),
                        Err(e) => match e {
                            Error::Logical(se) => se.msg@ == "Unable to create token"@,
                            _ => false,
                        },
                    }
                }
            },
        },
{
    let user: User = match user_lookup {
        Some(u) => u,
        None => {
            return ApiResultBuilder::err("User not found");
        },
    };
    let hashed = hash(params.password.as_str());
    proof {
        vstd::utf8::encode_utf8_decode_utf8(hashed@);
        vstd::utf8::encode_utf8_decode_utf8(user.secret@);
    }
    if !crate::bytesutil::bytes_eq(hashed.as_str().as_bytes(), user.secret.as_str().as_bytes()) {
        return ApiResultBuilder::err("Invalid password");
    }
    match generate_jwt(user.id.as_str(), secret_key) {
        Ok(token) => ApiResultBuilder::data(SignInResponse { token }),
        Err(_) => ApiResultBuilder::err("Unable to create token"),
    }
}

} // verus!
