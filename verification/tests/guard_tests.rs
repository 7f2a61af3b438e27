//! Tests of the session guard, the revocation store, and the account
//! endpoints' decisions.
use qu_chat::authentication::{
    authenticate, hash, new_user_record, register_outcome, signin, signout, ApiKeyError, UserId,
};
use qu_chat::base::{ApiResultBuilder, Error};
use qu_chat::catchers::{internal_server, notfound, unauthorized};
use qu_chat::jwt::{generate_jwt_at, validate_jwt};
use qu_chat::models::{RegisterParams, SignInParams};
use qu_chat::revocation::RevocationStore;

const KEY: &[u8] = b"hello";

fn bearer(token: &str) -> String {
    format!("Bearer {}", token)
}

#[test]
fn guard_accepts_a_fresh_token() {
    let store = RevocationStore::new();
    let token = generate_jwt_at("user-7", 1_700_000_000_000, KEY);
    let header = bearer(&token);
    let u = authenticate(Some(&header), &store, KEY).expect("fresh token must pass the guard");
    assert_eq!(u.id, "user-7");
    assert_eq!(u.token, token);
}

#[test]
fn guard_rejects_missing_and_mangled_headers() {
    let store = RevocationStore::new();
    assert!(matches!(
        authenticate(None, &store, KEY),
        Err(ApiKeyError::Missing)
    ));
    assert!(matches!(
        authenticate(Some("Token abc"), &store, KEY),
        Err(ApiKeyError::Invalid)
    ));
    assert!(matches!(
        authenticate(Some("Bearer not.a.token"), &store, KEY),
        Err(ApiKeyError::Invalid)
    ));
}

#[test]
fn revoked_token_is_rejected_even_though_the_codec_accepts_it() {
    let mut store = RevocationStore::new();
    let token = generate_jwt_at("user-9", 1_700_000_000_000, KEY);

    // the codec alone accepts it, before and after revocation
    assert!(validate_jwt(&token, KEY).is_ok());

    let header = bearer(&token);
    assert!(authenticate(Some(&header), &store, KEY).is_ok());

    store.insert(token.clone());
    assert!(validate_jwt(&token, KEY).is_ok());
    assert!(matches!(
        authenticate(Some(&header), &store, KEY),
        Err(ApiKeyError::Expired)
    ));
    // revocation is permanent
    assert!(matches!(
        authenticate(Some(&header), &store, KEY),
        Err(ApiKeyError::Expired)
    ));
}

#[test]
fn signout_revokes_the_presented_token() {
    let mut store = RevocationStore::new();
    let token = generate_jwt_at("u", 5, KEY);
    let user = UserId { id: "u".to_string(), token: token.clone() };
    let res = signout(&mut store, &user).expect("sign-out succeeds");
    assert_eq!(res.data, "Successfully signed out");
    assert!(store.contains(&token));
    let header = bearer(&token);
    assert!(matches!(
        authenticate(Some(&header), &store, KEY),
        Err(ApiKeyError::Expired)
    ));
}

#[test]
fn password_hash_matches_independent_computation() {
    // hex of the ASCII-lowercased SHA-256 digest, computed with the
    // crates directly
    let digest = <sha2::Sha256 as sha2::Digest>::digest(b"hunter2");
    let expected = hex::encode(digest.to_ascii_lowercase());
    assert_eq!(hash("hunter2"), expected);
}

#[test]
fn new_user_record_hashes_the_password() {
    let params = RegisterParams {
        username: "ada".to_string(),
        password: "pw".to_string(),
    };
    let u = new_user_record(&params);
    assert_eq!(u.name, "ada");
    assert_eq!(u.secret, hash("pw"));
    assert_eq!(u.id.len(), 36);
}

#[test]
fn register_outcome_cases() {
    let ok = register_outcome(true, "some-id", KEY).expect("insert succeeded");
    let body = validate_jwt(&ok.data.token, KEY).expect("fresh token");
    assert_eq!(body.user_id, "some-id");

    let err = register_outcome(false, "some-id", KEY);
    assert!(
        matches!(err, Err(Error::Logical(se)) if se.msg == "Unable to create user {:?}")
    );
}

#[test]
fn signin_cases() {
    let params = SignInParams {
        username: "ada".to_string(),
        password: "right".to_string(),
    };
    let reg = RegisterParams {
        username: "ada".to_string(),
        password: "right".to_string(),
    };
    let user = new_user_record(&reg);
    let uid = user.id.clone();

    // unknown user
    let r = signin(None, &params, KEY);
    assert!(matches!(r, Err(Error::Logical(se)) if se.msg == "User not found"));

    // wrong password
    let wrong = SignInParams {
        username: "ada".to_string(),
        password: "wrong".to_string(),
    };
    let user2 = new_user_record(&RegisterParams {
        username: "ada".to_string(),
        password: "right".to_string(),
    });
    let r = signin(Some(user2), &wrong, KEY);
    assert!(matches!(r, Err(Error::Logical(se)) if se.msg == "Invalid password"));

    // right password: the token names the account
    let r = signin(Some(user), &params, KEY).expect("sign-in succeeds");
    let body = validate_jwt(&r.data.token, KEY).expect("token is fresh");
    assert_eq!(body.user_id, uid);
}

#[test]
fn catchers_and_result_builder() {
    assert!(matches!(
        unauthorized(),
        Err(Error::Unauthorized(se)) if se.msg == "Unauthorised"
    ));
    assert!(matches!(internal_server(), Err(Error::Internal)));
    assert!(matches!(
        notfound(),
        Err(Error::Logical(se)) if se.msg == "Not Found"
    ));

    let ok = ApiResultBuilder::data(7u32).unwrap();
    assert_eq!(ok.data, 7);
    assert!(matches!(
        ApiResultBuilder::err::<u32>("boom"),
        Err(Error::Logical(se)) if se.msg == "boom"
    ));
    let from_ok: Result<u32, ()> = Ok(3);
    assert_eq!(ApiResultBuilder::from(from_ok, "m").unwrap().data, 3);
    let from_err: Result<u32, ()> = Err(());
    assert!(matches!(
        ApiResultBuilder::from(from_err, "m"),
        Err(Error::Logical(se)) if se.msg == "m"
    ));
    assert!(matches!(
        Error::logical("oops"),
        Error::Logical(se) if se.msg == "oops"
    ));
}
