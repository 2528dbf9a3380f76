use gateway_core::auth::{
    check_claims, copy_texts, holds_text, password_accepted, AuthError, AuthManager, Claims,
    StoreReply, DEFAULT_HASH_COST, SESSION_TTL_SECS, TOKEN_LIFETIME_SECS,
};

const NOW: u64 = 1_700_000_000;

fn manager() -> AuthManager {
    AuthManager::with_cost("test-secret".to_string(), 4)
}

fn perms(list: &[&str]) -> Vec<String> {
    list.iter().map(|p| p.to_string()).collect()
}

#[test]
fn token_round_trip_keeps_subject_and_permissions() {
    let m = manager();
    let p = perms(&["user", "write"]);
    let token = m.issue_token("user-1", &p, NOW).unwrap();
    let claims = m.verify_token(&token, NOW).unwrap();
    assert_eq!(claims.sub, "user-1");
    assert_eq!(claims.permissions, p);
    assert_eq!(claims.iat, NOW);
    assert_eq!(claims.exp, NOW + 86_400);
}

#[test]
fn token_round_trip_for_unusual_values() {
    let m = manager();
    for (user, p) in [
        ("", perms(&[])),
        ("名前 \"quoted\" \\ \n", perms(&["", "a b", "é"])),
        ("u", perms(&["admin", "admin"])),
    ] {
        let token = m.issue_token(user, &p, 5).unwrap();
        let claims = m.verify_token(&token, 5).unwrap();
        assert_eq!(claims.sub, user);
        assert_eq!(claims.permissions, p);
        assert_eq!(claims.iat, 5);
        assert_eq!(claims.exp, 5 + TOKEN_LIFETIME_SECS);
    }
}

#[test]
fn token_has_three_parts() {
    let m = manager();
    let token = m.issue_token("u", &perms(&["user"]), NOW).unwrap();
    assert_eq!(token.split('.').count(), 3);
    assert_ne!(token, "u");
}

#[test]
fn token_lives_twenty_four_hours() {
    assert_eq!(TOKEN_LIFETIME_SECS, 24 * 60 * 60);
    let m = manager();
    let token = m.issue_token("u", &perms(&["user"]), NOW).unwrap();
    assert!(m.verify_token(&token, NOW + 86_400).is_ok());
    assert_eq!(m.verify_token(&token, NOW + 86_401).unwrap_err(), AuthError::TokenExpired);
    assert!(m.verify_token(&token, 0).is_ok());
}

#[test]
fn token_expiry_saturates() {
    let m = manager();
    let token = m.issue_token("u", &perms(&[]), u64::MAX - 10).unwrap();
    let claims = m.verify_token(&token, u64::MAX).unwrap();
    assert_eq!(claims.exp, u64::MAX);
    assert_eq!(claims.iat, u64::MAX - 10);
}

#[test]
fn expired_token_fails_with_token_expired() {
    let m = manager();
    let token = m.issue_token("u", &perms(&["user"]), 1000).unwrap();
    assert_eq!(m.verify_token(&token, NOW).unwrap_err(), AuthError::TokenExpired);
}

#[test]
fn token_signed_with_other_secret_is_invalid() {
    let a = AuthManager::with_cost("secret-a".to_string(), 4);
    let b = AuthManager::with_cost("secret-b".to_string(), 4);
    let token = a.issue_token("u", &perms(&["user"]), NOW).unwrap();
    assert_eq!(b.verify_token(&token, NOW).unwrap_err(), AuthError::TokenInvalid);
    assert_eq!(b.verify_token(&token, NOW + 100_000).unwrap_err(), AuthError::TokenInvalid);
    assert!(a.verify_token(&token, NOW).is_ok());
}

#[test]
fn malformed_and_tampered_tokens_are_invalid() {
    let m = manager();
    for bad in ["", "abc", "a.b.c", "....", "not a token at all"] {
        assert_eq!(m.verify_token(bad, NOW).unwrap_err(), AuthError::TokenInvalid, "{}", bad);
    }
    let token = m.issue_token("u", &perms(&["user"]), NOW).unwrap();
    let mut parts: Vec<String> = token.split('.').map(|s| s.to_string()).collect();
    parts[2] = "AAAA".to_string();
    assert_eq!(m.verify_token(&parts.join("."), NOW).unwrap_err(), AuthError::TokenInvalid);
    let unsigned = format!("{}.{}.", parts[0], parts[1]);
    assert_eq!(m.verify_token(&unsigned, NOW).unwrap_err(), AuthError::TokenInvalid);
    let mut swapped = token.clone().into_bytes();
    let at = token.find('.').unwrap() + 3;
    swapped[at] = if swapped[at] == b'A' { b'B' } else { b'A' };
    let swapped = String::from_utf8(swapped).unwrap();
    assert_eq!(m.verify_token(&swapped, NOW).unwrap_err(), AuthError::TokenInvalid);
}

#[test]
fn check_claims_table() {
    let claims = Claims { sub: "s".to_string(), exp: 100, iat: 1, permissions: vec![] };
    assert_eq!(check_claims(None, 0).unwrap_err(), AuthError::TokenInvalid);
    assert_eq!(check_claims(Some(claims.clone()), 101).unwrap_err(), AuthError::TokenExpired);
    let ok = check_claims(Some(claims.clone()), 100).unwrap();
    assert_eq!(ok.sub, "s");
    assert_eq!(ok.exp, 100);
    assert_eq!(ok.iat, 1);
}

#[test]
fn tokens_issued_at_the_current_time_verify() {
    let m = manager();
    let p = perms(&["user"]);
    let token = m.generate_jwt_token("clock-user", &p).unwrap();
    let claims = m.verify_jwt_token(&token).unwrap();
    assert_eq!(claims.sub, "clock-user");
    assert_eq!(claims.permissions, p);
    assert_eq!(claims.exp, claims.iat + 86_400);
    assert!(claims.iat > 1_600_000_000);
    assert_eq!(m.verify_jwt_token("junk").unwrap_err(), AuthError::TokenInvalid);
    let old = m.issue_token("u", &p, 1000).unwrap();
    assert_eq!(m.verify_jwt_token(&old).unwrap_err(), AuthError::TokenExpired);
}

#[test]
fn create_user_sets_defaults() {
    let mut m = manager();
    let u = m
        .create_user("alice".to_string(), "alice@example.com".to_string(), "password1".to_string(), NOW)
        .unwrap();
    assert_eq!(u.username, "alice");
    assert_eq!(u.email, "alice@example.com");
    assert_eq!(u.permissions, perms(&["user"]));
    assert_eq!(u.created_at, NOW);
    assert_eq!(u.id.len(), 36);
    assert_ne!(u.password_hash, "password1");
    assert!(u.password_hash.starts_with("$2"));
}

#[test]
fn user_ids_are_unique() {
    let mut m = manager();
    let a = m.create_user("a".to_string(), "a@x.yz".to_string(), "password1".to_string(), NOW).unwrap();
    let b = m.create_user("b".to_string(), "b@x.yz".to_string(), "password1".to_string(), NOW).unwrap();
    assert_ne!(a.id, b.id);
    assert_ne!(a.password_hash, b.password_hash);
}

#[test]
fn duplicate_username_is_refused() {
    let mut m = manager();
    let first = m.create_user("bob".to_string(), "b@x.yz".to_string(), "password1".to_string(), NOW).unwrap();
    let again = m.create_user("bob".to_string(), "other@x.yz".to_string(), "password2".to_string(), NOW + 1);
    assert_eq!(again.unwrap_err(), AuthError::DuplicateUser);
    assert!(m.authenticate_user("bob", "password1", NOW).is_ok());
    assert_eq!(m.authenticate_user("bob", "password2", NOW).unwrap_err(), AuthError::InvalidCredentials);
    assert_eq!(m.validate_permissions(&first.id, "user"), Ok(true));
}

#[test]
fn hashing_failure_is_reported() {
    let mut m = AuthManager::with_cost("s".to_string(), 99);
    let r = m.create_user("carol".to_string(), "c@x.yz".to_string(), "password1".to_string(), NOW);
    assert_eq!(r.unwrap_err(), AuthError::HashingError);
    assert_eq!(m.authenticate_user("carol", "password1", NOW).unwrap_err(), AuthError::InvalidCredentials);
}

#[test]
fn login_verifies_the_password() {
    let mut m = manager();
    let u = m.create_user("dave".to_string(), "d@x.yz".to_string(), "correct horse".to_string(), NOW).unwrap();
    let token = m.authenticate_user("dave", "correct horse", NOW + 5).unwrap();
    let claims = m.verify_token(&token, NOW + 5).unwrap();
    assert_eq!(claims.sub, u.id);
    assert_eq!(claims.permissions, perms(&["user"]));
    assert_eq!(claims.iat, NOW + 5);
    assert_eq!(
        m.authenticate_user("dave", "wrong horse", NOW).unwrap_err(),
        AuthError::InvalidCredentials
    );
    assert_eq!(m.authenticate_user("dave", "", NOW).unwrap_err(), AuthError::InvalidCredentials);
    assert_eq!(m.authenticate_user("nobody", "correct horse", NOW).unwrap_err(), AuthError::InvalidCredentials);
    assert_eq!(m.authenticate_user("Dave", "correct horse", NOW).unwrap_err(), AuthError::InvalidCredentials);
}

#[test]
fn password_accepted_only_on_plain_yes() {
    assert!(password_accepted(Some(true)));
    assert!(!password_accepted(Some(false)));
    assert!(!password_accepted(None));
}

#[test]
fn permission_queries() {
    let mut m = manager();
    let u = m.create_user("erin".to_string(), "e@x.yz".to_string(), "password1".to_string(), NOW).unwrap();
    assert_eq!(m.validate_permissions(&u.id, "user"), Ok(true));
    assert_eq!(m.validate_permissions(&u.id, "write"), Ok(false));
    assert_eq!(m.validate_permissions(&u.id, "admin"), Ok(false));
    assert_eq!(m.validate_permissions("no-such-id", "user"), Err(AuthError::UserNotFound));
    assert_eq!(m.validate_permissions("erin", "user"), Err(AuthError::UserNotFound));
}

#[test]
fn admin_passes_every_permission_query() {
    let mut m = manager();
    let u = m.create_user("root".to_string(), "r@x.yz".to_string(), "password1".to_string(), NOW).unwrap();
    assert_eq!(m.grant_permission("root", "admin"), Ok(()));
    for required in ["admin", "user", "write", "anything at all", ""] {
        assert_eq!(m.validate_permissions(&u.id, required), Ok(true), "{}", required);
    }
}

#[test]
fn grants_are_an_ordered_set() {
    let mut m = manager();
    let _ = m.create_user("fay".to_string(), "f@x.yz".to_string(), "password1".to_string(), NOW).unwrap();
    assert_eq!(m.grant_permission("fay", "write"), Ok(()));
    assert_eq!(m.grant_permission("fay", "user"), Ok(()));
    assert_eq!(m.grant_permission("fay", "write"), Ok(()));
    assert_eq!(m.grant_permission("ghost", "write"), Err(AuthError::UserNotFound));
    let token = m.authenticate_user("fay", "password1", NOW).unwrap();
    assert_eq!(m.verify_token(&token, NOW).unwrap().permissions, perms(&["user", "write"]));
}

#[test]
fn token_holds_the_permission_snapshot() {
    let mut m = manager();
    let _ = m.create_user("gil".to_string(), "g@x.yz".to_string(), "password1".to_string(), NOW).unwrap();
    let before = m.authenticate_user("gil", "password1", NOW).unwrap();
    assert_eq!(m.grant_permission("gil", "admin"), Ok(()));
    assert_eq!(m.verify_token(&before, NOW).unwrap().permissions, perms(&["user"]));
    let after = m.authenticate_user("gil", "password1", NOW).unwrap();
    assert_eq!(m.verify_token(&after, NOW).unwrap().permissions, perms(&["user", "admin"]));
}

#[test]
fn default_cost_hashes_and_verifies() {
    assert_eq!(DEFAULT_HASH_COST, 12);
    let mut m = AuthManager::new("s".to_string());
    let u = m.create_user("hal".to_string(), "h@x.yz".to_string(), "password1".to_string(), NOW).unwrap();
    assert!(u.password_hash.starts_with("$2b$12$"));
}

#[test]
fn session_record_write() {
    let m = manager();
    let w = m.store_session("abc", "user-9");
    assert_eq!(w.key, "session:abc");
    assert_eq!(w.user_id, "user-9");
    assert_eq!(w.ttl_secs, 3600);
    assert_eq!(SESSION_TTL_SECS, 3600);
    assert_eq!(AuthManager::session_key(""), "session:");
}

#[test]
fn session_read_tells_failure_from_absence() {
    let m = manager();
    assert_eq!(m.get_session(StoreReply::Value("user-9".to_string())), Ok(Some("user-9".to_string())));
    assert_eq!(m.get_session(StoreReply::Absent), Ok(None));
    assert_eq!(m.get_session(StoreReply::Failed), Err(AuthError::StoreUnavailable));
}

#[test]
fn auth_messages() {
    assert_eq!(AuthError::InvalidCredentials.message(), "Invalid credentials");
    assert_eq!(AuthError::TokenInvalid.message(), "Invalid token");
    assert_eq!(AuthError::TokenExpired.message(), "Token expired");
    assert_eq!(AuthError::UserNotFound.message(), "User not found");
    assert_eq!(AuthError::DuplicateUser.message(), "User already exists");
    assert_eq!(AuthError::HashingError.message(), "Password hashing error");
    assert_eq!(AuthError::SigningFailed.message(), "JWT encoding error");
    assert_eq!(AuthError::StoreUnavailable.message(), "Session store unavailable");
}

#[test]
fn text_lists() {
    let list = perms(&["a", "b"]);
    assert_eq!(copy_texts(&list), list);
    assert!(holds_text(&list, "b"));
    assert!(!holds_text(&list, "c"));
    assert!(!holds_text(&vec![], ""));
}

#[test]
fn register_hashed_builds_the_user_from_what_it_is_given() {
    let mut m = manager();
    let u = m
        .register_hashed(
            "ivy".to_string(),
            "i@x.yz".to_string(),
            "id-1".to_string(),
            Some("hash-1".to_string()),
            77,
        )
        .unwrap();
    assert_eq!(u.id, "id-1");
    assert_eq!(u.username, "ivy");
    assert_eq!(u.email, "i@x.yz");
    assert_eq!(u.permissions, perms(&["user"]));
    assert_eq!(u.created_at, 77);
    assert_eq!(u.password_hash, "hash-1");
    assert_eq!(m.validate_permissions("id-1", "user"), Ok(true));
    assert_eq!(m.validate_permissions("id-1", "admin"), Ok(false));
}

#[test]
fn register_hashed_refuses_taken_names_and_failed_hashes() {
    let mut m = manager();
    let free = m.register_hashed("jo".to_string(), "j@x.yz".to_string(), "id-1".to_string(), None, 1);
    assert_eq!(free.unwrap_err(), AuthError::HashingError);
    assert_eq!(m.validate_permissions("id-1", "user"), Err(AuthError::UserNotFound));
    assert!(m
        .register_hashed("jo".to_string(), "j@x.yz".to_string(), "id-1".to_string(), Some("h".to_string()), 1)
        .is_ok());
    let taken =
        m.register_hashed("jo".to_string(), "k@x.yz".to_string(), "id-2".to_string(), Some("h".to_string()), 2);
    assert_eq!(taken.unwrap_err(), AuthError::DuplicateUser);
    let both = m.register_hashed("jo".to_string(), "k@x.yz".to_string(), "id-2".to_string(), None, 2);
    assert_eq!(both.unwrap_err(), AuthError::DuplicateUser);
    assert_eq!(m.validate_permissions("id-2", "user"), Err(AuthError::UserNotFound));
}

#[test]
fn hash_cost_range() {
    assert_eq!(gateway_core::auth::MIN_HASH_COST, 4);
    assert_eq!(gateway_core::auth::MAX_HASH_COST, 31);
    for cost in [0u32, 3, 32, u32::MAX] {
        let mut m = AuthManager::with_cost("s".to_string(), cost);
        let r = m.create_user("kim".to_string(), "k@x.yz".to_string(), "password1".to_string(), NOW);
        assert_eq!(r.unwrap_err(), AuthError::HashingError, "cost {}", cost);
    }
    let mut m = AuthManager::with_cost("s".to_string(), 4);
    assert!(m.create_user("kim".to_string(), "k@x.yz".to_string(), "password1".to_string(), NOW).is_ok());
}

#[test]
fn new_users_are_listed_in_order_for_id_lookup() {
    let mut m = manager();
    let first = m
        .register_hashed("a".to_string(), "a@x.yz".to_string(), "same".to_string(), Some("h".to_string()), 1)
        .unwrap();
    let _second = m
        .register_hashed("b".to_string(), "b@x.yz".to_string(), "same".to_string(), Some("h".to_string()), 2)
        .unwrap();
    assert_eq!(m.grant_permission("b", "admin"), Ok(()));
    assert_eq!(first.id, "same");
    assert_eq!(m.validate_permissions("same", "write"), Ok(false));
    assert_eq!(m.grant_permission("a", "write"), Ok(()));
    assert_eq!(m.validate_permissions("same", "write"), Ok(true));
}

#[test]
fn created_user_id_is_an_identifier() {
    let mut m = manager();
    let u = m.create_user("lee".to_string(), "l@x.yz".to_string(), "password1".to_string(), NOW).unwrap();
    assert_eq!(uuid::Uuid::parse_str(&u.id).unwrap().to_string(), u.id);
    assert_eq!(m.validate_permissions(&u.id, "user"), Ok(true));
}
