use sleepplanet_backend::config::JwtConfig;
use sleepplanet_backend::token::{
    check_config, check_decoded, generate_token, issue_at, issue_by_clock, join_roles,
    validate_at, validate_by_clock, verify_token, Claims, DecodeFailure, RawClaims, TokenError,
};

fn config() -> JwtConfig {
    JwtConfig { secret: "top-secret".to_string(), expires_in: 3600 }
}

fn roles(names: &[&str]) -> Vec<String> {
    names.iter().map(|n| n.to_string()).collect()
}

fn tamper_last(token: &str) -> String {
    let mut bytes = token.as_bytes().to_vec();
    let last = bytes.len() - 1;
    bytes[last] = if bytes[last] == b'A' { b'B' } else { b'A' };
    String::from_utf8(bytes).expect("ascii")
}

#[test]
fn issued_token_validates_to_its_claims_before_expiry() {
    let token = issue_at(&config(), 7, "alice", &roles(&["super_admin", "editor"]), 1_000)
        .expect("issued");
    let expected = Claims {
        user_id: 7,
        username: "alice".to_string(),
        role: "super_admin,editor".to_string(),
        exp: 4_600,
    };
    assert_eq!(validate_at(&config(), &token, 1_000), Ok(expected.clone()));
    assert_eq!(validate_at(&config(), &token, 4_599), Ok(expected));
}

#[test]
fn issued_token_is_expired_at_and_after_expiry() {
    let token = issue_at(&config(), 7, "alice", &roles(&["super_admin"]), 1_000).expect("issued");
    assert_eq!(validate_at(&config(), &token, 4_600), Err(TokenError::Expired));
    assert_eq!(validate_at(&config(), &token, 4_601), Err(TokenError::Expired));
    assert_eq!(validate_at(&config(), &token, u64::MAX), Err(TokenError::Expired));
}

#[test]
fn token_has_three_segments_and_is_not_the_input() {
    let token = issue_at(&config(), 7, "alice", &roles(&[]), 1_000).expect("issued");
    assert_eq!(token.split('.').count(), 3);
    assert!(token.starts_with("eyJ"));
}

#[test]
fn negative_id_and_odd_text_survive_the_round_trip() {
    let names = roles(&["a\"b", "c\\d", "角色"]);
    let token = issue_at(&config(), -42, "al ice\n", &names, 5).expect("issued");
    let claims = validate_at(&config(), &token, 6).expect("valid");
    assert_eq!(claims.user_id, -42);
    assert_eq!(claims.username, "al ice\n");
    assert_eq!(claims.role, "a\"b,c\\d,角色");
    assert_eq!(claims.exp, 3_605);
    assert_eq!(claims.roles(), names);
}

#[test]
fn tampered_signature_is_bad_signature() {
    let token = issue_at(&config(), 7, "alice", &roles(&["super_admin"]), 1_000).expect("issued");
    let tampered = tamper_last(&token);
    assert_ne!(tampered, token);
    assert_eq!(validate_at(&config(), &tampered, 1_001), Err(TokenError::BadSignature));
}

#[test]
fn tampered_signature_of_an_expired_token_is_still_bad_signature() {
    let token = issue_at(&config(), 7, "alice", &roles(&["super_admin"]), 1_000).expect("issued");
    let tampered = tamper_last(&token);
    assert_eq!(validate_at(&config(), &tampered, 1_000_000), Err(TokenError::BadSignature));
}

#[test]
fn every_single_byte_change_of_the_signature_is_bad_signature() {
    let token = issue_at(&config(), 7, "alice", &roles(&["super_admin"]), 1_000).expect("issued");
    let start = token.rfind('.').expect("dot") + 1;
    for at in start..token.len() {
        let mut bytes = token.as_bytes().to_vec();
        bytes[at] = if bytes[at] == b'x' { b'y' } else { b'x' };
        let tampered = String::from_utf8(bytes).expect("ascii");
        assert_eq!(validate_at(&config(), &tampered, 1_001), Err(TokenError::BadSignature));
    }
}

#[test]
fn another_secret_is_bad_signature() {
    let token = issue_at(&config(), 7, "alice", &roles(&[]), 1_000).expect("issued");
    let other = JwtConfig { secret: "other".to_string(), expires_in: 3600 };
    assert_eq!(validate_at(&other, &token, 1_001), Err(TokenError::BadSignature));
}

#[test]
fn text_without_three_segments_is_malformed() {
    assert_eq!(validate_at(&config(), "abc", 1), Err(TokenError::Malformed));
    assert_eq!(validate_at(&config(), "", 1), Err(TokenError::Malformed));
    assert_eq!(validate_at(&config(), "a.b", 1), Err(TokenError::Malformed));
}

#[test]
fn unreadable_header_is_other() {
    assert_eq!(validate_at(&config(), "a.b.c", 1), Err(TokenError::Other));
}

#[test]
fn configuration_is_checked_first() {
    let empty = JwtConfig { secret: String::new(), expires_in: 3600 };
    let zero = JwtConfig { secret: "s".to_string(), expires_in: 0 };
    let both = JwtConfig { secret: String::new(), expires_in: 0 };
    assert_eq!(check_config(&config()), Ok(()));
    assert_eq!(check_config(&empty), Err(TokenError::EmptySecret));
    assert_eq!(check_config(&zero), Err(TokenError::ZeroTtl));
    assert_eq!(check_config(&both), Err(TokenError::EmptySecret));
    assert_eq!(issue_at(&empty, 1, "a", &roles(&[]), 1), Err(TokenError::EmptySecret));
    assert_eq!(issue_at(&zero, 1, "a", &roles(&[]), 1), Err(TokenError::ZeroTtl));
    assert_eq!(validate_at(&empty, "abc", 1), Err(TokenError::EmptySecret));
    assert_eq!(validate_at(&zero, "abc", 1), Err(TokenError::ZeroTtl));
    assert!(TokenError::EmptySecret.is_config());
    assert!(TokenError::ZeroTtl.is_config());
    assert!(!TokenError::Expired.is_config());
}

#[test]
fn expiry_that_does_not_fit_is_other() {
    assert_eq!(issue_at(&config(), 1, "a", &roles(&[]), u64::MAX), Err(TokenError::Other));
    assert_eq!(issue_at(&config(), 1, "a", &roles(&[]), u64::MAX - 3599), Err(TokenError::Other));
    assert!(issue_at(&config(), 1, "a", &roles(&[]), u64::MAX - 3600).is_ok());
}

#[test]
fn join_roles_puts_commas_between() {
    assert_eq!(join_roles(&roles(&[])), "");
    assert_eq!(join_roles(&roles(&["super_admin"])), "super_admin");
    assert_eq!(join_roles(&roles(&["a", "b", "c"])), "a,b,c");
    assert_eq!(join_roles(&roles(&["", ""])), ",");
}

#[test]
fn roles_split_at_commas() {
    let claims = |role: &str| Claims {
        user_id: 1,
        username: "a".to_string(),
        role: role.to_string(),
        exp: 1,
    };
    assert_eq!(claims("").roles(), Vec::<String>::new());
    assert_eq!(claims("super_admin").roles(), roles(&["super_admin"]));
    assert_eq!(claims("a,b,c").roles(), roles(&["a", "b", "c"]));
    assert_eq!(claims("a,").roles(), roles(&["a", ""]));
    assert_eq!(claims(",").roles(), roles(&["", ""]));
    assert_eq!(claims("角色,b").roles(), roles(&["角色", "b"]));
}

#[test]
fn split_undoes_join_on_plain_names() {
    let names = roles(&["super_admin", "editor", "viewer"]);
    let claims = Claims {
        user_id: 1,
        username: "a".to_string(),
        role: join_roles(&names),
        exp: 1,
    };
    assert_eq!(claims.roles(), names);
}

#[test]
fn check_decoded_judges_every_outcome() {
    let raw = |exp: Option<u64>| RawClaims {
        user_id: Some(3),
        username: Some("bob".to_string()),
        role: Some("editor".to_string()),
        exp,
    };
    let claims = Claims {
        user_id: 3,
        username: "bob".to_string(),
        role: "editor".to_string(),
        exp: 10,
    };
    assert_eq!(check_decoded(Ok(raw(Some(10))), 9), Ok(claims));
    assert_eq!(check_decoded(Ok(raw(Some(10))), 10), Err(TokenError::Expired));
    assert_eq!(check_decoded(Ok(raw(None)), 0), Err(TokenError::Other));
    let no_name = RawClaims { username: None, ..raw(Some(10)) };
    assert_eq!(check_decoded(Ok(no_name), 0), Err(TokenError::Other));
    assert_eq!(check_decoded(Err(DecodeFailure::InvalidSignature), 0), Err(TokenError::BadSignature));
    assert_eq!(check_decoded(Err(DecodeFailure::InvalidSignature), 99), Err(TokenError::BadSignature));
    assert_eq!(check_decoded(Err(DecodeFailure::InvalidToken), 0), Err(TokenError::Malformed));
    assert_eq!(check_decoded(Err(DecodeFailure::Other), 0), Err(TokenError::Other));
    assert_eq!(check_decoded(Err(DecodeFailure::InvalidIssuer), 5), Err(TokenError::BadIssuer));
    assert_eq!(check_decoded(Err(DecodeFailure::InvalidAudience), 5), Err(TokenError::BadAudience));
    assert_eq!(
        check_decoded(Err(DecodeFailure::ImmatureSignature), 5),
        Err(TokenError::NotYetValid)
    );
}

fn foreign_token(fields: Vec<(&str, serde_json::Value)>) -> String {
    let mut payload = serde_json::Map::new();
    for (key, value) in fields {
        payload.insert(key.to_string(), value);
    }
    jsonwebtoken::encode(
        &jsonwebtoken::Header::default(),
        &payload,
        &jsonwebtoken::EncodingKey::from_secret("top-secret".as_bytes()),
    )
    .expect("encoded")
}

#[test]
fn signed_token_without_a_claim_is_other() {
    let token = foreign_token(vec![
        ("username", serde_json::Value::from("alice")),
        ("role", serde_json::Value::from("editor")),
        ("exp", serde_json::Value::from(100u64)),
    ]);
    assert_eq!(validate_at(&config(), &token, 1), Err(TokenError::Other));
    let token = foreign_token(vec![
        ("user_id", serde_json::Value::from(1i64)),
        ("username", serde_json::Value::from("alice")),
        ("role", serde_json::Value::from("editor")),
    ]);
    assert_eq!(validate_at(&config(), &token, 1), Err(TokenError::Other));
}

#[test]
fn signed_token_with_a_claim_of_another_type_is_other() {
    let token = foreign_token(vec![
        ("user_id", serde_json::Value::from("1")),
        ("username", serde_json::Value::from("alice")),
        ("role", serde_json::Value::from("editor")),
        ("exp", serde_json::Value::from(100u64)),
    ]);
    assert_eq!(validate_at(&config(), &token, 1), Err(TokenError::Other));
}

#[test]
fn signed_token_with_further_claims_is_read() {
    let token = foreign_token(vec![
        ("user_id", serde_json::Value::from(1i64)),
        ("username", serde_json::Value::from("alice")),
        ("role", serde_json::Value::from("editor")),
        ("exp", serde_json::Value::from(100u64)),
        ("extra", serde_json::Value::from(true)),
    ]);
    let claims = validate_at(&config(), &token, 99).expect("valid");
    assert_eq!(claims.user_id, 1);
    assert_eq!(claims.exp, 100);
    assert_eq!(validate_at(&config(), &token, 100), Err(TokenError::Expired));
}

#[test]
fn token_of_the_library_is_read_by_the_signature_crate() {
    let token = issue_at(&config(), 7, "alice", &roles(&["super_admin"]), 1_000).expect("issued");
    let mut validation = jsonwebtoken::Validation::new(jsonwebtoken::Algorithm::HS256);
    validation.validate_exp = false;
    let data = jsonwebtoken::decode::<serde_json::Value>(
        &token,
        &jsonwebtoken::DecodingKey::from_secret("top-secret".as_bytes()),
        &validation,
    )
    .expect("decoded");
    assert_eq!(data.claims["user_id"].as_i64(), Some(7));
    assert_eq!(data.claims["username"].as_str(), Some("alice"));
    assert_eq!(data.claims["role"].as_str(), Some("super_admin"));
    assert_eq!(data.claims["exp"].as_u64(), Some(4_600));
    assert_eq!(data.header.alg, jsonwebtoken::Algorithm::HS256);
}

#[test]
fn clock_based_issue_and_validate() {
    let before = std::time::SystemTime::now()
        .duration_since(std::time::UNIX_EPOCH)
        .expect("after the epoch")
        .as_secs();
    let token = generate_token(&config(), 7, "alice", &roles(&["super_admin"])).expect("issued");
    let claims = verify_token(&config(), &token).expect("valid");
    assert_eq!(claims.user_id, 7);
    assert_eq!(claims.username, "alice");
    assert_eq!(claims.role, "super_admin");
    assert!(claims.exp >= before + 3600 && claims.exp <= before + 3601, "{}", claims.exp);
    assert_eq!(verify_token(&config(), &tamper_last(&token)), Err(TokenError::BadSignature));
    let past = issue_at(&config(), 7, "alice", &roles(&[]), 1_000).expect("issued");
    assert_eq!(verify_token(&config(), &past), Err(TokenError::Expired));
}

#[test]
fn messages_of_token_errors() {
    assert_eq!(TokenError::EmptySecret.message(), "JWT secret is empty");
    assert_eq!(TokenError::ZeroTtl.message(), "JWT expires_in is invalid");
    assert_eq!(TokenError::Expired.message(), "令牌已过期");
    assert_eq!(TokenError::BadSignature.message(), "无效的令牌签名");
    assert_eq!(TokenError::Malformed.message(), "令牌格式无效");
    assert_eq!(TokenError::Other.message(), "令牌验证失败");
    assert_eq!(TokenError::BadIssuer.message(), "令牌验证失败");
    assert_eq!(TokenError::BadAudience.message(), "令牌验证失败");
    assert_eq!(TokenError::NotYetValid.message(), "令牌验证失败");
}

#[test]
fn signed_token_for_an_audience_is_bad_audience() {
    let token = foreign_token(vec![
        ("user_id", serde_json::Value::from(1i64)),
        ("username", serde_json::Value::from("alice")),
        ("role", serde_json::Value::from("editor")),
        ("exp", serde_json::Value::from(100u64)),
        ("aud", serde_json::Value::from("someone")),
    ]);
    assert_eq!(validate_at(&config(), &token, 1), Err(TokenError::BadAudience));
    assert_eq!(validate_at(&config(), &token, 1_000), Err(TokenError::BadAudience));
    assert_eq!(verify_token(&config(), &token), Err(TokenError::BadAudience));
}

#[test]
fn configuration_fault_comes_before_the_clock() {
    let empty = JwtConfig { secret: String::new(), expires_in: 3600 };
    let zero = JwtConfig { secret: "s".to_string(), expires_in: 0 };
    let both = JwtConfig { secret: String::new(), expires_in: 0 };
    assert_eq!(generate_token(&empty, 1, "a", &roles(&["x"])), Err(TokenError::EmptySecret));
    assert_eq!(generate_token(&zero, -5, "", &roles(&[])), Err(TokenError::ZeroTtl));
    assert_eq!(generate_token(&both, 1, "a", &roles(&[])), Err(TokenError::EmptySecret));
    assert_eq!(verify_token(&empty, "abc"), Err(TokenError::EmptySecret));
    assert_eq!(verify_token(&zero, "abc"), Err(TokenError::ZeroTtl));
    for clock in [None, Some(0u64), Some(u64::MAX)] {
        assert_eq!(issue_by_clock(&empty, 1, "a", &roles(&[]), clock), Err(TokenError::EmptySecret));
        assert_eq!(issue_by_clock(&zero, 1, "a", &roles(&[]), clock), Err(TokenError::ZeroTtl));
        assert_eq!(validate_by_clock(&empty, "abc", clock), Err(TokenError::EmptySecret));
        assert_eq!(validate_by_clock(&zero, "abc", clock), Err(TokenError::ZeroTtl));
    }
}

#[test]
fn clock_that_cannot_be_read() {
    assert_eq!(issue_by_clock(&config(), 1, "a", &roles(&[]), None), Err(TokenError::Other));
    let token = issue_by_clock(&config(), 7, "alice", &roles(&["editor"]), Some(1_000)).expect("issued");
    assert_eq!(Ok(token.clone()), issue_at(&config(), 7, "alice", &roles(&["editor"]), 1_000));
    assert_eq!(
        validate_by_clock(&config(), &token, Some(4_599)),
        validate_at(&config(), &token, 4_599)
    );
    assert_eq!(validate_by_clock(&config(), &token, Some(4_600)), Err(TokenError::Expired));
    assert_eq!(validate_by_clock(&config(), &token, None), Err(TokenError::Other));
    assert_eq!(
        validate_by_clock(&config(), &tamper_last(&token), None),
        Err(TokenError::BadSignature)
    );
    assert_eq!(validate_by_clock(&config(), "abc", None), Err(TokenError::Malformed));
    let expired_at_once = foreign_token(vec![
        ("user_id", serde_json::Value::from(1i64)),
        ("username", serde_json::Value::from("alice")),
        ("role", serde_json::Value::from("editor")),
        ("exp", serde_json::Value::from(0u64)),
    ]);
    assert_eq!(validate_by_clock(&config(), &expired_at_once, None), Err(TokenError::Other));
    assert_eq!(validate_by_clock(&config(), &expired_at_once, Some(0)), Err(TokenError::Expired));
}

#[test]
fn roles_of_odd_texts() {
    let claims = |role: &str| Claims { user_id: 1, username: String::new(), role: role.to_string(), exp: 1 };
    assert_eq!(claims("").roles(), roles(&[]));
    assert_eq!(claims(",").roles(), roles(&["", ""]));
    assert_eq!(claims("a,,b").roles(), roles(&["a", "", "b"]));
    assert_eq!(claims(",a,").roles(), roles(&["", "a", ""]));
    assert_eq!(claims("管理员,编辑").roles(), roles(&["管理员", "编辑"]));
    assert_eq!(claims("super_admin").roles(), roles(&["super_admin"]));
}

#[test]
fn dot_in_place_of_a_signature_byte_ends_the_signature_there() {
    let token = issue_at(&config(), 7, "alice", &roles(&["super_admin"]), 1_000).expect("issued");
    let last_dot = token.rfind('.').expect("dot");
    let mut bytes = token.clone().into_bytes();
    bytes[last_dot + 5] = b'.';
    let cut = String::from_utf8(bytes).expect("text");
    let outcome = validate_at(&config(), &cut, 1_001);
    assert!(outcome.is_err(), "{:?}", outcome);
    assert_ne!(outcome, Err(TokenError::Expired));
    assert_ne!(outcome, Err(TokenError::BadSignature));
}

#[test]
fn any_other_signature_is_bad_signature() {
    let token = issue_at(&config(), 7, "alice", &roles(&["super_admin"]), 1_000).expect("issued");
    let last_dot = token.rfind('.').expect("dot");
    let message = &token[..last_dot + 1];
    for signature in ["", "x", "令牌", "AAAAAAAAAAAAAAAAAAAAAAAAAAAAAAAAAAAAAAAAAAA", "=?+/"] {
        let other = format!("{}{}", message, signature);
        assert_eq!(validate_at(&config(), &other, 1_001), Err(TokenError::BadSignature), "{}", other);
        assert_eq!(validate_at(&config(), &other, 9_999), Err(TokenError::BadSignature), "{}", other);
    }
    let longer = format!("{}x", token);
    assert_eq!(validate_at(&config(), &longer, 1_001), Err(TokenError::BadSignature));
    let shorter = &token[..token.len() - 1];
    assert_eq!(validate_at(&config(), shorter, 1_001), Err(TokenError::BadSignature));
}
