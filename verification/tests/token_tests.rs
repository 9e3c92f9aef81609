use bulk_sms_api::JwtConfig;
use bulk_sms_api::entity::{Permission, Role, User};
use bulk_sms_api::error::AppErrorType;
use bulk_sms_api::jwt::{generate_token, validate_token};

fn sample_user() -> User {
    User {
        user_id: 42,
        first_name: "Jane".to_string(),
        middle_name: Some("Q".to_string()),
        surname: "Doe".to_string(),
        email_address: "jane.doe@example.com".to_string(),
        mobile_number: None,
        enabled: true,
        email_confirmed: true,
        role_id: 1,
        created_at: 1700000000,
    }
}

fn sample_role() -> Role {
    Role { role_id: 1, name: "ADMIN".to_string(), created_at: 1690000000 }
}

fn sample_permissions() -> Vec<Permission> {
    vec![
        Permission { permission_id: 1, name: "READ".to_string(), created_at: 1690000001 },
        Permission { permission_id: 2, name: "WRITE".to_string(), created_at: 1690000002 },
    ]
}

fn config() -> JwtConfig {
    JwtConfig { secret: "test-signing-secret".to_string(), expires_in: 60 }
}

#[test]
fn mint_verify_round_trip() {
    let cfg = config();
    let now: usize = 1_000_000;
    let token = generate_token(sample_user(), sample_role(), sample_permissions(), &cfg, now)
        .unwrap();
    let claims = validate_token(token.as_str(), &cfg, now).unwrap();
    assert_eq!(claims.sub, "jane.doe@example.com");
    assert_eq!(claims.user, sample_user());
    assert_eq!(claims.role, sample_role());
    assert_eq!(claims.permissions, sample_permissions());
    assert_eq!(claims.iat, now);
    assert_eq!(claims.exp, now + 3600);
}

#[test]
fn round_trip_with_unicode_and_empty_fields() {
    let cfg = config();
    let user = User {
        user_id: -7,
        first_name: "Åsa".to_string(),
        middle_name: None,
        surname: "Öst–berg ✓".to_string(),
        email_address: "".to_string(),
        mobile_number: Some("+46 70 000".to_string()),
        enabled: false,
        email_confirmed: false,
        role_id: -2,
        created_at: -12345,
    };
    let role = Role { role_id: -2, name: "rôle".to_string(), created_at: 0 };
    let token = generate_token(user, role, Vec::new(), &cfg, 5).unwrap();
    let claims = validate_token(token.as_str(), &cfg, 5).unwrap();
    assert_eq!(claims.sub, "");
    assert_eq!(claims.user.surname, "Öst–berg ✓");
    assert_eq!(claims.user.created_at, -12345);
    assert_eq!(claims.permissions.len(), 0);
    assert_eq!(claims.role.name, "rôle");
}

#[test]
fn verify_rejects_tampered_signature() {
    let cfg = config();
    let now: usize = 1_000_000;
    let token = generate_token(sample_user(), sample_role(), sample_permissions(), &cfg, now)
        .unwrap();
    let sep = token.find('~').unwrap();
    for i in (sep + 1)..token.len() {
        let mut bytes = token.clone().into_bytes();
        bytes[i] = if bytes[i] == b'A' { b'B' } else { b'A' };
        let tampered = String::from_utf8(bytes).unwrap();
        if tampered != token {
            let r = validate_token(tampered.as_str(), &cfg, now);
            assert!(r.is_err());
            let e = r.unwrap_err();
            assert_eq!(e.error_type, AppErrorType::Unauthenticated);
            assert_eq!(e.cause.unwrap(), "The token signature is invalid!");
        }
    }
}

#[test]
fn verify_rejects_wrong_secret() {
    let cfg = config();
    let other = JwtConfig { secret: "another-secret".to_string(), expires_in: 60 };
    let token = generate_token(sample_user(), sample_role(), sample_permissions(), &cfg, 7)
        .unwrap();
    assert!(validate_token(token.as_str(), &other, 7).is_err());
}

#[test]
fn verify_expiry_is_absolute() {
    let cfg = config();
    let now: usize = 1_000_000;
    let exp = now + 3600;
    let token = generate_token(sample_user(), sample_role(), sample_permissions(), &cfg, now)
        .unwrap();
    assert!(validate_token(token.as_str(), &cfg, now).is_ok());
    assert!(validate_token(token.as_str(), &cfg, exp - 1).is_ok());
    assert!(validate_token(token.as_str(), &cfg, exp).is_ok());
    let late = validate_token(token.as_str(), &cfg, exp + 1);
    assert!(late.is_err());
    let e = late.unwrap_err();
    assert_eq!(e.error_type, AppErrorType::Unauthenticated);
    assert_eq!(e.cause.unwrap(), "The token has expired!");
}

#[test]
fn verify_rejects_malformed_tokens() {
    let cfg = config();
    let e = validate_token("", &cfg, 0).unwrap_err();
    assert_eq!(e.cause.unwrap(), "The token is malformed!");
    assert!(validate_token("no separator at all", &cfg, 0).is_err());
    assert!(validate_token("payload~signature", &cfg, 0).is_err());
    assert!(validate_token("~", &cfg, 0).is_err());
}

#[test]
fn verify_rejects_valid_signature_over_garbage_payload() {
    let cfg = config();
    let now: usize = 50;
    let token = generate_token(sample_user(), sample_role(), vec![], &cfg, now).unwrap();
    let sep = token.find('~').unwrap();
    let sig = &token[sep..];
    let forged = format!("zz{}", sig);
    assert!(validate_token(forged.as_str(), &cfg, now).is_err());
}

#[test]
fn token_is_url_safe() {
    let cfg = config();
    let token = generate_token(sample_user(), sample_role(), sample_permissions(), &cfg, 9)
        .unwrap();
    for c in token.chars() {
        assert!(
            c.is_ascii_alphanumeric() || c == '.' || c == '-' || c == '_' || c == '~',
            "unexpected character {:?}",
            c
        );
    }
}
