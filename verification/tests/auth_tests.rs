use bulk_sms_api::JwtConfig;
use bulk_sms_api::auth::JwtAuthenticationGuard;
use bulk_sms_api::entity::{Permission, Role, User};
use bulk_sms_api::error::AppErrorType;
use bulk_sms_api::jwt::generate_token;

fn config() -> JwtConfig {
    JwtConfig { secret: "guard-test-secret".to_string(), expires_in: 30 }
}

fn minted_token(cfg: &JwtConfig, now: usize) -> String {
    let user = User {
        user_id: 77,
        first_name: "Sam".to_string(),
        middle_name: None,
        surname: "Lee".to_string(),
        email_address: "sam@example.com".to_string(),
        mobile_number: None,
        enabled: true,
        email_confirmed: true,
        role_id: 3,
        created_at: 1700000001,
    };
    let role = Role { role_id: 3, name: "USER".to_string(), created_at: 1700000000 };
    let perms = vec![Permission {
        permission_id: 9,
        name: "READ".to_string(),
        created_at: 1700000000,
    }];
    generate_token(user, role, perms, cfg, now).unwrap()
}

#[test]
fn guard_rejects_missing_header() {
    let cfg = config();
    let r = JwtAuthenticationGuard::from_header(None, &cfg, 0);
    let e = r.unwrap_err();
    assert_eq!(e.error_type, AppErrorType::Unauthenticated);
    assert_eq!(e.message.unwrap(), "Authorization is required!");
}

#[test]
fn guard_rejects_short_header() {
    let cfg = config();
    let header = b"Bearer".to_vec();
    let r = JwtAuthenticationGuard::from_header(Some(&header), &cfg, 0);
    let e = r.unwrap_err();
    assert_eq!(e.error_type, AppErrorType::Unauthenticated);
    assert_eq!(e.message.unwrap(), "Authorization is required!");
}

#[test]
fn guard_rejects_empty_header() {
    let cfg = config();
    let header: Vec<u8> = Vec::new();
    let r = JwtAuthenticationGuard::from_header(Some(&header), &cfg, 0);
    assert_eq!(r.unwrap_err().error_type, AppErrorType::Unauthenticated);
}

#[test]
fn guard_rejects_non_decodable_header() {
    let cfg = config();
    let mut header = b"Bearer ".to_vec();
    header.push(0xff);
    header.push(0x01);
    let r = JwtAuthenticationGuard::from_header(Some(&header), &cfg, 0);
    let e = r.unwrap_err();
    assert_eq!(e.error_type, AppErrorType::MalformedCredential);
    assert_eq!(e.message.unwrap(), "Invalid token format");
}

#[test]
fn guard_rejects_expired_token() {
    let cfg = config();
    let now: usize = 1_000;
    let token = minted_token(&cfg, now);
    let mut header = b"Bearer ".to_vec();
    header.extend_from_slice(token.as_bytes());
    let exp = now + 30 * 60;
    let r = JwtAuthenticationGuard::from_header(Some(&header), &cfg, exp + 1);
    let e = r.unwrap_err();
    assert_eq!(e.error_type, AppErrorType::Unauthenticated);
    assert_eq!(e.message.unwrap(), "Authorization is required!");
}

#[test]
fn guard_rejects_garbage_token() {
    let cfg = config();
    let header = b"Bearer not-a-token".to_vec();
    let r = JwtAuthenticationGuard::from_header(Some(&header), &cfg, 0);
    assert_eq!(r.unwrap_err().error_type, AppErrorType::Unauthenticated);
}

#[test]
fn guard_accepts_valid_token() {
    let cfg = config();
    let now: usize = 1_000;
    let token = minted_token(&cfg, now);
    let mut header = b"Bearer ".to_vec();
    header.extend_from_slice(token.as_bytes());
    let g = JwtAuthenticationGuard::from_header(Some(&header), &cfg, now + 10).unwrap();
    assert_eq!(g.id, 77);
}
