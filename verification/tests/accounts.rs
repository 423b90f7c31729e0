use kakapo::auth::{
    bearer_token, build_claims, permission_set, permissions_or_none, AuthClaims, Authorization,
    EmailOps, EmailSender, GetUserInfo, InvitationToken, LoginInfo, SessionToken, Token,
    UserInfo, UserManagementError, ADMIN_USER_ID,
};
use kakapo::permissions::Permission;
use kakapo::schema::Timestamp;

fn claims(sub: i64, is_admin: bool) -> AuthClaims {
    AuthClaims {
        iss: "kakapo".to_string(),
        sub,
        iat: 0,
        exp: 10,
        username: "ann".to_string(),
        is_admin,
        role: None,
    }
}

#[test]
fn tokens_are_sixteen_bytes_of_base64() {
    let t = Token::from_words([0x04030201, 0x08070605, 0x0c0b0a09, 0x100f0e0d]);
    assert_eq!(t.as_string(), "AQIDBAUGBwgJCgsMDQ4PEA==");
    let t = Token::from_words([0x12345678; 4]);
    assert_eq!(t.as_string(), "eFY0EnhWNBJ4VjQSeFY0Eg==");
    let random = Token::new().unwrap();
    assert_eq!(random.as_string().len(), 24);
    assert_eq!(random.clone().as_string(), random.as_string());
}

#[test]
fn claims_of_a_session() {
    let c = build_claims(&"kakapo".to_string(), 100, 60, LoginInfo { user_id: ADMIN_USER_ID, username: "root".to_string() });
    assert_eq!(c.iss, "kakapo");
    assert_eq!(c.sub, 1);
    assert_eq!(c.iat, 100);
    assert_eq!(c.exp, 160);
    assert_eq!(c.username, "root");
    assert!(c.is_admin);
    assert!(c.role.is_none());
    let c = build_claims(&"kakapo".to_string(), 100, 60, LoginInfo { user_id: 2, username: "ann".to_string() });
    assert!(!c.is_admin);
    assert_eq!(c.get_user_id(), 2);
    assert_eq!(c.get_username(), "ann");
    assert!(!c.is_user_admin());
}

#[test]
fn bearer_tokens() {
    match bearer_token("jwt".to_string(), 3600, "refresh".to_string()) {
        SessionToken::Bearer { access_token, expires_in, refresh_token } => {
            assert_eq!(access_token, "jwt");
            assert_eq!(expires_in, 3600);
            assert_eq!(refresh_token, "refresh");
        },
    }
}

#[test]
fn invitations_keep_email_and_expiry() {
    let token = InvitationToken {
        email: "a@b.c".to_string(),
        token: "t".to_string(),
        expires_at: Timestamp { secs: 5, nanos: 1 },
    };
    let inv = EmailSender {}.send_email(token).unwrap();
    assert_eq!(inv.email, "a@b.c");
    assert_eq!(inv.expires_at, Timestamp { secs: 5, nanos: 1 });
}

#[test]
fn what_is_known_of_the_caller() {
    let logged_out = UserInfo { claims: None };
    assert_eq!(logged_out.user_id(), None);
    assert!(!logged_out.is_admin());
    assert_eq!(logged_out.username(), None);
    assert!(logged_out.permissions(Ok(vec![Permission::user_admin()])).is_none());

    let admin = Authorization { claims: Some(claims(1, true)) };
    assert_eq!(admin.user_id(), Some(1));
    assert!(admin.is_admin());
    assert_eq!(admin.username(), Some("ann".to_string()));

    let user = UserInfo { claims: Some(claims(2, false)) };
    let perms = user.permissions(Ok(vec![Permission::user_admin(), Permission::user_admin()])).unwrap();
    assert_eq!(perms, vec![Permission::user_admin()]);
    let failed = user.permissions(Err(UserManagementError::Unknown)).unwrap();
    assert!(failed.is_empty());
    assert!(user.all_permissions(Err(UserManagementError::NotFound)).is_empty());
}

#[test]
fn permission_sets_drop_repeats() {
    let a = Permission::run_query("q".to_string());
    let b = Permission::run_script("s".to_string());
    let set = permission_set(vec![a.clone(), b.clone(), a.clone(), b.clone()]);
    assert_eq!(set, vec![a.clone(), b.clone()]);
    assert!(permissions_or_none(Err(UserManagementError::Unauthorized)).is_empty());
}

#[test]
fn role_of_the_caller() {
    let mut c = claims(2, false);
    assert_eq!(kakapo::auth::role_name(&Some(claims(2, false))), None);
    c.role = Some("editor".to_string());
    assert_eq!(c.get_role(), Some("editor".to_string()));
    assert_eq!(kakapo::auth::role_name(&Some(c)), Some("editor".to_string()));
    assert_eq!(kakapo::auth::role_name(&None), None);
}
