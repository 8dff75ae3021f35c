use price_tracker::auth::{AuthController, UserRecord};
use price_tracker::error::Code;
use price_tracker::services::{AuthRequest, Role};

fn request(name: &str, password: &str) -> AuthRequest {
    AuthRequest { name: name.to_string(), password: password.to_string() }
}

#[test]
fn registered_user_logs_in() {
    let auth = AuthController::new(vec![0x5a; 32]);
    let user = auth.new_user(&request("ann", "hunter2")).unwrap();
    assert_eq!(user.name, "ann");
    assert_eq!(user.role, Role::User);
    assert!(user.password.starts_with("$argon2d$v=16$"));
    let reply = auth.login(&request("ann", "hunter2"), Some(UserRecord { id: 11, password: user.password.clone() })).unwrap();
    assert!(reply.success);
    assert_eq!(reply.token, "");
    assert_eq!(reply.user_id, 11);
}

#[test]
fn wrong_password_or_secret_is_refused() {
    let auth = AuthController::new(vec![1; 16]);
    let user = auth.new_user(&request("bob", "right")).unwrap();
    let refused = auth.login(&request("bob", "wrong"), Some(UserRecord { id: 1, password: user.password.clone() })).unwrap_err();
    assert_eq!(refused.code, Code::Unauthenticated);
    assert_eq!(refused.message, "Incorrent password");
    let other = AuthController::new(vec![2; 16]);
    let refused = other.login(&request("bob", "right"), Some(UserRecord { id: 1, password: user.password })).unwrap_err();
    assert_eq!(refused.code, Code::Unauthenticated);
}

#[test]
fn unknown_user_and_broken_hash() {
    let auth = AuthController::new(vec![]);
    let refused = auth.login(&request("eve", "x"), None).unwrap_err();
    assert_eq!(refused.code, Code::Unauthenticated);
    assert_eq!(refused.message, "User not found");
    let broken = auth.login(&request("eve", "x"), Some(UserRecord { id: 2, password: "not a hash".to_string() })).unwrap_err();
    assert_eq!(broken.code, Code::Internal);
}

#[test]
fn registration_answer() {
    let r = AuthController::registered(8);
    assert!(r.success);
    assert_eq!(r.token, "");
    assert_eq!(r.user_id, 8);
}
