use price_tracker::error::{Code, Status};
use price_tracker::gateway::{auth_request, AuthClaims, auth_reply, authenticate, bearer_token, create_alert_reply, user_from_claims, AuthenticatedUser};
use price_tracker::jwt::{generate_jwt, Claims};
use price_tracker::services::{AlertResponse, AuthResponse};

#[test]
fn bearer_header_shapes() {
    assert_eq!(bearer_token(None), Err((401, "Missing Authorization Header".to_string())));
    assert_eq!(bearer_token(Some("Basic abc")), Err((401, "Invalid Header Format".to_string())));
    assert_eq!(bearer_token(Some("Bearer")), Err((401, "Invalid Header Format".to_string())));
    assert_eq!(bearer_token(Some("bearer abc")), Err((401, "Invalid Header Format".to_string())));
    assert_eq!(bearer_token(Some("Bearer ")), Ok(""));
    assert_eq!(bearer_token(Some("Bearer a.b.c")), Ok("a.b.c"));
}

#[test]
fn authenticates_issued_tokens() {
    let key = [3u8; 64];
    let token = generate_jwt(&key, 77).unwrap();
    let header = format!("Bearer {token}");
    assert_eq!(authenticate(Some(&header), &key), Ok(AuthenticatedUser { user_id: 77 }));
    assert_eq!(
        authenticate(Some(&header), &[4u8; 64]),
        Err((401, "Invalid or Expired Token".to_string()))
    );
    assert_eq!(authenticate(Some("Bearer junk"), &key), Err((401, "Invalid or Expired Token".to_string())));
    assert_eq!(authenticate(None, &key), Err((401, "Missing Authorization Header".to_string())));
}

#[test]
fn user_from_decoded_claims() {
    assert_eq!(user_from_claims(Ok(Claims { sub: 9, exp: 0 })), Ok(AuthenticatedUser { user_id: 9 }));
    assert_eq!(
        user_from_claims(Err(price_tracker::error::Error::EnvVar("X".to_string()))),
        Err((401, "Invalid or Expired Token".to_string()))
    );
}

#[test]
fn alert_replies() {
    assert_eq!(
        create_alert_reply(Ok(AlertResponse { success: true, alert_id: 12 })),
        Ok("Success! Alert created. Status: true, ID: 12".to_string())
    );
    assert_eq!(
        create_alert_reply(Ok(AlertResponse { success: false, alert_id: -4 })),
        Ok("Success! Alert created. Status: false, ID: -4".to_string())
    );
    assert_eq!(
        create_alert_reply(Err(Status { code: Code::Internal, message: "db down".to_string() })),
        Err("gRPC Error: db down".to_string())
    );
}

#[test]
fn auth_replies() {
    let ok = AuthResponse { success: true, token: String::new(), user_id: 3 };
    assert_eq!(auth_reply(Ok(ok.clone())), Ok(ok));
    assert_eq!(
        auth_reply(Err(Status { code: Code::Unauthenticated, message: "User not found".to_string() })),
        Err((400, "User not found".to_string()))
    );
}

#[test]
fn login_body_becomes_the_request() {
    let r = auth_request(AuthClaims { name: "ann".to_string(), password: "pw".to_string() });
    assert_eq!(r.name, "ann");
    assert_eq!(r.password, "pw");
}
