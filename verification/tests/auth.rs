//! Caller identity: bearer headers, credential claims, and what each
//! protected operation demands.

use signaling::auth_context::{AuthContext, JWTPayload, bearer_token, validate_host_claims};
use signaling::errors::{SignalingError, unauthorized};
use signaling::host::{Host, new_host_record};
use signaling::b58_fingerprint::b58_fingerprint;
use signaling::protocol::Void;
use signaling::user::{User, Auth0User, new_user_from_auth0};
use signaling::user_jwt;
use signaling::machine::parse_db_id;

fn sample_user() -> User {
    User {
        id: 42,
        created_at: 0,
        updated_at: 0,
        firebase_uid: String::from("uid-42"),
        email: String::from("u@example.com"),
        email_verified: true,
    }
}

fn sample_host() -> Host {
    Host {
        id: 9,
        created_at: 0,
        updated_at: 0,
        identity_public_key: String::from("pem"),
        slug: String::from("slug-9"),
    }
}

#[test]
fn bearer_token_extracts_the_token() {
    assert_eq!(bearer_token(&String::from("Bearer abc123")).unwrap(), "abc123");
    assert_eq!(
        bearer_token(&String::from("Token abc")),
        Err(SignalingError::Unauthorized)
    );
    assert_eq!(bearer_token(&String::from("Bearer")), Err(SignalingError::Unauthorized));
    assert_eq!(bearer_token(&String::from("")), Err(SignalingError::Unauthorized));
}

#[test]
fn host_claims_must_be_self_signed_for_this_endpoint() {
    let url = String::from("wss://signal.example");
    let good = JWTPayload {
        subject: String::from("host-key"),
        audience: String::from("wss://signal.example"),
        self_signature: true,
    };
    assert!(validate_host_claims(&good, &url).is_ok());

    let wrong_audience = JWTPayload {
        subject: String::from("host-key"),
        audience: String::from("wss://other.example"),
        self_signature: true,
    };
    assert_eq!(
        validate_host_claims(&wrong_audience, &url),
        Err(SignalingError::Unauthorized)
    );

    let not_self_signed = JWTPayload {
        subject: String::from("host-key"),
        audience: String::from("wss://signal.example"),
        self_signature: false,
    };
    assert_eq!(
        validate_host_claims(&not_self_signed, &url),
        Err(SignalingError::Unauthorized)
    );
}

#[test]
fn user_claims_must_name_the_project() {
    let project = String::from("project-1");
    let good = user_jwt::JWTPayload {
        sub: String::from("uid"),
        aud: String::from("project-1"),
        email: String::from("u@example.com"),
        email_verified: false,
    };
    assert!(user_jwt::validate_user_claims(&good, &project).is_ok());

    let bad = user_jwt::JWTPayload {
        sub: String::from("uid"),
        aud: String::from("project-2"),
        email: String::from("u@example.com"),
        email_verified: false,
    };
    assert_eq!(
        user_jwt::validate_user_claims(&bad, &project),
        Err(SignalingError::Unauthorized)
    );
}

#[test]
fn auth_context_gates_protected_operations() {
    let as_user = AuthContext { user: Some(sample_user()), host: None };
    assert_eq!(as_user.user_id(), Some(42));
    assert_eq!(as_user.allow_unauthorized_user().unwrap().id(), 42);
    assert_eq!(as_user.require_authorized_user().unwrap().email(), "u@example.com");
    assert_eq!(
        as_user.require_host().map(|h| h.id()),
        Err(SignalingError::Unauthorized)
    );

    let as_host = AuthContext { user: None, host: Some(sample_host()) };
    assert_eq!(as_host.user_id(), None);
    assert!(as_host.allow_unauthorized_user().is_none());
    assert_eq!(as_host.require_host().unwrap().slug(), "slug-9");
    assert_eq!(
        as_host.require_authorized_user().map(|u| u.id()),
        Err(SignalingError::Unauthorized)
    );

    let anonymous = AuthContext { user: None, host: None };
    assert_eq!(
        anonymous.require_authorized_user().map(|u| u.id()),
        Err(SignalingError::Unauthorized)
    );
    assert_eq!(anonymous.require_host().map(|h| h.id()), Err(SignalingError::Unauthorized));
}

#[test]
fn unauthorized_access_error() {
    assert_eq!(unauthorized(), SignalingError::Unauthorized);
    assert_eq!(unauthorized().message(), "Unauthorized Access");
}

#[test]
fn error_messages_are_user_facing() {
    assert_eq!(
        SignalingError::HostOffline.message(),
        "Printer appears to be offline. Make sure it is plugged in and connected to wifi."
    );
    assert_eq!(SignalingError::InvalidRequest.message(), "A hostSlug or invite is required");
    assert_eq!(SignalingError::InternalServerError.message(), "Internal Server Error");
}

#[test]
fn void_acknowledges_with_its_fixed_id() {
    assert_eq!(Void.id(), "VOID");
}

#[test]
fn first_host_contact_derives_its_slug() {
    let group = openssl::ec::EcGroup::from_curve_name(openssl::nid::Nid::X9_62_PRIME256V1).unwrap();
    let key = openssl::ec::EcKey::generate(&group).unwrap();
    let pem = String::from_utf8(key.public_key_to_pem().unwrap()).unwrap();

    let record = new_host_record(pem.clone()).unwrap();
    assert_eq!(record.identity_public_key, pem);
    assert_eq!(record.slug, b58_fingerprint(&pem).unwrap());
}

#[test]
fn record_ids_parse_as_plain_decimals() {
    assert_eq!(parse_db_id("0"), Some(0));
    assert_eq!(parse_db_id("123"), Some(123));
    assert_eq!(parse_db_id("9223372036854775807"), Some(i64::MAX));
    assert_eq!(parse_db_id("9223372036854775808"), None);
    assert_eq!(parse_db_id(""), None);
    assert_eq!(parse_db_id("-1"), None);
    assert_eq!(parse_db_id("+5"), None);
    assert_eq!(parse_db_id("12a"), None);
    assert_eq!(parse_db_id("99999999999999999999999999"), None);
}

#[test]
fn verified_profile_maps_to_its_upsert_row() {
    let profile = Auth0User {
        sub: String::from("auth0|123"),
        name: Some(String::from("Sam")),
        email: None,
        email_verified: false,
        phone_number: Some(String::from("+1555")),
        phone_number_verified: true,
    };
    let row = new_user_from_auth0(profile);
    assert_eq!(row.auth0_id, "auth0|123");
    assert_eq!(row.name, Some(String::from("Sam")));
    assert_eq!(row.email, None);
    assert!(!row.email_verified);
    assert_eq!(row.phone_number, Some(String::from("+1555")));
    assert!(row.phone_number_verified);
}
