use example_crud_blog_seaorm::abstract_trait::AuthServiceTrait;
use example_crud_blog_seaorm::domain::{LoginRequest, RegisterRequest};
use example_crud_blog_seaorm::error::AppError;
use example_crud_blog_seaorm::hashing::Hashing;
use example_crud_blog_seaorm::middleware::authenticate;
use example_crud_blog_seaorm::repository::UserRepository;
use example_crud_blog_seaorm::service::AuthService;
use example_crud_blog_seaorm::state::AppState;
use example_crud_blog_seaorm::token::TokenCodec;

const NOW: u64 = 1_700_000_000;

fn auth() -> AuthService<UserRepository> {
    AuthService::new(
        UserRepository::new(),
        Hashing::with_cost(4),
        TokenCodec::new(b"test-signing-secret".to_vec(), 3600),
    )
}

fn register(email: &str, password: &str) -> RegisterRequest {
    RegisterRequest {
        firstname: "Ada".to_owned(),
        lastname: "Lovelace".to_owned(),
        email: email.to_owned(),
        password: password.to_owned(),
    }
}

fn login(email: &str, password: &str) -> LoginRequest {
    LoginRequest { email: email.to_owned(), password: password.to_owned() }
}

#[test]
fn hash_round_trip_and_salt_uniqueness() {
    let h = Hashing::with_cost(4);
    let a = h.hash_password("hunter2").unwrap();
    let b = h.hash_password("hunter2").unwrap();
    assert_ne!(a, b, "two hashes of one password must differ by salt");
    assert_eq!(h.compare_password(&a, "hunter2"), Ok(true));
    assert_eq!(h.compare_password(&b, "hunter2"), Ok(true));
}

#[test]
fn hash_verification_rejects_mismatch() {
    let h = Hashing::with_cost(4);
    let a = h.hash_password("correct horse").unwrap();
    assert_eq!(h.compare_password(&a, "battery staple"), Ok(false));
    assert_eq!(h.compare_password(&a, ""), Ok(false));
    assert_eq!(h.compare_password(&a, "correct hors"), Ok(false));
}

#[test]
fn hash_output_is_real_bcrypt() {
    let h = Hashing::with_cost(4);
    let a = h.hash_password("hunter2").unwrap();
    assert!(bcrypt::verify("hunter2", &a).unwrap());
    assert!(!bcrypt::verify("wrong", &a).unwrap());
    let independent = bcrypt::hash("hunter2", 4).unwrap();
    assert_eq!(h.compare_password(&independent, "hunter2"), Ok(true));
}

#[test]
fn malformed_stored_hash_is_an_error_not_a_mismatch() {
    let h = Hashing::with_cost(4);
    assert_eq!(h.compare_password("not-a-bcrypt-hash", "anything"), Err(AppError::HashingError));
}

#[test]
fn registration_rejects_duplicate_email_and_keeps_first() {
    let mut a = auth();
    let first = a.register_user(&register("a@x.com", "secret123")).unwrap();
    assert_eq!(first.status, "success");
    let again = a.register_user(&register("a@x.com", "otherpass"));
    assert_eq!(again.unwrap_err(), AppError::EmailAlreadyExists);
    // the first identity is unaffected: its password still logs in
    let token = a.login_user(&login("a@x.com", "secret123"), NOW).unwrap();
    assert_eq!(a.verify_token(&token.data, NOW), Ok(first.data.id));
}

#[test]
fn login_scenario() {
    let mut a = auth();
    let reg = a.register_user(&register("a@x.com", "secret123")).unwrap();
    assert_eq!(reg.data.email, "a@x.com");
    assert_eq!(reg.data.firstname, "Ada");

    let ok = a.login_user(&login("a@x.com", "secret123"), NOW).unwrap();
    assert_eq!(ok.status, "success");
    assert!(!ok.data.is_empty(), "login must yield a non-empty token");

    let wrong = a.login_user(&login("a@x.com", "wrong"), NOW);
    assert_eq!(wrong.unwrap_err(), AppError::InvalidCredentials);

    let unknown = a.login_user(&login("nobody@x.com", "secret123"), NOW);
    assert_eq!(unknown.unwrap_err(), AppError::InvalidCredentials);
}

#[test]
fn login_token_verifies_to_the_registered_id() {
    let mut a = auth();
    let reg = a.register_user(&register("a@x.com", "secret123")).unwrap();
    let token = a.login_user(&login("a@x.com", "secret123"), NOW).unwrap().data;
    assert_eq!(a.verify_token(&token, NOW), Ok(reg.data.id));
    assert_eq!(a.verify_token(&token, NOW + 3601), Err(AppError::TokenExpired));
}

#[test]
fn registration_never_echoes_the_hash() {
    let mut a = auth();
    let reg = a.register_user(&register("a@x.com", "secret123")).unwrap();
    // the public projection has exactly id and profile fields; the message
    // and status describe the envelope
    assert_eq!(reg.status, "success");
    assert_eq!(reg.message, "User registered successfully");
    assert_eq!(reg.data.lastname, "Lovelace");
}

#[test]
fn guard_accepts_bearer_token_and_rejects_everything_else() {
    let codec = TokenCodec::new(b"test-signing-secret".to_vec(), 3600);
    let token = codec.generate_token(5, NOW);
    let mut header = b"Bearer ".to_vec();
    header.extend_from_slice(&token);
    assert_eq!(authenticate(&codec, Some(&header), NOW), Ok(5));

    assert_eq!(authenticate(&codec, None, NOW), Err(AppError::Unauthenticated));
    assert_eq!(
        authenticate(&codec, Some(&b"Bearer ".to_vec()), NOW),
        Err(AppError::Unauthenticated)
    );
    let mut basic = b"Basic ".to_vec();
    basic.extend_from_slice(&token);
    assert_eq!(authenticate(&codec, Some(&basic), NOW), Err(AppError::Unauthenticated));

    let mut tampered = header.clone();
    let last = tampered.len() - 1;
    tampered[last] ^= 1;
    assert_eq!(authenticate(&codec, Some(&tampered), NOW), Err(AppError::InvalidToken));
}

#[test]
fn app_state_wires_auth_and_guard_together() {
    let mut state = AppState::new(b"process-secret".to_vec(), 3600, 4);
    let reg = state
        .di_container
        .auth_service
        .register_user(&register("a@x.com", "secret123"))
        .unwrap();
    let token =
        state.di_container.auth_service.login_user(&login("a@x.com", "secret123"), NOW).unwrap();
    let mut header = b"Bearer ".to_vec();
    header.extend_from_slice(&token.data);
    assert_eq!(authenticate(&state.jwt_config, Some(&header), NOW), Ok(reg.data.id));
}
