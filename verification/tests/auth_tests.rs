use anthere::auth::{Backend, Credentials, NewUser};
use anthere::seeds;

fn seeded_backend() -> Backend {
    let seed_users = seeds::users();
    let mut users = Vec::new();
    let mut id = 1;
    for nu in seed_users {
        users.push(nu.into_user(id));
        id += 1;
    }
    Backend::new(users)
}

fn creds(email: &str, password: &str) -> Credentials {
    Credentials { email: email.to_string(), password: password.to_string(), next: None }
}

#[test]
fn test_authenticate() {
    let seed_users = seeds::users();
    let user = seed_users.first().unwrap();
    let user_email = user.email.clone();

    let backend = seeded_backend();
    let res = backend.authenticate(&creds(&user_email, "passw0rd")).unwrap();
    assert!(res.is_some());

    let res = res.unwrap();
    assert_eq!(res.email, user_email);
}

#[test]
fn test_get_user() {
    let john = NewUser::hashed(
        "john.doe@eexample.com".to_string(),
        &"passw0rd".to_string(),
    ).into_user(1);
    let backend = Backend::new(vec![john]);
    let res = backend.get_user(1);
    assert!(res.is_ok());
    assert!(res.unwrap().is_some());
}

#[test]
fn authenticate_rejects_wrong_password_with_empty_result() {
    let backend = seeded_backend();
    let res = backend.authenticate(&creds("miles.davis@trumpet.com", "wrong")).unwrap();
    assert!(res.is_none());
}

#[test]
fn authenticate_rejects_unknown_email_with_empty_result() {
    let backend = seeded_backend();
    let res = backend.authenticate(&creds("nobody@nowhere.com", "passw0rd")).unwrap();
    assert!(res.is_none());
}

#[test]
fn authenticate_finds_second_seed_user() {
    let backend = seeded_backend();
    let res = backend.authenticate(&creds("marcus.miller@bass.com", "secr3t")).unwrap();
    assert!(res.is_some());
    assert_eq!(res.unwrap().email, "marcus.miller@bass.com");
}

#[test]
fn get_user_returns_empty_for_unknown_id() {
    let backend = seeded_backend();
    let res = backend.get_user(99).unwrap();
    assert!(res.is_none());
}
