use noodle::auth::{
    authenticate, bcrypt_hash, bcrypt_verify, decide_authentication, gate, AccessDecision, Error,
};
use noodle::user::User;

fn user_with_hash(hash: String) -> User {
    User {
        user_id: 1,
        firstname: String::from("Ada"),
        lastname: String::from("Lovelace"),
        title: String::new(),
        email: String::from("ada@example.org"),
        password: hash,
    }
}

#[test]
fn hash_then_authenticate() {
    let hash = bcrypt_hash("Abcdef1!", 4).expect("cost in range");
    let user = user_with_hash(hash);
    let found = authenticate(Some(user), "Abcdef1!");
    assert!(found.is_some());
    assert_eq!(found.unwrap().user_id, 1);
}

#[test]
fn wrong_password_is_rejected() {
    let hash = bcrypt_hash("Abcdef1!", 4).expect("cost in range");
    let user = user_with_hash(hash);
    assert!(authenticate(Some(user), "Abcdef2!").is_none());
}

#[test]
fn unknown_account_is_rejected() {
    assert!(authenticate(None, "Abcdef1!").is_none());
}

#[test]
fn malformed_hash_is_a_failed_login() {
    let user = user_with_hash(String::from("not a bcrypt hash"));
    assert!(authenticate(Some(user), "Abcdef1!").is_none());
}

#[test]
fn verify_agrees_with_hash() {
    let hash = bcrypt_hash("Abcdef1!", 4).expect("cost in range");
    assert_eq!(bcrypt_verify("Abcdef1!", &hash), Ok(true));
    assert_eq!(bcrypt_verify("other", &hash), Ok(false));
    assert!(bcrypt_verify("Abcdef1!", "junk").is_err());
}

#[test]
fn cost_out_of_range_is_an_error() {
    assert!(bcrypt_hash("Abcdef1!", 1).is_err());
    assert!(bcrypt_hash("Abcdef1!", 40).is_err());
}

#[test]
fn decide_authentication_needs_both() {
    let user = user_with_hash(String::from("h"));
    assert!(decide_authentication(Some(user), true).is_some());
    let user = user_with_hash(String::from("h"));
    assert!(decide_authentication(Some(user), false).is_none());
    assert!(decide_authentication(None, true).is_none());
}

#[test]
fn gate_fails_closed() {
    assert_eq!(gate(Ok(true)), AccessDecision::Allow);
    assert_eq!(gate(Ok(false)), AccessDecision::Deny);
    assert_eq!(gate(Err(Error::Store)), AccessDecision::Fail);
    assert_eq!(gate(Err(Error::TaskJoin)), AccessDecision::Fail);
}
