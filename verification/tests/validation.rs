use noodle::user::{credentials, email, email_taken_by_other, password, Profile};

#[test]
fn valid_email_passes() {
    let e = email("someone@example.org");
    assert!(!e.too_short);
    assert!(!e.too_long);
    assert!(!e.illegal_char);
    assert!(!e.invalid_format);
    assert!(e.is_valid());
}

#[test]
fn email_too_short() {
    let e = email("a@");
    assert!(e.too_short);
    assert!(!e.is_valid());
}

#[test]
fn email_too_long() {
    let local = "a".repeat(300);
    let addr = format!("{}@example.org", local);
    let e = email(&addr);
    assert!(e.too_long);
    assert!(!e.is_valid());
}

#[test]
fn email_whitespace_is_illegal() {
    assert!(email("a b@example.org").illegal_char);
    assert!(email("a\tb@example.org").illegal_char);
    assert!(email("a\nb@example.org").illegal_char);
    assert!(!email("ab@example.org").illegal_char);
}

#[test]
fn email_format_needs_one_interior_at() {
    assert!(email("nobody.example.org").invalid_format);
    assert!(email("@example.org").invalid_format);
    assert!(email("someone@").invalid_format);
    assert!(email("a@@b.org").invalid_format);
    assert!(email("a@b@c.org").invalid_format);
    assert!(!email("someone@example.org").invalid_format);
}

#[test]
fn password_checks_all_classes() {
    let ok = password("Abcdef1!");
    assert!(ok.is_valid());

    let short = password("Ab1!");
    assert!(short.too_short);
    assert!(!short.is_valid());

    let no_upper = password("abcdef1!");
    assert!(no_upper.uppercase_missing);

    let no_lower = password("ABCDEF1!");
    assert!(no_lower.lowercase_missing);

    let no_digit = password("Abcdefg!");
    assert!(no_digit.digit_missing);

    let no_special = password("Abcdefg1");
    assert!(no_special.special_missing);
}

#[test]
fn credentials_combine_both_checks() {
    let c = credentials("someone@example.org", "Abcdef1!");
    assert!(c.is_valid());
    let broken = credentials("nobody", "weak");
    assert!(!broken.is_valid());
    assert!(broken.email.invalid_format);
    assert!(broken.password.too_short);
}

#[test]
fn profile_new_keeps_fields() {
    let p = Profile::new(
        3,
        String::from("Ada"),
        String::from("Lovelace"),
        String::from("ada@example.org"),
    );
    assert_eq!(p.user_id, 3);
    assert_eq!(p.firstname, "Ada");
    assert_eq!(p.lastname, "Lovelace");
    assert_eq!(p.email, "ada@example.org");
}

#[test]
fn email_conflicts_only_with_other_users() {
    assert!(!email_taken_by_other(None, 3));
    assert!(!email_taken_by_other(Some(3), 3));
    assert!(email_taken_by_other(Some(4), 3));
}
