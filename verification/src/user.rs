//! Users and the validation of what they register with. Validation returns
//! structured per-field flags rather than one message, so a client can see
//! exactly which rule a credential broke; it runs before any store work and
//! an invalid credential never reaches the store.

use vstd::prelude::*;

verus! {

/// The public face of a user row.
pub struct Profile {
    pub user_id: i64,
    pub firstname: String,
    pub lastname: String,
    pub email: String,
}

impl Profile {
    pub fn new(user_id: i64, firstname: String, lastname: String, email: String) -> (r: Profile)
        ensures
            r.user_id == user_id,
            r.firstname@ == firstname@,
            r.lastname@ == lastname@,
            r.email@ == email@,
    {
        Profile { user_id, firstname, lastname, email }
    }
}

/// What a login request carries.
pub struct Credentials {
    pub email: String,
    pub password: String,
}

/// A full user row; `password` holds the stored password hash.
pub struct User {
    pub user_id: i64,
    pub firstname: String,
    pub lastname: String,
    pub title: String,
    pub email: String,
    pub password: String,
}

/// A plain message envelope for error responses.
pub struct Message {
    pub message: String,
}

/// What a registration request carries.
pub struct New {
    pub firstname: String,
    pub lastname: String,
    pub email: String,
    pub password: String,
}

/// An upper-case ASCII letter.
pub open spec fn is_upper(c: char) -> bool {
    65 <= c as u32 <= 90
}

/// A lower-case ASCII letter.
pub open spec fn is_lower(c: char) -> bool {
    97 <= c as u32 <= 122
}

/// An ASCII digit.
pub open spec fn is_digit(c: char) -> bool {
    48 <= c as u32 <= 57
}

/// Anything that is neither an ASCII letter nor an ASCII digit counts as a
/// special character.
pub open spec fn is_special(c: char) -> bool {
    !is_upper(c) && !is_lower(c) && !is_digit(c)
}

/// A whitespace character that an email address may not contain.
pub open spec fn is_email_illegal(c: char) -> bool {
    c == ' ' || c == '\t' || c == '\n'
}

/// The flags a password can break: a character minimum and four required
/// character classes.
#[derive(Clone, Copy, PartialEq, Eq, Structural, Debug)]
pub struct PasswordErrors {
    pub too_short: bool,
    pub uppercase_missing: bool,
    pub lowercase_missing: bool,
    pub digit_missing: bool,
    pub special_missing: bool,
}

impl PasswordErrors {
    pub open spec fn spec_is_valid(self) -> bool {
        !self.too_short && !self.uppercase_missing && !self.lowercase_missing
            && !self.digit_missing && !self.special_missing
    }

    pub fn is_valid(&self) -> (r: bool)
        ensures
            r == self.spec_is_valid(),
    {
        !self.too_short && !self.uppercase_missing && !self.lowercase_missing
            && !self.digit_missing && !self.special_missing
    }
}

/// The flags of a checked password, over its character sequence.
pub open spec fn spec_password_errors(s: Seq<char>) -> PasswordErrors {
    PasswordErrors {
        too_short: s.len() < 8,
        uppercase_missing: !(exists|i: int| 0 <= i < s.len() && is_upper(#[trigger] s[i])),
        lowercase_missing: !(exists|i: int| 0 <= i < s.len() && is_lower(#[trigger] s[i])),
        digit_missing: !(exists|i: int| 0 <= i < s.len() && is_digit(#[trigger] s[i])),
        special_missing: !(exists|i: int| 0 <= i < s.len() && is_special(#[trigger] s[i])),
    }
}

/// Checks a password: at least eight characters, with at least one
/// upper-case letter, one lower-case letter, one digit and one special
/// character.
pub fn password(text: &str) -> (r: PasswordErrors)
    ensures
        r == spec_password_errors(text@),
{
    let n = text.unicode_len();
    let mut has_upper = false;
    let mut has_lower = false;
    let mut has_digit = false;
    let mut has_special = false;
    let mut i: usize = 0;
    while i < n
        invariant
            0 <= i <= n,
            n == text@.len(),
            has_upper == exists|j: int| 0 <= j < i && is_upper(#[trigger] text@[j]),
            has_lower == exists|j: int| 0 <= j < i && is_lower(#[trigger] text@[j]),
            has_digit == exists|j: int| 0 <= j < i && is_digit(#[trigger] text@[j]),
            has_special == exists|j: int| 0 <= j < i && is_special(#[trigger] text@[j]),
        decreases n - i,
    {
        let c = text.get_char(i);
        let v = c as u32;
        if 65 <= v && v <= 90 {
            has_upper = true;
        } else if 97 <= v && v <= 122 {
            has_lower = true;
        } else if 48 <= v && v <= 57 {
            has_digit = true;
        } else {
            has_special = true;
        }
        assert(text@[i as int] == c);
        i += 1;
    }
    PasswordErrors {
        too_short: n < 8,
        uppercase_missing: !has_upper,
        lowercase_missing: !has_lower,
        digit_missing: !has_digit,
        special_missing: !has_special,
    }
}

/// The flags an email address can break: a length window, no whitespace,
/// and the shape of the address.
#[derive(Clone, Copy, PartialEq, Eq, Structural, Debug)]
pub struct EmailErrors {
    pub too_short: bool,
    pub too_long: bool,
    pub illegal_char: bool,
    pub invalid_format: bool,
}

impl EmailErrors {
    pub open spec fn spec_is_valid(self) -> bool {
        !self.too_short && !self.too_long && !self.illegal_char && !self.invalid_format
    }

    pub fn is_valid(&self) -> (r: bool)
        ensures
            r == self.spec_is_valid(),
    {
        !self.too_short && !self.too_long && !self.illegal_char && !self.invalid_format
    }
}

impl Default for EmailErrors {
    /// No flags raised.
    fn default() -> (r: EmailErrors)
        ensures
            r == (EmailErrors {
                too_short: false,
                too_long: false,
                illegal_char: false,
                invalid_format: false,
            }),
    {
        EmailErrors { too_short: false, too_long: false, illegal_char: false, invalid_format: false }
    }
}

/// A well-shaped address: exactly one `@`, neither first nor last.
pub open spec fn spec_email_format_ok(s: Seq<char>) -> bool {
    exists|i: int|
        0 < i < s.len() - 1 && #[trigger] s[i] == '@' && forall|j: int|
            0 <= j < s.len() && j != i ==> s[j] != '@'
}

/// The flags of a checked email address, over its character sequence.
pub open spec fn spec_email_errors(s: Seq<char>) -> EmailErrors {
    EmailErrors {
        too_short: s.len() < 3,
        too_long: s.len() > 255,
        illegal_char: exists|i: int| 0 <= i < s.len() && is_email_illegal(#[trigger] s[i]),
        invalid_format: !spec_email_format_ok(s),
    }
}

/// Checks an email address: between three and 255 characters, free of
/// whitespace, with exactly one `@` strictly inside.
pub fn email(address: &str) -> (r: EmailErrors)
    ensures
        r == spec_email_errors(address@),
{
    let n = address.unicode_len();
    let mut first_at: Option<usize> = None;
    let mut duplicate_at = false;
    let mut illegal = false;
    let mut i: usize = 0;
    while i < n
        invariant
            0 <= i <= n,
            n == address@.len(),
            illegal == exists|j: int| 0 <= j < i && is_email_illegal(#[trigger] address@[j]),
            match first_at {
                None => forall|j: int| 0 <= j < i ==> (#[trigger] address@[j]) != '@',
                Some(f) => f < i && address@[f as int] == '@' && forall|j: int|
                    0 <= j < f ==> (#[trigger] address@[j]) != '@',
            },
            duplicate_at == exists|a: int, b: int|
                0 <= a < b < i && (#[trigger] address@[a]) == '@' && (#[trigger] address@[b]) == '@',
        decreases n - i,
    {
        let c = address.get_char(i);
        assert(address@[i as int] == c);
        if c == ' ' || c == '\t' || c == '\n' {
            illegal = true;
        }
        if c == '@' {
            match first_at {
                None => {
                    first_at = Some(i);
                },
                Some(f) => {
                    assert(address@[f as int] == '@');
                    duplicate_at = true;
                },
            }
        }
        i += 1;
    }
    let format_ok: bool = match first_at {
        None => false,
        Some(f) => !duplicate_at && f > 0 && f + 1 < n,
    };
    proof {
        match first_at {
            None => {
                assert(!spec_email_format_ok(address@));
            },
            Some(f) => {
                let fi = f as int;
                if duplicate_at {
                    if spec_email_format_ok(address@) {
                        let w = choose|w: int|
                            0 < w < address@.len() - 1 && #[trigger] address@[w] == '@' && forall|
                                j: int,
                            | 0 <= j < address@.len() && j != w ==> address@[j] != '@';
                        let (a, b) = choose|a: int, b: int|
                            0 <= a < b < address@.len() && (#[trigger] address@[a]) == '@' && (
                            #[trigger] address@[b]) == '@';
                        assert(a != w || b != w);
                        assert(false);
                    }
                } else {
                    // the first `@` is the only one
                    assert forall|j: int|
                        0 <= j < address@.len() && j != fi implies address@[j] != '@' by {
                        if j > fi && address@[j] == '@' {
                            assert(address@[fi] == '@');
                        }
                    }
                    if 0 < fi < address@.len() - 1 {
                        assert(spec_email_format_ok(address@));
                    } else {
                        if spec_email_format_ok(address@) {
                            let w = choose|w: int|
                                0 < w < address@.len() - 1 && #[trigger] address@[w] == '@' && forall|
                                    j: int,
                                | 0 <= j < address@.len() && j != w ==> address@[j] != '@';
                            assert(w == fi);
                            assert(false);
                        }
                    }
                }
            },
        }
    }
    EmailErrors {
        too_short: n < 3,
        too_long: n > 255,
        illegal_char: illegal,
        invalid_format: !format_ok,
    }
}

/// The flags of a checked credential pair.
#[derive(Clone, Copy, PartialEq, Eq, Structural, Debug)]
pub struct CredentialsErrors {
    pub email: EmailErrors,
    pub password: PasswordErrors,
}

impl CredentialsErrors {
    pub open spec fn spec_is_valid(self) -> bool {
        self.email.spec_is_valid() && self.password.spec_is_valid()
    }

    pub fn is_valid(&self) -> (r: bool)
        ensures
            r == self.spec_is_valid(),
    {
        self.email.is_valid() && self.password.is_valid()
    }
}

/// Checks an email address and a password together.
pub fn credentials(email_addr: &str, password_text: &str) -> (r: CredentialsErrors)
    ensures
        r.email == spec_email_errors(email_addr@),
        r.password == spec_password_errors(password_text@),
{
    CredentialsErrors { email: email(email_addr), password: password(password_text) }
}

/// Whether an email lookup hit a row belonging to some other user: a hit
/// on the user's own row is no conflict, an update may keep the address.
pub fn email_taken_by_other(existing: Option<i64>, user_id: i64) -> (r: bool)
    ensures
        r == match existing {
            Some(owner) => owner != user_id,
            None => false,
        },
{
    match existing {
        Some(owner) => owner != user_id,
        None => false,
    }
}

} // verus!
