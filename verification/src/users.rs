//! What the API accepts for users, tasks and projects.

use vstd::prelude::*;
use vstd::string::StringExecFns;
use crate::text::char_count;

verus! {

/// The least length of a user name, a task name and a project name.
pub const MIN_NAME: usize = 4;

/// The least length of a password.
pub const MIN_PASSWORD: usize = 8;

/// The least and the greatest length of a project code.
pub const MIN_CODE: usize = 2;

pub const MAX_CODE: usize = 4;

/// A user as it is stored. Instants are seconds since the epoch.
#[derive(Debug, PartialEq, Eq)]
pub struct User {
    pub id: u128,
    pub username: String,
    pub role: String,
    pub email: Option<String>,
    /// The verifier of the password, never the password.
    pub password: String,
    pub created_at: i64,
    pub updated_at: i64,
}

/// A user to create.
#[derive(Debug, PartialEq, Eq)]
pub struct CreateUser {
    pub username: String,
    pub email: String,
    pub password: String,
}

/// A user to change.
#[derive(Debug, PartialEq, Eq)]
pub struct UpdateUser {
    pub username: String,
    pub email: String,
    pub role: String,
    pub password: String,
}

/// The rules that an input broke.
#[derive(Debug, Clone, Copy, PartialEq, Eq, Structural)]
pub struct Broken {
    pub username: bool,
    pub email: bool,
    pub password: bool,
}

/// Whether `validator`'s email rule accepts a text.
pub uninterp spec fn email_accepted(text: Seq<char>) -> bool;

/// Calls `validator::ValidateEmail::validate_email` on `text`. The rule
/// refuses a text without an `@`.
#[verifier::external_body]
fn accepts_email(text: &String) -> (accepted: bool)
    ensures
        accepted == email_accepted(text@),
        accepted ==> text@.contains('@'),
{
    validator::ValidateEmail::validate_email(text)
}

/// The broken rules in the order of the fields: the field and the code of its rule.
pub open spec fn broken_fields(broken: Broken) -> Seq<(Seq<char>, Seq<char>)> {
    (if broken.username {
        seq![("username"@, "length"@)]
    } else {
        Seq::empty()
    }) + (if broken.email {
        seq![("email"@, "email"@)]
    } else {
        Seq::empty()
    }) + (if broken.password {
        seq![("password"@, "length"@)]
    } else {
        Seq::empty()
    })
}

/// Whether the details name exactly these fields, each with its one code.
pub open spec fn details_match(
    details: Seq<(String, Vec<String>)>,
    fields: Seq<(Seq<char>, Seq<char>)>,
) -> bool {
    &&& details.len() == fields.len()
    &&& forall|i: int|
        0 <= i < details.len() ==> (#[trigger] details[i]).0@ == fields[i].0 && details[i].1@.len()
            == 1 && details[i].1@[0]@ == fields[i].1
}

/// The rules that a user input breaks.
pub open spec fn broken_rules(username: Seq<char>, email: Seq<char>, password: Seq<char>) -> Broken {
    Broken {
        username: username.len() < MIN_NAME,
        email: !email_accepted(email),
        password: password.len() < MIN_PASSWORD,
    }
}

/// The rules that a user input breaks, from what the email rule said.
pub fn check_user(username: &String, email_ok: bool, password: &String) -> (broken: Broken)
    ensures
        broken == (Broken {
            username: username@.len() < MIN_NAME,
            email: !email_ok,
            password: password@.len() < MIN_PASSWORD,
        }),
{
    Broken {
        username: char_count(username) < MIN_NAME,
        email: !email_ok,
        password: char_count(password) < MIN_PASSWORD,
    }
}

impl Broken {
    /// Whether no rule is broken.
    pub fn is_clean(&self) -> (clean: bool)
        ensures
            clean == (!self.username && !self.email && !self.password),
    {
        !self.username && !self.email && !self.password
    }

    /// The broken rules as details of an error: per field, the code of its rule.
    pub fn details(&self) -> (fields: Vec<(String, Vec<String>)>)
        ensures
            details_match(fields@, broken_fields(*self)),
            fields@.len() == 0 <==> (!self.username && !self.email && !self.password),
    {
        let mut fields: Vec<(String, Vec<String>)> = Vec::new();
        let ghost mut named: Seq<(Seq<char>, Seq<char>)> = Seq::empty();
        if self.username {
            let mut codes: Vec<String> = Vec::new();
            codes.push(String::from_str("length"));
            fields.push((String::from_str("username"), codes));
            proof {
                named = named.push(("username"@, "length"@));
            }
        }
        if self.email {
            let mut codes: Vec<String> = Vec::new();
            codes.push(String::from_str("email"));
            fields.push((String::from_str("email"), codes));
            proof {
                named = named.push(("email"@, "email"@));
            }
            assert(details_match(fields@, named));
        }
        assert(details_match(fields@, named));
        if self.password {
            let mut codes: Vec<String> = Vec::new();
            codes.push(String::from_str("length"));
            fields.push((String::from_str("password"), codes));
            proof {
                named = named.push(("password"@, "length"@));
            }
        }
        assert(named =~= broken_fields(*self));
        fields
    }
}

impl CreateUser {
    /// The rules that the input breaks: a user name has four characters or
    /// more, a password eight, and the email has the shape of one.
    pub fn validate(&self) -> (broken: Broken)
        ensures
            broken == broken_rules(self.username@, self.email@, self.password@),
            !broken.email ==> self.email@.contains('@'),
    {
        check_user(&self.username, accepts_email(&self.email), &self.password)
    }
}

impl UpdateUser {
    /// The rules that the input breaks, as for a user to create.
    pub fn validate(&self) -> (broken: Broken)
        ensures
            broken == broken_rules(self.username@, self.email@, self.password@),
            !broken.email ==> self.email@.contains('@'),
    {
        check_user(&self.username, accepts_email(&self.email), &self.password)
    }
}

/// Whether a task or a project may have this name.
pub fn name_is_long_enough(name: &String) -> (ok: bool)
    ensures
        ok == (name@.len() >= MIN_NAME),
{
    char_count(name) >= MIN_NAME
}

/// Whether a project may have this code.
pub fn code_fits(code: &String) -> (ok: bool)
    ensures
        ok == (MIN_CODE <= code@.len() <= MAX_CODE),
{
    let n = char_count(code);
    MIN_CODE <= n && n <= MAX_CODE
}

/// Whether a login may be tried with these: a user name of four characters
/// or more and a password that is not empty.
pub fn login_is_well_formed(username: &String, password: &String) -> (ok: bool)
    ensures
        ok == (username@.len() >= MIN_NAME && password@.len() >= 1),
{
    char_count(username) >= MIN_NAME && char_count(password) >= 1
}

} // verus!
