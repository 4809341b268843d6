//! Signing in: finding an account by its login name, checking the password
//! against the stored hash, and binding the session to the account and its
//! role's grants.
use argon2::password_hash::PasswordVerifier;
use vstd::prelude::*;

use crate::access::{texts, AppState};
use crate::text::{lower_of, same_text, to_lower_text, trim_of, trim_text};

verus! {

/// Fewest bytes in a password.
pub const MIN_PASSWORD_LEN: usize = 4;

/// An account as stored.
#[derive(Debug, Clone)]
pub struct UserAccount {
    pub id: String,
    pub username: String,
    pub display_name: String,
    pub role_id: String,
    pub password_hash: String,
    pub created_at: String,
    pub hidden: bool,
}

/// Why signing in, or an account change, was turned down.
#[derive(Debug, Clone, Copy, PartialEq, Eq, Structural)]
pub enum AuthError {
    /// The login name is empty once trimmed.
    UsernameRequired,
    /// No account has that name, or the password does not match.
    InvalidCredentials,
    /// The password is shorter than allowed.
    PasswordTooShort,
}

/// Whether a password matches a stored hash in PHC string form.
pub uninterp spec fn password_matches(password: Seq<char>, hash: Seq<char>) -> bool;

/// Relies on `argon2::Argon2::verify_password` after
/// `password_hash::PasswordHash::new`: the password, hashed with the salt and
/// parameters the stored string carries, gives the stored output; a string
/// that does not parse matches nothing.
#[verifier::external_body]
fn verify_password(password: &str, hash: &str) -> (r: bool)
    ensures
        r == password_matches(password@, hash@),
{
    match argon2::password_hash::PasswordHash::new(hash) {
        Ok(parsed) => argon2::Argon2::default().verify_password(password.as_bytes(), &parsed).is_ok(),
        Err(_) => false,
    }
}

/// The form of a login name under which accounts are matched: trimmed and
/// lower-cased.
pub open spec fn login_key(name: Seq<char>) -> Seq<char> {
    lower_of(trim_of(name))
}

/// Whether `i` is the first account whose name matches `key`.
pub open spec fn first_account(accounts: Seq<UserAccount>, key: Seq<char>, i: int) -> bool {
    &&& 0 <= i < accounts.len()
    &&& login_key(accounts[i].username@) == key
    &&& forall|k: int| 0 <= k < i ==> login_key(#[trigger] accounts[k].username@) != key
}

/// Whether some account's name matches `key`.
pub open spec fn has_account(accounts: Seq<UserAccount>, key: Seq<char>) -> bool {
    exists|i: int| 0 <= i < accounts.len() && login_key(#[trigger] accounts[i].username@) == key
}

/// Finds the account that a login name denotes, ignoring surrounding space
/// and case: the first whose name matches.
pub fn find_account(accounts: &Vec<UserAccount>, username: &str) -> (r: Result<usize, AuthError>)
    ensures
        trim_of(username@).len() == 0 <==> r == Err::<usize, AuthError>(AuthError::UsernameRequired),
        trim_of(username@).len() > 0 && !has_account(accounts@, login_key(username@)) <==> r == Err::<
            usize,
            AuthError,
        >(AuthError::InvalidCredentials),
        r matches Ok(i) ==> first_account(accounts@, login_key(username@), i as int),
        r != Err::<usize, AuthError>(AuthError::PasswordTooShort),
{
    let name = trim_text(username);
    if name.unicode_len() == 0 {
        return Err(AuthError::UsernameRequired);
    }
    let key = to_lower_text(name);
    let mut i: usize = 0;
    while i < accounts.len()
        invariant
            i <= accounts@.len(),
            key@ == login_key(username@),
            trim_of(username@).len() > 0,
            forall|k: int| 0 <= k < i ==> login_key(#[trigger] accounts@[k].username@) != key@,
        decreases accounts@.len() - i,
    {
        let stored = to_lower_text(trim_text(accounts[i].username.as_str()));
        if same_text(stored.as_str(), key.as_str()) {
            return Ok(i);
        }
        i = i + 1;
    }
    Err(AuthError::InvalidCredentials)
}

/// Signs in with a login name and a password: the account that the name
/// denotes, when its stored hash matches the password.
pub fn authenticate(accounts: &Vec<UserAccount>, username: &str, password: &str) -> (r: Result<usize, AuthError>)
    ensures
        trim_of(username@).len() == 0 <==> r == Err::<usize, AuthError>(AuthError::UsernameRequired),
        trim_of(username@).len() > 0 && !has_account(accounts@, login_key(username@)) ==> r == Err::<
            usize,
            AuthError,
        >(AuthError::InvalidCredentials),
        r matches Ok(i) ==> first_account(accounts@, login_key(username@), i as int) && password_matches(
            password@,
            accounts@[i as int].password_hash@,
        ),
        trim_of(username@).len() > 0 && has_account(accounts@, login_key(username@)) ==> (r is Ok <==> exists|i: int|
            first_account(accounts@, login_key(username@), i) && password_matches(
                password@,
                #[trigger] accounts@[i].password_hash@,
            )),
        r != Err::<usize, AuthError>(AuthError::PasswordTooShort),
{
    let i = match find_account(accounts, username) {
        Ok(i) => i,
        Err(e) => return Err(e),
    };
    proof {
        assert forall|j: int| first_account(accounts@, login_key(username@), j) implies j == i by {
            if j < i {
                assert(login_key(accounts@[j].username@) != login_key(username@));
            } else if j > i {
                assert(login_key(accounts@[i as int].username@) != login_key(username@));
            }
        }
    }
    if verify_password(password, accounts[i].password_hash.as_str()) {
        Ok(i)
    } else {
        Err(AuthError::InvalidCredentials)
    }
}

/// Checks a new password: at least four bytes.
pub fn validate_new_password(password: &str) -> (r: Result<(), AuthError>)
    ensures
        r is Ok <==> vstd::utf8::encode_utf8(password@).len() >= MIN_PASSWORD_LEN,
        r is Err ==> r == Err::<(), AuthError>(AuthError::PasswordTooShort),
{
    if password.as_bytes().len() < MIN_PASSWORD_LEN {
        Err(AuthError::PasswordTooShort)
    } else {
        Ok(())
    }
}

impl AppState {
    /// Binds the session to a signed-in account and its role's grants.
    pub fn sign_in(&mut self, user_id: String, perms: Vec<String>)
        ensures
            final(self).current_user_id == Some(user_id),
            crate::access::grants_of(final(self).user_permissions@, user_id@) == texts(perms@),
            forall|p: Seq<char>| #[trigger] final(self).allows(p) <==> texts(perms@).contains(p),
    {
        let ghost uid = user_id@;
        self.set_current_user(Some(user_id));
        self.set_current_user_permissions(perms);
    }

    /// Ends the session: nobody is signed in.
    pub fn sign_out(&mut self)
        ensures
            final(self).current_user_id is None,
            forall|p: Seq<char>| !#[trigger] final(self).allows(p),
    {
        self.set_current_user(None);
    }
}

} // verus!
