use vstd::prelude::*;
use crate::errors::AppError;

verus! {

/// Whether a password verifies against a PHC-encoded salted hash. The check
/// is the hash algorithm's own; only this name ties the two strings together.
pub uninterp spec fn password_matches(password: Seq<char>, hash: Seq<char>) -> bool;

/// Relies on password_auth::verify_password: whether a password verifies
/// against a hash string depends on the two strings alone.
#[verifier::external_body]
fn verify_password(password: &String, hash: &String) -> (r: bool)
    ensures
        r == password_matches(password@, hash@),
{
    password_auth::verify_password(password.as_str(), hash.as_str()).is_ok()
}

/// Relies on password_auth::generate_hash: every hash it draws for a password
/// (the salt is fresh each call) verifies against that password. The hasher
/// refuses absurdly long inputs, so those stay out.
#[verifier::external_body]
fn generate_hash(password: &String) -> (r: String)
    requires
        password@.len() < 1000000000,
    ensures
        password_matches(password@, r@),
{
    password_auth::generate_hash(password.as_str())
}

/// A stored user row: identity, login email, salted password hash, and the
/// audit fields the table carries without this core reading them.
pub struct User {
    pub id: i32,
    pub email: String,
    pub password: String,
    pub reset_password_token: Option<String>,
    pub reset_password_sent_at: Option<i64>,
    pub sign_in_count: i32,
    pub current_sign_in_at: Option<i64>,
    pub last_sign_in_at: Option<i64>,
    pub current_sign_in_ip: Option<String>,
    pub last_sign_in_ip: Option<String>,
    pub confirmation_token: Option<String>,
    pub confirmation_sent_at: Option<i64>,
    pub confirmed_at: Option<i64>,
    pub created_at: i64,
    pub updated_at: i64,
}

/// The abstract value of a user row.
pub ghost struct UserV {
    pub id: int,
    pub email: Seq<char>,
    pub password: Seq<char>,
    pub reset_password_token: Option<Seq<char>>,
    pub reset_password_sent_at: Option<i64>,
    pub sign_in_count: int,
    pub current_sign_in_at: Option<i64>,
    pub last_sign_in_at: Option<i64>,
    pub current_sign_in_ip: Option<Seq<char>>,
    pub last_sign_in_ip: Option<Seq<char>>,
    pub confirmation_token: Option<Seq<char>>,
    pub confirmation_sent_at: Option<i64>,
    pub confirmed_at: Option<i64>,
    pub created_at: i64,
    pub updated_at: i64,
}

impl View for User {
    type V = UserV;

    open spec fn view(&self) -> UserV {
        UserV {
            id: self.id as int,
            email: self.email@,
            password: self.password@,
            reset_password_token: self.reset_password_token.deep_view(),
            reset_password_sent_at: self.reset_password_sent_at,
            sign_in_count: self.sign_in_count as int,
            current_sign_in_at: self.current_sign_in_at,
            last_sign_in_at: self.last_sign_in_at,
            current_sign_in_ip: self.current_sign_in_ip.deep_view(),
            last_sign_in_ip: self.last_sign_in_ip.deep_view(),
            confirmation_token: self.confirmation_token.deep_view(),
            confirmation_sent_at: self.confirmation_sent_at,
            confirmed_at: self.confirmed_at,
            created_at: self.created_at,
            updated_at: self.updated_at,
        }
    }
}

/// A copy of an optional string with the same text.
fn clone_opt_string(v: &Option<String>) -> (r: Option<String>)
    ensures
        r.deep_view() == v.deep_view(),
{
    match v {
        Some(s) => Some(s.clone()),
        None => None,
    }
}

impl Clone for User {
    /// A clone denotes the same row.
    fn clone(&self) -> (r: Self)
        ensures
            r@ == self@,
    {
        User {
            id: self.id,
            email: self.email.clone(),
            password: self.password.clone(),
            reset_password_token: clone_opt_string(&self.reset_password_token),
            reset_password_sent_at: self.reset_password_sent_at,
            sign_in_count: self.sign_in_count,
            current_sign_in_at: self.current_sign_in_at,
            last_sign_in_at: self.last_sign_in_at,
            current_sign_in_ip: clone_opt_string(&self.current_sign_in_ip),
            last_sign_in_ip: clone_opt_string(&self.last_sign_in_ip),
            confirmation_token: clone_opt_string(&self.confirmation_token),
            confirmation_sent_at: self.confirmation_sent_at,
            confirmed_at: self.confirmed_at,
            created_at: self.created_at,
            updated_at: self.updated_at,
        }
    }
}

/// A user row to be inserted: the login email and the already-hashed
/// password.
pub struct NewUser {
    pub email: String,
    pub password: String,
}

impl NewUser {
    /// Prepare a row for a plain password: the stored credential is its
    /// salted hash, which verifies against the password it was drawn for.
    pub fn hashed(email: String, password: &String) -> (r: NewUser)
        requires
            password@.len() < 1000000000,
        ensures
            r.email@ == email@,
            password_matches(password@, r.password@),
    {
        let password = generate_hash(password);
        NewUser { email, password }
    }

    /// The full row this insert produces once the table assigns it an id;
    /// the audit fields start empty.
    pub fn into_user(self, id: i32) -> (r: User)
        ensures
            r.id == id,
            r.email@ == self.email@,
            r.password@ == self.password@,
            r.reset_password_token is None,
            r.reset_password_sent_at is None,
            r.sign_in_count == 0,
            r.current_sign_in_at is None,
            r.last_sign_in_at is None,
            r.current_sign_in_ip is None,
            r.last_sign_in_ip is None,
            r.confirmation_token is None,
            r.confirmation_sent_at is None,
            r.confirmed_at is None,
            r.created_at == 0,
            r.updated_at == 0,
    {
        User {
            id,
            email: self.email,
            password: self.password,
            reset_password_token: None,
            reset_password_sent_at: None,
            sign_in_count: 0,
            current_sign_in_at: None,
            last_sign_in_at: None,
            current_sign_in_ip: None,
            last_sign_in_ip: None,
            confirmation_token: None,
            confirmation_sent_at: None,
            confirmed_at: None,
            created_at: 0,
            updated_at: 0,
        }
    }
}

/// What a login request carries.
#[derive(Debug)]
pub struct Credentials {
    pub email: String,
    pub password: String,
    pub next: Option<String>,
}

impl Clone for Credentials {
    /// A clone carries the same request.
    fn clone(&self) -> (r: Self)
        ensures
            r.email@ == self.email@,
            r.password@ == self.password@,
            r.next.deep_view() == self.next.deep_view(),
    {
        Credentials {
            email: self.email.clone(),
            password: self.password.clone(),
            next: clone_opt_string(&self.next),
        }
    }
}

/// The authentication backend, modeled as the user table it reads. A row is
/// only ever read here; provisioning happens elsewhere.
pub struct Backend {
    users: Vec<User>,
}

impl Backend {
    /// The rows of the user table.
    pub closed spec fn users_seq(self) -> Seq<User> {
        self.users@
    }

    /// Well-formed: emails and ids are unique, as the table's constraints
    /// guarantee.
    pub open spec fn wf(self) -> bool {
        &&& forall|i: int, j: int|
            0 <= i < j < self.users_seq().len() ==> self.users_seq()[i].email@
                != self.users_seq()[j].email@
        &&& forall|i: int, j: int|
            0 <= i < j < self.users_seq().len() ==> self.users_seq()[i].id
                != self.users_seq()[j].id
    }

    /// A backend over the given rows; the caller vouches for the table's
    /// uniqueness constraints.
    pub fn new(users: Vec<User>) -> (r: Backend)
        requires
            forall|i: int, j: int|
                0 <= i < j < users@.len() ==> users@[i].email@ != users@[j].email@,
            forall|i: int, j: int| 0 <= i < j < users@.len() ==> users@[i].id != users@[j].id,
        ensures
            r.wf(),
            r.users_seq() == users@,
    {
        Backend { users }
    }

    /// Look the user up by exact email and verify the password off the
    /// request path. The user comes back only when both steps succeed; a
    /// wrong password and an unknown email are the same empty result, and
    /// neither is an error.
    pub fn authenticate(&self, credentials: &Credentials) -> (r: Result<Option<User>, AppError>)
        requires
            self.wf(),
        ensures
            r matches Ok(_),
            match r {
                Ok(o) => match o {
                    Some(u) => exists|i: int|
                        #![trigger self.users_seq()[i]]
                        0 <= i < self.users_seq().len() && self.users_seq()[i].email@
                            == credentials.email@ && password_matches(
                            credentials.password@,
                            self.users_seq()[i].password@,
                        ) && u@ == self.users_seq()[i]@,
                    None => forall|i: int|
                        #![trigger self.users_seq()[i]]
                        0 <= i < self.users_seq().len() && self.users_seq()[i].email@
                            == credentials.email@ ==> !password_matches(
                            credentials.password@,
                            self.users_seq()[i].password@,
                        ),
                },
                Err(_) => false,
            },
    {
        let n = self.users.len();
        let mut i: usize = 0;
        while i < n
            invariant
                n == self.users@.len(),
                i <= n,
                self.wf(),
                forall|j: int|
                    #![trigger self.users_seq()[j]]
                    0 <= j < i ==> self.users_seq()[j].email@ != credentials.email@,
            decreases n - i,
        {
            if self.users[i].email == credentials.email {
                let ok = verify_password(&credentials.password, &self.users[i].password);
                if ok {
                    let u = self.users[i].clone();
                    proof {
                        assert(self.users_seq()[i as int].email@ == credentials.email@
                            && password_matches(
                            credentials.password@,
                            self.users_seq()[i as int].password@,
                        ) && u@ == self.users_seq()[i as int]@);
                    }
                    return Ok(Some(u));
                } else {
                    proof {
                        assert forall|j: int|
                            #![trigger self.users_seq()[j]]
                            0 <= j < self.users_seq().len() && self.users_seq()[j].email@
                                == credentials.email@ implies !password_matches(
                            credentials.password@,
                            self.users_seq()[j].password@,
                        ) by {
                            if j < i as int {
                            } else if j > i as int {
                                assert(self.users_seq()[i as int].email@
                                    != self.users_seq()[j].email@);
                            }
                        }
                    }
                    return Ok(None);
                }
            }
            i += 1;
        }
        Ok(None)
    }

    /// Look exactly one user up by identifier; an unknown id is the empty
    /// result, not an error.
    pub fn get_user(&self, user_id: i32) -> (r: Result<Option<User>, AppError>)
        requires
            self.wf(),
        ensures
            r matches Ok(_),
            match r {
                Ok(o) => match o {
                    Some(u) => exists|i: int|
                        #![trigger self.users_seq()[i]]
                        0 <= i < self.users_seq().len() && self.users_seq()[i].id == user_id && u@
                            == self.users_seq()[i]@,
                    None => forall|i: int|
                        #![trigger self.users_seq()[i]]
                        0 <= i < self.users_seq().len() ==> self.users_seq()[i].id != user_id,
                },
                Err(_) => false,
            },
    {
        let n = self.users.len();
        let mut i: usize = 0;
        while i < n
            invariant
                n == self.users@.len(),
                i <= n,
                forall|j: int| #![trigger self.users_seq()[j]]
                    0 <= j < i ==> self.users_seq()[j].id != user_id,
            decreases n - i,
        {
            if self.users[i].id == user_id {
                let u = self.users[i].clone();
                proof {
                    assert(self.users_seq()[i as int].id == user_id && u@ == self.users_seq()[
                        i as int
                    ]@);
                }
                return Ok(Some(u));
            }
            i += 1;
        }
        Ok(None)
    }
}

} // verus!
