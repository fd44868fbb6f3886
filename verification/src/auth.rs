//! The credential store: identities with one-way-hashed secrets and roles.
//!
//! Secrets are never stored or compared in the clear: adding an identity
//! hashes its secret through bcrypt, and authentication verifies a candidate
//! secret against the stored digest.  Authentication failures are reported
//! with one generic message whether the login exists or not, so callers
//! cannot enumerate logins.

use vstd::prelude::*;
use vstd::string::StringExecFns;
use crate::text::str_eq;

verus! {

/// Roles an identity can carry.
#[derive(Debug, Clone, Copy, PartialEq, Eq, Structural)]
pub enum UserRole {
    Admin,
    Operator,
}

/// A stored identity: a unique login, the bcrypt digest of its secret,
/// and its role.
#[derive(Debug, PartialEq)]
pub struct User {
    pub login: String,
    pub password_hash: String,
    pub role: UserRole,
}

impl Clone for User {
    fn clone(&self) -> (r: Self)
        ensures
            r == *self,
    {
        User {
            login: self.login.clone(),
            password_hash: self.password_hash.clone(),
            role: self.role,
        }
    }
}

/// Specification-level picture of an identity.
pub struct UserV {
    pub login: Seq<char>,
    pub password_hash: Seq<char>,
    pub role: UserRole,
}

impl View for User {
    type V = UserV;

    open spec fn view(&self) -> UserV {
        UserV { login: self.login@, password_hash: self.password_hash@, role: self.role }
    }
}

/// A login attempt: the claimed login and the candidate secret in the clear.
#[derive(Debug)]
pub struct LoginRequest {
    pub login: String,
    pub password: String,
}

/// The answer to a login attempt.  On success `user` carries a copy of the
/// identity with its digest stripped; on failure the message is generic.
#[derive(Debug)]
pub struct LoginResponse {
    pub success: bool,
    pub user: Option<User>,
    pub message: String,
}

/// The outcome bcrypt's `verify` computes for a secret and a stored digest:
/// `Some(true)` when the secret matches the digest, `Some(false)` when it
/// does not, and `None` when the digest does not parse as a bcrypt hash.
/// The outcome is a function of the secret and the digest alone.
pub uninterp spec fn bcrypt_check(secret: Seq<char>, digest: Seq<char>) -> Option<bool>;

/// Relies on `bcrypt::hash`: hashing draws a fresh random salt (so nothing is
/// said about the digest's value), but whatever digest comes back,
/// `bcrypt::verify` accepts the hashed secret against it, because `verify`
/// re-derives the digest from that same salt, cost and secret.
#[verifier::external_body]
fn bcrypt_hash_default(secret: &str) -> (r: Option<String>)
    ensures
        r matches Some(h) ==> bcrypt_check(secret@, h@) == Some(true),
{
    bcrypt::hash(secret, bcrypt::DEFAULT_COST).ok()
}

/// Relies on `bcrypt::verify`: its outcome is deterministic in the secret and
/// the digest (the salt and cost are read back out of the digest itself); a
/// digest that does not parse makes it fail, collapsed here into `None`.
#[verifier::external_body]
fn bcrypt_verify(secret: &str, digest: &str) -> (r: Option<bool>)
    ensures
        r == bcrypt_check(secret@, digest@),
{
    bcrypt::verify(secret, digest).ok()
}

/// Whether some stored identity carries this login.
pub open spec fn contains_login(users: Seq<UserV>, login: Seq<char>) -> bool {
    exists|i: int| 0 <= i < users.len() && users[i].login == login
}

/// An index of the identity carrying this login (the only one, once logins
/// are distinct).
pub open spec fn login_index(users: Seq<UserV>, login: Seq<char>) -> int {
    choose|i: int| 0 <= i < users.len() && users[i].login == login
}

/// The stored identity carrying this login.
pub open spec fn user_for(users: Seq<UserV>, login: Seq<char>) -> UserV {
    users[login_index(users, login)]
}

/// No two stored identities share a login.
pub open spec fn distinct_logins(users: Seq<UserV>) -> bool {
    forall|i: int, j: int|
        0 <= i < j < users.len() ==> users[i].login != users[j].login
}

/// Whether this login and secret authenticate against the store: the login
/// is present and bcrypt accepts the secret against its stored digest.
pub open spec fn auth_ok(users: Seq<UserV>, login: Seq<char>, password: Seq<char>) -> bool {
    &&& contains_login(users, login)
    &&& bcrypt_check(password, user_for(users, login).password_hash) == Some(true)
}

/// Law: an identity just added under a fresh login, with a digest bcrypt
/// accepts its secret against, authenticates with that secret, and the
/// outcome carries its login and role.
pub proof fn lemma_added_identity_authenticates(
    users: Seq<UserV>,
    login: Seq<char>,
    password: Seq<char>,
    digest: Seq<char>,
    role: UserRole,
)
    ensures
        (!contains_login(users, login) && bcrypt_check(password, digest) == Some(true))
            ==> ({
            let grown = users.push(UserV { login, password_hash: digest, role });
            &&& auth_ok(grown, login, password)
            &&& user_for(grown, login).login == login
            &&& user_for(grown, login).role == role
        }),
{
    if !contains_login(users, login) && bcrypt_check(password, digest) == Some(true) {
        let grown = users.push(UserV { login, password_hash: digest, role });
        assert(grown[users.len() as int].login == login);
        assert(contains_login(grown, login));
        let i = login_index(grown, login);
        assert(0 <= i < grown.len() && grown[i].login == login);
        if i < users.len() {
            assert(users[i].login == login);
            assert(contains_login(users, login));
        }
        assert(grown[i] == grown[users.len() as int]);
    }
}

/// The credential store.  Its one invariant: logins are distinct.
pub struct AuthManager {
    users: Vec<User>,
}

impl View for AuthManager {
    type V = Seq<UserV>;

    closed spec fn view(&self) -> Seq<UserV> {
        self.users@.map_values(|u: User| u@)
    }
}

impl AuthManager {
    /// The store's invariant: no two identities share a login.
    pub open spec fn wf(&self) -> bool {
        distinct_logins(self@)
    }

    /// A store holding the seed identities: the primary administrator
    /// "admin" and the operator "operator1".  A seed whose secret fails to
    /// hash is omitted; nothing else is ever present.
    pub fn new() -> (r: Self)
        ensures
            r.wf(),
            r@.len() <= 2,
            forall|i: int|
                0 <= i < r@.len() ==> (r@[i].login == "admin"@ && r@[i].role == UserRole::Admin
                    && bcrypt_check("admin123"@, r@[i].password_hash) == Some(true)) || (r@[i].login
                    == "operator1"@ && r@[i].role == UserRole::Operator && bcrypt_check(
                    "operator123"@,
                    r@[i].password_hash,
                ) == Some(true)),
    {
        let mut manager = Self { users: Vec::new() };
        manager.add_default_users();
        manager
    }

    /// Seeds the two built-in identities, skipping any whose secret
    /// fails to hash.
    fn add_default_users(&mut self)
        requires
            old(self)@.len() == 0,
        ensures
            final(self).wf(),
            final(self)@.len() <= 2,
            forall|i: int|
                0 <= i < final(self)@.len() ==> (final(self)@[i].login == "admin"@ && final(self)@[i].role == UserRole::Admin && bcrypt_check(
                    "admin123"@,
                    final(self)@[i].password_hash,
                ) == Some(true)) || (final(self)@[i].login == "operator1"@ && final(self)@[i].role
                    == UserRole::Operator && bcrypt_check(
                    "operator123"@,
                    final(self)@[i].password_hash,
                ) == Some(true)),
    {
        proof {
            reveal_strlit("admin");
            reveal_strlit("operator1");
        }
        if let Some(admin_hash) = bcrypt_hash_default("admin123") {
            let admin = User {
                login: String::from_str("admin"),
                password_hash: admin_hash,
                role: UserRole::Admin,
            };
            let ghost before = self@;
            let ghost av = admin@;
            self.users.push(admin);
            proof {
                assert(self@ =~= before.push(av));
            }
        }
        let ghost mid = self@;
        if let Some(operator_hash) = bcrypt_hash_default("operator123") {
            let operator = User {
                login: String::from_str("operator1"),
                password_hash: operator_hash,
                role: UserRole::Operator,
            };
            let ghost ov = operator@;
            self.users.push(operator);
            proof {
                assert(self@ =~= mid.push(ov));
            }
        }
        proof {
            assert("admin"@ != "operator1"@) by {
                assert("admin"@.len() != "operator1"@.len());
            }
        }
    }

    /// The index of the identity carrying `login`, if any.
    fn find_user(&self, login: &str) -> (r: Option<usize>)
        ensures
            match r {
                Some(i) => i < self@.len() && self@[i as int].login == login@ && contains_login(
                    self@,
                    login@,
                ),
                None => !contains_login(self@, login@),
            },
    {
        let mut i: usize = 0;
        while i < self.users.len()
            invariant
                i <= self@.len(),
                self@.len() == self.users@.len(),
                forall|j: int| 0 <= j < i ==> self@[j].login != login@,
            decreases self@.len() - i,
        {
            if str_eq(self.users[i].login.as_str(), login) {
                return Some(i);
            }
            i = i + 1;
        }
        None
    }

    /// Adds a new identity under a fresh login, hashing its secret.
    /// Fails when the login is taken or when hashing fails; the store is
    /// unchanged on every failure.
    pub fn add_user(&mut self, login: String, password: String, role: UserRole) -> (r: Result<
        (),
        String,
    >)
        requires
            old(self).wf(),
        ensures
            final(self).wf(),
            contains_login(old(self)@, login@) ==> (r matches Err(m) && m@
                == "identity already exists"@ && final(self)@ == old(self)@),
            !contains_login(old(self)@, login@) ==> match r {
                Ok(()) => exists|d: Seq<char>|
                    #[trigger] bcrypt_check(password@, d) == Some(true) && final(self)@ == old(self)@.push(UserV { login: login@, password_hash: d, role }),
                Err(m) => m@ == "password hashing failed"@ && final(self)@ == old(self)@,
            },
    {
        if self.find_user(login.as_str()).is_some() {
            return Err(String::from_str("identity already exists"));
        }
        match bcrypt_hash_default(password.as_str()) {
            Some(password_hash) => {
                let user = User { login, password_hash, role };
                self.users.push(user);
                proof {
                    assert(self@ =~= old(self)@.push(user@));
                    assert(forall|i: int|
                        0 <= i < old(self)@.len() ==> old(self)@[i] == self@[i]);
                }
                Ok(())
            },
            None => Err(String::from_str("password hashing failed")),
        }
    }

    /// Answers a login attempt.  Success exactly when the login is stored and
    /// bcrypt accepts the secret against its digest; the returned identity
    /// has its digest stripped.  Every failure carries the same generic
    /// message, so callers cannot tell an unknown login from a wrong secret.
    pub fn authenticate(&self, request: &LoginRequest) -> (r: LoginResponse)
        requires
            self.wf(),
        ensures
            r.success == auth_ok(self@, request.login@, request.password@),
            r.success ==> (r.user matches Some(u) && u.login@ == request.login@ && u.role
                == user_for(self@, request.login@).role && u.password_hash@ == Seq::<
                char,
            >::empty()),
            !r.success ==> r.user is None && r.message@ == "authentication failed"@,
            r.success ==> r.message@ == "authentication successful"@,
    {
        match self.find_user(request.login.as_str()) {
            Some(i) => {
                proof {
                    assert(login_index(self@, request.login@) == i as int) by {
                        let j = login_index(self@, request.login@);
                        assert(0 <= j < self@.len() && self@[j].login == request.login@);
                    }
                }
                let user = &self.users[i];
                match bcrypt_verify(request.password.as_str(), user.password_hash.as_str()) {
                    Some(true) => LoginResponse {
                        success: true,
                        user: Some(
                            User {
                                login: user.login.clone(),
                                password_hash: String::new(),
                                role: user.role,
                            },
                        ),
                        message: String::from_str("authentication successful"),
                    },
                    _ => LoginResponse {
                        success: false,
                        user: None,
                        message: String::from_str("authentication failed"),
                    },
                }
            },
            None => LoginResponse {
                success: false,
                user: None,
                message: String::from_str("authentication failed"),
            },
        }
    }

    /// The stored identity carrying `login`, if any.
    pub fn get_user(&self, login: &str) -> (r: Option<&User>)
        requires
            self.wf(),
        ensures
            match r {
                Some(u) => contains_login(self@, login@) && u@ == user_for(self@, login@),
                None => !contains_login(self@, login@),
            },
    {
        match self.find_user(login) {
            Some(i) => {
                proof {
                    let j = login_index(self@, login@);
                    assert(0 <= j < self@.len() && self@[j].login == login@);
                    assert(j == i as int);
                }
                Some(&self.users[i])
            },
            None => None,
        }
    }

    /// Whether `login` names a stored administrator.  False for unknown
    /// logins; never an error.
    pub fn is_admin(&self, login: &str) -> (r: bool)
        requires
            self.wf(),
        ensures
            r == (contains_login(self@, login@) && user_for(self@, login@).role
                == UserRole::Admin),
    {
        match self.get_user(login) {
            Some(user) => user.role == UserRole::Admin,
            None => false,
        }
    }

    /// All stored identities.
    pub fn get_all_users(&self) -> (r: Vec<&User>)
        ensures
            r@.len() == self@.len(),
            forall|i: int| 0 <= i < r@.len() ==> r@[i]@ == self@[i],
    {
        let mut out: Vec<&User> = Vec::new();
        let mut i: usize = 0;
        while i < self.users.len()
            invariant
                i <= self.users@.len(),
                self@.len() == self.users@.len(),
                out@.len() == i,
                forall|j: int| 0 <= j < i ==> out@[j]@ == self@[j],
            decreases self.users@.len() - i,
        {
            out.push(&self.users[i]);
            i = i + 1;
        }
        out
    }

    /// Removes the identity carrying `login`.  The primary administrator
    /// "admin" is protected and can never be removed, whatever the store
    /// holds; an unknown login is an error.  The store is unchanged on
    /// every failure.
    pub fn remove_user(&mut self, login: &str) -> (r: Result<(), String>)
        requires
            old(self).wf(),
        ensures
            final(self).wf(),
            login@ == "admin"@ ==> (r matches Err(m) && m@
                == "the primary administrator cannot be removed"@ && final(self)@ == old(self)@),
            login@ != "admin"@ && !contains_login(old(self)@, login@) ==> (r matches Err(m) && m@
                == "identity not found"@ && final(self)@ == old(self)@),
            login@ != "admin"@ && contains_login(old(self)@, login@) ==> (r matches Ok(())
                && exists|i: int|
                0 <= i < old(self)@.len() && #[trigger] old(self)@[i].login == login@ && final(self)@ == old(self)@.remove(i)),
    {
        if str_eq(login, "admin") {
            return Err(String::from_str("the primary administrator cannot be removed"));
        }
        match self.find_user(login) {
            Some(i) => {
                let ghost gi = i as int;
                self.users.remove(i);
                proof {
                    assert(self@ =~= old(self)@.remove(gi));
                }
                Ok(())
            },
            None => Err(String::from_str("identity not found")),
        }
    }

    /// Replaces the digest of `login` with a hash of `new_password`, once
    /// `old_password` verifies against the stored digest.  The swap is a
    /// single field replacement: at no point does the identity hold neither
    /// the old nor the new digest.  The store is unchanged on every failure.
    pub fn change_password(&mut self, login: &str, old_password: &str, new_password: &str) -> (r:
        Result<(), String>)
        requires
            old(self).wf(),
        ensures
            final(self).wf(),
            !contains_login(old(self)@, login@) ==> (r matches Err(m) && m@
                == "identity not found"@ && final(self)@ == old(self)@),
            contains_login(old(self)@, login@) && bcrypt_check(
                old_password@,
                user_for(old(self)@, login@).password_hash,
            ) != Some(true) ==> (r matches Err(m) && m@ == "invalid current password"@ && final(self)@ == old(self)@),
            contains_login(old(self)@, login@) && bcrypt_check(
                old_password@,
                user_for(old(self)@, login@).password_hash,
            ) == Some(true) ==> match r {
                Ok(()) => exists|d: Seq<char>|
                    #[trigger] bcrypt_check(new_password@, d) == Some(true) && final(self)@ == old(self)@.update(
                        login_index(old(self)@, login@),
                        UserV {
                            login: login@,
                            password_hash: d,
                            role: user_for(old(self)@, login@).role,
                        },
                    ),
                Err(m) => m@ == "password hashing failed"@ && final(self)@ == old(self)@,
            },
    {
        let i = match self.find_user(login) {
            Some(i) => i,
            None => {
                return Err(String::from_str("identity not found"));
            },
        };
        proof {
            let j = login_index(self@, login@);
            assert(0 <= j < self@.len() && self@[j].login == login@);
            assert(j == i as int);
        }
        let verified = match bcrypt_verify(old_password, self.users[i].password_hash.as_str()) {
            Some(true) => true,
            _ => false,
        };
        if !verified {
            return Err(String::from_str("invalid current password"));
        }
        match bcrypt_hash_default(new_password) {
            Some(new_hash) => {
                let ghost d = new_hash@;
                self.users[i].password_hash = new_hash;
                proof {
                    assert(self@ =~= old(self)@.update(
                        i as int,
                        UserV {
                            login: login@,
                            password_hash: d,
                            role: user_for(old(self)@, login@).role,
                        },
                    ));
                }
                Ok(())
            },
            None => Err(String::from_str("password hashing failed")),
        }
    }
}

impl Default for AuthManager {
    fn default() -> (r: Self)
        ensures
            r.wf(),
            r@.len() <= 2,
            forall|i: int|
                0 <= i < r@.len() ==> (r@[i].login == "admin"@ && r@[i].role == UserRole::Admin
                    && bcrypt_check("admin123"@, r@[i].password_hash) == Some(true)) || (r@[i].login
                    == "operator1"@ && r@[i].role == UserRole::Operator && bcrypt_check(
                    "operator123"@,
                    r@[i].password_hash,
                ) == Some(true)),
    {
        Self::new()
    }
}

} // verus!
