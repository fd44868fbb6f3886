//! Backend state layer of a multi-tenant video-surveillance console.
//!
//! The crate is made of a credential store ([`auth::AuthManager`]), which
//! hashes and verifies operator secrets and gates privileged actions by role,
//! and a resource configuration store ([`config::Config`] owned by
//! [`config::ConfigManager`]), which keeps the registry of apartments and
//! cameras referentially consistent and serializes it to a structured text
//! document. [`SystemState`] tracks the identity and configuration snapshot of
//! the running session.

use vstd::prelude::*;

pub mod auth;
pub mod config;
pub mod error;
pub mod json;
pub mod text;

pub use auth::{AuthManager, LoginRequest, LoginResponse, User, UserRole};
pub use config::{Apartment, Camera, Config, ConfigManager, Settings};
pub use error::{ErrorSeverity, SurveillanceError};

verus! {

/// Session-wide state: the identity authenticated for the running session and
/// the configuration snapshot it works against.
pub struct SystemState {
    pub current_user: Option<User>,
    pub config: Option<Config>,
    pub is_authenticated: bool,
}

impl SystemState {
    /// A fresh session: nobody authenticated, no configuration loaded.
    pub fn new() -> (r: Self)
        ensures
            r.current_user is None,
            r.config is None,
            !r.is_authenticated,
    {
        Self { current_user: None, config: None, is_authenticated: false }
    }

    /// Records a successful login: the session now carries `user`.
    pub fn authenticate(&mut self, user: User)
        ensures
            final(self).current_user == Some(user),
            final(self).is_authenticated,
            final(self).config == old(self).config,
    {
        self.current_user = Some(user);
        self.is_authenticated = true;
    }

    /// Clears the authenticated identity; the configuration snapshot stays.
    pub fn logout(&mut self)
        ensures
            final(self).current_user is None,
            !final(self).is_authenticated,
            final(self).config == old(self).config,
    {
        self.current_user = None;
        self.is_authenticated = false;
    }
}

impl Default for SystemState {
    fn default() -> (r: Self)
        ensures
            r.current_user is None,
            r.config is None,
            !r.is_authenticated,
    {
        Self::new()
    }
}

/// A copy of the identity the session holds, if any.
pub fn get_current_user(state: &SystemState) -> (r: Option<User>)
    ensures
        r matches Some(u) ==> state.current_user matches Some(c) && u@ == c@,
        r is Some <==> state.current_user is Some,
{
    match &state.current_user {
        Some(u) => Some(u.clone()),
        None => None,
    }
}

/// Whether the session has an authenticated identity.
pub fn is_authenticated(state: &SystemState) -> (r: bool)
    ensures
        r == state.is_authenticated,
{
    state.is_authenticated
}

/// Whether the session's identity carries the administrator role.
/// False when nobody is authenticated.
pub fn has_admin_role(state: &SystemState) -> (r: bool)
    ensures
        r == (state.current_user matches Some(u) && u.role == UserRole::Admin),
{
    match &state.current_user {
        Some(user) => user.role == UserRole::Admin,
        None => false,
    }
}

} // verus!
