use vstd::prelude::*;

use crate::directory::Directory;
use crate::directory::first_active_with_code_from;
use crate::models::AccessCode;

verus! {

/// Failures of the session gate.
#[derive(Debug, Clone, Copy, PartialEq, Eq, Structural)]
pub enum AuthError {
    /// A protected operation was attempted with no authenticated identity.
    NotAuthenticated,
    /// No active participant holds the presented secret code; the session is
    /// left as it was.
    AuthLookupFailed,
}

/// Mathematical model of the session: whether an identity is authenticated,
/// and which participant record it is.
pub struct SessionView {
    pub authenticated: bool,
    pub code: Option<AccessCode>,
}

/// Well-formedness of the session: the flag and the stored identity agree.
pub open spec fn session_wf(s: SessionView) -> bool {
    s.authenticated <==> s.code is Some
}

/// The process-wide session slot: it holds at most one authenticated
/// identity for the whole running service, so concurrent logins from
/// different visitors overwrite each other. The caller serialises access to
/// it behind one lock, never held across a store call.
pub struct Session {
    pub is_authenticated: bool,
    pub current_access_code: Option<AccessCode>,
}

impl View for Session {
    type V = SessionView;

    open spec fn view(&self) -> SessionView {
        SessionView { authenticated: self.is_authenticated, code: self.current_access_code }
    }
}

impl Session {
    pub open spec fn wf(&self) -> bool {
        session_wf(self@)
    }

    /// The authenticated participant id, if any.
    pub open spec fn spec_current(&self) -> Option<i64> {
        match self@.code {
            Some(c) => Some(c.id),
            None => None,
        }
    }

    /// A fresh, unauthenticated session.
    pub fn new() -> (r: Session)
        ensures
            r@.authenticated == false,
            r@.code is None,
            r.wf(),
    {
        Session { is_authenticated: false, current_access_code: None }
    }

    /// Looks up an active participant whose secret code equals the input,
    /// exactly and case-sensitively. On a match, the session is set to that
    /// identity and the id returned; on no match the session is left
    /// unchanged — a failed login never clears a previously authenticated
    /// identity.
    pub fn login(&mut self, dir: &Directory, password: &str) -> (r: Result<i64, AuthError>)
        requires
            old(self).wf(),
        ensures
            final(self).wf(),
            ({
                match first_active_with_code_from(dir@.codes, password@, 0) {
                    Some(c) => {
                        &&& r == Ok::<i64, AuthError>(c.id)
                        &&& final(self)@.authenticated
                        &&& final(self)@.code == Some(c)
                    },
                    None => {
                        &&& r == Err::<i64, AuthError>(AuthError::AuthLookupFailed)
                        &&& *final(self) == *old(self)
                    },
                }
            }),
    {
        match dir.find_active_by_code(password) {
            Some(c) => {
                let id = c.id;
                self.is_authenticated = true;
                self.current_access_code = Some(c);
                Ok(id)
            },
            None => Err(AuthError::AuthLookupFailed),
        }
    }

    /// Unconditionally resets the session to the unauthenticated state.
    pub fn logout(&mut self)
        ensures
            final(self)@.authenticated == false,
            final(self)@.code is None,
            final(self).wf(),
    {
        self.is_authenticated = false;
        self.current_access_code = None;
    }

    /// Read accessor for gated operations: the authenticated participant id,
    /// if any.
    pub fn current_participant(&self) -> (r: Option<i64>)
        ensures
            r == self.spec_current(),
    {
        match &self.current_access_code {
            Some(c) => Some(c.id),
            None => None,
        }
    }

    /// Precondition guard of every protected operation: the authenticated
    /// participant id, or `NotAuthenticated`.
    pub fn require_authenticated(&self) -> (r: Result<i64, AuthError>)
        ensures
            match self.spec_current() {
                Some(id) => r == Ok::<i64, AuthError>(id),
                None => r == Err::<i64, AuthError>(AuthError::NotAuthenticated),
            },
    {
        match &self.current_access_code {
            Some(c) => Ok(c.id),
            None => Err(AuthError::NotAuthenticated),
        }
    }
}

/// Marker produced by the request guard when some identity is authenticated.
pub struct AuthenticatedUser;

impl AuthenticatedUser {
    /// The request-guard check: succeeds exactly when the session holds an
    /// authenticated identity.
    pub fn from_session(session: &Session) -> (r: Result<AuthenticatedUser, AuthError>)
        requires
            session.wf(),
        ensures
            r is Ok <==> session@.authenticated,
            r is Err ==> r == Err::<AuthenticatedUser, AuthError>(AuthError::NotAuthenticated),
    {
        match &session.current_access_code {
            Some(_) => Ok(AuthenticatedUser),
            None => Err(AuthError::NotAuthenticated),
        }
    }
}

} // verus!
