//! Who may call an endpoint.

use vstd::prelude::*;

verus! {

/// What a request proves about its sender.
#[derive(Clone, Copy, Debug, PartialEq, Eq, Structural)]
pub enum Credentials {
    /// Nothing: the sender is not logged in.
    Anonymous,
    /// A session cookie of the user with this id.
    Cookie { user_id: i32 },
    /// An API token of the user with this id.
    Token { user_id: i32 },
}

/// The refusal of a request whose sender may not make it.
#[derive(Clone, Copy, Debug, PartialEq, Eq, Structural)]
pub struct Forbidden;

/// The demands of an endpoint on the credentials of a request.
#[derive(Clone, Copy, Debug)]
pub struct AuthCheck {
    allow_token: bool,
}

/// The user that `credentials` stand for, where an endpoint that takes
/// tokens or not, as `allow_token` says, accepts them.
pub open spec fn admitted(allow_token: bool, credentials: Credentials) -> Option<i32> {
    match credentials {
        Credentials::Anonymous => None,
        Credentials::Cookie { user_id } => Some(user_id),
        Credentials::Token { user_id } => if allow_token {
            Some(user_id)
        } else {
            None
        },
    }
}

impl AuthCheck {
    /// Whether an API token is as good as a session cookie.
    pub closed spec fn allows_token(&self) -> bool {
        self.allow_token
    }

    /// The check of most endpoints: a session cookie or an API token.
    #[allow(clippy::should_implement_trait)]
    pub fn default() -> (check: AuthCheck)
        ensures
            check.allows_token(),
    {
        AuthCheck { allow_token: true }
    }

    /// The check of the endpoints that manage the account itself: only a
    /// session cookie will do.
    pub fn only_cookie() -> (check: AuthCheck)
        ensures
            !check.allows_token(),
    {
        AuthCheck { allow_token: false }
    }

    /// The id of the user who sent the request, or a refusal.
    pub fn check(&self, credentials: &Credentials) -> (user: Result<i32, Forbidden>)
        ensures
            match admitted(self.allows_token(), *credentials) {
                Some(user_id) => user == Ok::<i32, Forbidden>(user_id),
                None => user is Err,
            },
    {
        match credentials {
            Credentials::Anonymous => Err(Forbidden),
            Credentials::Cookie { user_id } => Ok(*user_id),
            Credentials::Token { user_id } => {
                if self.allow_token {
                    Ok(*user_id)
                } else {
                    Err(Forbidden)
                }
            },
        }
    }
}

} // verus!
