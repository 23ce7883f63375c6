use vstd::prelude::*;
use crate::oauth2_callback::{CallbackOutcome, CodeGrantResponse, ErrorResponse};
use crate::text::{decimal, decimal_string};

verus! {

/// Why a login could not go on to the token exchange.
pub enum Error {
    /// A required setting is not in the environment.
    MissingEnvironment { key: &'static str },
    /// The anti-forgery token that came back is not the one sent.
    StateMismatch,
    /// The provider redirected with an error.
    Rejected(ErrorResponse),
    /// The redirect carried neither a code nor an error.
    MalformedCallback,
}

/// The read-only permissions a login asks for.
#[derive(Clone, Copy, Debug, PartialEq, Eq, Structural)]
pub enum Scope {
    TweetRead,
    UsersRead,
    LikeRead,
}

/// The permissions of a login: read items, read users, read likes.
pub fn login_scopes() -> (r: Vec<Scope>)
    ensures
        r@ == seq![Scope::TweetRead, Scope::UsersRead, Scope::LikeRead],
{
    let r = vec![Scope::TweetRead, Scope::UsersRead, Scope::LikeRead];
    proof {
        assert(r@ =~= seq![Scope::TweetRead, Scope::UsersRead, Scope::LikeRead]);
    }
    r
}

/// Where the provider sends the browser back to, on the local listener.
pub open spec fn callback_url_of(port: u16) -> Seq<char> {
    "http://localhost:"@ + decimal(port as nat) + "/oauth2/callback"@
}

pub fn callback_url(port: u16) -> (r: String)
    ensures
        r@ == callback_url_of(port),
{
    let mut url = String::from_str("http://localhost:");
    let digits = decimal_string(port as u64);
    url.append(digits.as_str());
    url.append("/oauth2/callback");
    url
}

/// Accepts a callback outcome for the token exchange only where it is a
/// success whose anti-forgery token is the one this login sent.
pub fn authorize_callback(expected_state: &str, outcome: CallbackOutcome) -> (r: Result<
    CodeGrantResponse,
    Error,
>)
    ensures
        match outcome {
            CallbackOutcome::Success(g) => if g.state@ == expected_state@ {
                r matches Ok(x) && x.code@ == g.code@ && x.state@ == g.state@
            } else {
                r matches Err(Error::StateMismatch)
            },
            CallbackOutcome::ProviderError(e) => r matches Err(Error::Rejected(x)) && x == e,
            CallbackOutcome::Malformed => r matches Err(Error::MalformedCallback),
        },
{
    match outcome {
        CallbackOutcome::Success(g) => {
            let expected = String::from_str(expected_state);
            if g.state == expected {
                Ok(g)
            } else {
                Err(Error::StateMismatch)
            }
        },
        CallbackOutcome::ProviderError(e) => Err(Error::Rejected(e)),
        CallbackOutcome::Malformed => Err(Error::MalformedCallback),
    }
}

} // verus!
