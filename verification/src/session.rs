//! The session/cookie lifecycle: the two-step login exchange, the
//! authenticated cookie header, and the detection of a silently lost
//! session.
//!
//! The network transport stays outside: callers fetch the library's request
//! URLs, then hand the plain pieces of each response (the nonce, the
//! `Set-Cookie` header value, the final resolved URL) back to the verified
//! functions here.

use vstd::prelude::*;

use crate::errors::AuthError;

verus! {

/// The immutable login inputs, supplied once at construction.
pub struct Credentials {
    /// The server's base URL, without a trailing slash.
    pub server: String,
    /// The account name.
    pub login: String,
    /// The account password.
    pub password: String,
}

/// An authenticated session: the cookie pair captured from the login
/// exchange. Replaced wholesale on re-login, never partially mutated.
pub struct Session {
    /// The cookie's name, as the `Set-Cookie` header gave it.
    pub cookie_name: String,
    /// The cookie's value, as the `Set-Cookie` header gave it.
    pub cookie_value: String,
    /// When the session was established, as the caller's clock said.
    pub authenticated_at: u64,
}

/// What `ureq::Cookie::parse` (the `cookie` crate) makes of a `Set-Cookie`
/// header value: the cookie's name and value, or nothing if the text is not
/// a cookie.
pub uninterp spec fn cookie_pair_of(header: Seq<char>) -> Option<(Seq<char>, Seq<char>)>;

/// Relies on `ureq::Cookie::parse` (the `cookie` crate): splits a
/// `Set-Cookie` header value into the cookie's name and its value, without
/// percent-decoding; the result depends on the header text alone.
#[verifier::external_body]
fn parse_cookie_pair(header: &str) -> (r: Option<(String, String)>)
    ensures
        match r {
            Some(p) => cookie_pair_of(header@) == Some((p.0@, p.1@)),
            None => cookie_pair_of(header@) is None,
        },
{
    match ureq::Cookie::parse(header.to_string()) {
        Ok(c) => Some((c.name().to_string(), c.value().to_string())),
        Err(_) => None,
    }
}

/// Owns the authenticated session for one account on one server.
pub struct SessionClient {
    /// The login inputs.
    pub credentials: Credentials,
    /// The current session, if a login succeeded.
    pub session: Option<Session>,
}

impl SessionClient {
    /// A client that has not logged in yet.
    pub fn new(credentials: Credentials) -> (c: Self)
        ensures
            c.session is None,
            c.credentials == credentials,
    {
        SessionClient { credentials, session: None }
    }

    /// The URL of the first login step, which the credentials are posted to
    /// for a one-time nonce.
    pub fn login_url(&self) -> (r: String)
        ensures
            r@ == self.credentials.server@ + "/api/v1/auth/login"@,
    {
        self.credentials.server.clone().concat("/api/v1/auth/login")
    }

    /// The URL of the second login step, specific to the nonce granted by
    /// the first.
    pub fn confirm_url(&self, nonce: &String) -> (r: String)
        ensures
            r@ == self.credentials.server@ + "/api/v1/auth/"@ + nonce@,
    {
        let r = self.credentials.server.clone().concat("/api/v1/auth/").concat(nonce.as_str());
        proof {
            assert(r@ =~= self.credentials.server@ + "/api/v1/auth/"@ + nonce@);
        }
        r
    }

    /// The URL that ends the session server-side.
    pub fn logout_url(&self) -> (r: String)
        ensures
            r@ == self.credentials.server@ + "/api/v1/auth/logout"@,
    {
        self.credentials.server.clone().concat("/api/v1/auth/logout")
    }

    /// The nonce granted by the first login step, or the error that there
    /// was none usable.
    pub fn check_nonce(nonce: Option<String>) -> (r: Result<String, AuthError>)
        ensures
            match nonce {
                Some(n) => r == Ok::<String, AuthError>(n),
                None => r == Err::<String, AuthError>(AuthError::NoNonce),
            },
    {
        match nonce {
            Some(n) => Ok(n),
            None => Err(AuthError::NoNonce),
        }
    }

    /// Completes the login from the confirmation response's `Set-Cookie`
    /// header, captured at time `now`: on a usable header the new session's
    /// cookie is exactly the header's pair and it replaces any prior session
    /// wholesale; without one the exchange failed and nothing changes.
    pub fn complete_login(&mut self, set_cookie: Option<&str>, now: u64) -> (r: Result<
        (),
        AuthError,
    >)
        ensures
            final(self).credentials == old(self).credentials,
            match set_cookie {
                None => r == Err::<(), AuthError>(AuthError::NoCookie) && final(self).session
                    == old(self).session,
                Some(h) => match cookie_pair_of(h@) {
                    Some(pair) => r == Ok::<(), AuthError>(()) && (final(self).session matches Some(
                        s,
                    ) && s.cookie_name@ == pair.0 && s.cookie_value@ == pair.1
                        && s.authenticated_at == now),
                    None => r == Err::<(), AuthError>(AuthError::NoCookie) && final(self).session
                        == old(self).session,
                },
            },
    {
        match set_cookie {
            None => Err(AuthError::NoCookie),
            Some(h) => match parse_cookie_pair(h) {
                Some(pair) => {
                    self.session = Some(
                        Session {
                            cookie_name: pair.0,
                            cookie_value: pair.1,
                            authenticated_at: now,
                        },
                    );
                    Ok(())
                },
                None => Err(AuthError::NoCookie),
            },
        }
    }

    /// The `Cookie` header for an authenticated request: the current
    /// session's pair as `name=value`, or the error that no login ever
    /// succeeded.
    pub fn cookie_header(&self) -> (r: Result<String, AuthError>)
        ensures
            match self.session {
                None => r == Err::<String, AuthError>(AuthError::NoSession),
                Some(s) => (r matches Ok(h) && h@ == s.cookie_name@ + "="@ + s.cookie_value@),
            },
    {
        match &self.session {
            None => Err(AuthError::NoSession),
            Some(s) => {
                let h = s.cookie_name.clone().concat("=").concat(s.cookie_value.as_str());
                proof {
                    assert(h@ =~= s.cookie_name@ + "="@ + s.cookie_value@);
                }
                Ok(h)
            },
        }
    }

    /// Whether a login succeeded and a session is held.
    pub fn has_session(&self) -> (r: bool)
        ensures
            r == (self.session is Some),
    {
        match &self.session {
            Some(_) => true,
            None => false,
        }
    }

    /// The URL of one listing page of the player statistics.
    pub fn stats_page_url(&self, page: u32) -> (r: String)
        ensures
            r@ == self.credentials.server@ + "/statistics/player/overview?page="@
                + crate::numbers::dec_of(page),
    {
        let r = self.credentials.server.clone().concat("/statistics/player/overview?page=").concat(
            crate::numbers::u32_to_string(page).as_str(),
        );
        proof {
            assert(r@ =~= self.credentials.server@ + "/statistics/player/overview?page="@
                + crate::numbers::dec_of(page));
        }
        r
    }

    /// The URL the message form is posted to.
    pub fn message_url(&self) -> (r: String)
        ensures
            r@ == self.credentials.server@ + "/messages/write"@,
    {
        self.credentials.server.clone().concat("/messages/write")
    }

    /// The `Origin` header of every request: the target server itself, which
    /// the service requires.
    pub fn origin(&self) -> (r: String)
        ensures
            r@ == self.credentials.server@,
    {
        self.credentials.server.clone()
    }

    /// The URL a successful message submission lands on; a submission that
    /// resolves anywhere else was silently redirected to a login page.
    pub fn expected_landing_url(&self) -> (r: String)
        ensures
            r@ == self.credentials.server@ + "/messages/inbox"@,
    {
        self.credentials.server.clone().concat("/messages/inbox")
    }
}

/// The fixed browser `User-Agent` header that every request carries, which
/// the target service requires to accept the request.
pub fn user_agent() -> (r: String)
    ensures
        r@
            == "Mozilla/5.0 (X11; Linux x86_64) AppleWebKit/537.36 (KHTML, like Gecko) Chrome/79.0.3945.88 Safari/537.36"@,
{
    String::from_str(
        "Mozilla/5.0 (X11; Linux x86_64) AppleWebKit/537.36 (KHTML, like Gecko) Chrome/79.0.3945.88 Safari/537.36",
    )
}

/// The session-loss policy: a response is classified as session loss exactly
/// when its final resolved URL differs from the expected landing page. This
/// is the sole detection mechanism; the server signals nothing explicit.
pub fn is_session_lost(final_url: &String, expected_url: &String) -> (r: bool)
    ensures
        r == (final_url@ != expected_url@),
{
    !final_url.eq(expected_url)
}

} // verus!
