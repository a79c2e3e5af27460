//! A verified core for a roster-messaging client: it owns the session/cookie
//! lifecycle of a web login, turns paginated listing pages into an ordered
//! roster of player names, and drives a persistent, resumable dispatch queue
//! that survives restarts and recovers a session lost mid-run.
//!
//! Network transport, file storage and the operator menu live outside this
//! library; they hand plain values (page HTML, response URLs, file contents)
//! to the verified state machines here and carry their decisions out.

pub mod codec;
pub mod dispatch;
pub mod errors;
pub mod numbers;
pub mod queue;
pub mod scrape;
pub mod session;

use vstd::prelude::*;

verus! {

/// Interval, in milliseconds, that the scraper demands between two page
/// fetches, to throttle the request rate.
pub const SCRAPE_DELAY_MS: u64 = 300;

/// The configuration the core is started with; loading and validating it
/// from files or the environment is the shell's concern.
pub struct Config {
    /// The server's base URL.
    pub server: String,
    /// The account name.
    pub login: String,
    /// The account password.
    pub pass: String,
    /// Seconds to wait between two sends.
    pub delay: u64,
    /// The subject of every message.
    pub subject: String,
    /// The body of every message.
    pub message: String,
}

impl Config {
    /// The login inputs of this configuration.
    pub fn credentials(&self) -> (c: crate::session::Credentials)
        ensures
            c.server@ == self.server@,
            c.login@ == self.login@,
            c.password@ == self.pass@,
    {
        crate::session::Credentials {
            server: self.server.clone(),
            login: self.login.clone(),
            password: self.pass.clone(),
        }
    }

    /// The message template of this configuration.
    pub fn template(&self) -> (t: crate::dispatch::MessageTemplate)
        ensures
            t.subject@ == self.subject@,
            t.body@ == self.message@,
    {
        crate::dispatch::MessageTemplate {
            subject: self.subject.clone(),
            body: self.message.clone(),
        }
    }
}

} // verus!
