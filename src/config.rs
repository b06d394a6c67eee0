//! Settings of the bot: the game server and the chat account.

use vstd::prelude::*;
use vstd::string::{StrSliceExecFns};

verus! {

/// The game server.
#[derive(Debug)]
pub struct TMars {
    /// Base URL of the server.
    pub url: String,
    /// Secret server identifier, shown at the server's start.
    pub server_id: String,
    /// Seconds between two polls of the server.
    pub polling_interval: u64,
}

/// `url` without one trailing slash.
pub open spec fn trimmed_url(url: Seq<char>) -> Seq<char> {
    if url.len() > 0 && url.last() == '/' {
        url.drop_last()
    } else {
        url
    }
}

impl TMars {
    /// Drops one trailing slash from the URL, so that paths can be appended.
    pub fn normalize_url(&mut self)
        ensures
            final(self).url@ == trimmed_url(old(self).url@),
            final(self).server_id@ == old(self).server_id@,
            final(self).polling_interval == old(self).polling_interval,
    {
        let n = self.url.as_str().unicode_len();
        if n > 0 && self.url.as_str().get_char(n - 1) == '/' {
            let trimmed = self.url.as_str().substring_char(0, n - 1).to_owned();
            self.url = trimmed;
        }
    }
}

/// The chat account of the bot.
#[derive(Debug)]
pub struct Matrix {
    pub user_id: String,
    pub password: String,
    /// Passphrase of the account's secret storage.
    pub passphrase: String,
}

/// All settings.
#[derive(Debug)]
pub struct Config {
    pub tmars: TMars,
    pub matrix: Matrix,
}

/// Credentials of the bot's chat account.
#[derive(Debug, Clone)]
pub struct UserCredentials {
    pub user_id: String,
    pub password: String,
    /// Passphrase of the account's secret storage.
    pub passphrase: String,
}

impl Matrix {
    /// The credentials of the account.
    pub fn credentials(&self) -> (r: UserCredentials)
        ensures
            r.user_id@ == self.user_id@,
            r.password@ == self.password@,
            r.passphrase@ == self.passphrase@,
    {
        UserCredentials {
            user_id: self.user_id.clone(),
            password: self.password.clone(),
            passphrase: self.passphrase.clone(),
        }
    }
}

} // verus!
