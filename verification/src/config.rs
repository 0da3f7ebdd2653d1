//! Configuration of the client: the remote endpoint, the credentials, and
//! the set of mounts. Reading the configuration file and the command line
//! happens outside; the seed values, the override rule, and the validation
//! of the token live here.

use vstd::prelude::*;

verus! {

/// One mount: a local directory tree paired with a reserved remote path.
pub struct MountPointConfig {
    pub local_path: String,
    pub remote_path: String,
}

impl Clone for MountPointConfig {
    /// A clone carries the same two paths.
    fn clone(&self) -> (r: Self)
        ensures
            r.local_path@ == self.local_path@,
            r.remote_path@ == self.remote_path@,
    {
        MountPointConfig {
            local_path: self.local_path.clone(),
            remote_path: self.remote_path.clone(),
        }
    }
}

/// A named mount.
pub struct MountEntry {
    pub name: String,
    pub point: MountPointConfig,
}

/// The client's configuration.
pub struct Config {
    pub yandex_disk_api_url: String,
    pub oauth_token: String,
    pub client_id: String,
    pub client_secret: String,
    pub mounts: Vec<MountEntry>,
}

/// A token long enough to have plausibly been issued; shorter values are
/// treated as missing.
pub open spec fn token_acceptable(token: Seq<char>) -> bool {
    token.len() >= 5
}

/// Why the configuration was rejected.
#[derive(PartialEq, Eq, Structural, Clone, Copy, Debug)]
pub enum ConfigError {
    /// No usable OAuth token was given by file or command line.
    NoOauthToken,
}

impl ConfigError {
    /// The diagnostic line reported for this error.
    pub fn message(&self) -> (r: &'static str)
        ensures
            r@ == "No OAuth token provided"@,
    {
        "No OAuth token provided"
    }
}

impl Config {
    /// The seed configuration before any file or command line is read: the
    /// public endpoint, placeholder credentials, no mounts.
    pub fn unconfigured() -> (c: Config)
        ensures
            c.yandex_disk_api_url@ == "https://cloud-api.yandex.net:443/v1/disk"@,
            c.oauth_token@ == "uninitialized"@,
            c.client_id@ == "uninitialized"@,
            c.client_secret@ == "uninitialized"@,
            c.mounts@.len() == 0,
    {
        Config {
            yandex_disk_api_url: "https://cloud-api.yandex.net:443/v1/disk".to_owned(),
            oauth_token: "uninitialized".to_owned(),
            client_id: "uninitialized".to_owned(),
            client_secret: "uninitialized".to_owned(),
            mounts: Vec::new(),
        }
    }

    /// Let a token named on the command line override the configured one;
    /// nothing else changes.
    pub fn apply_token_override(&mut self, token: Option<String>)
        ensures
            token matches Some(t) ==> final(self).oauth_token == t,
            token is None ==> final(self).oauth_token == old(self).oauth_token,
            final(self).yandex_disk_api_url == old(self).yandex_disk_api_url,
            final(self).client_id == old(self).client_id,
            final(self).client_secret == old(self).client_secret,
            final(self).mounts == old(self).mounts,
    {
        match token {
            Option::Some(t) => {
                self.oauth_token = t;
            },
            Option::None => {},
        }
    }

    /// Accept the configuration exactly when it carries an acceptable
    /// OAuth token.
    pub fn validate_oauth_token(&self) -> (r: Result<(), ConfigError>)
        ensures
            (r is Ok) == token_acceptable(self.oauth_token@),
            (r is Err) ==> r == Result::<(), ConfigError>::Err(ConfigError::NoOauthToken),
    {
        if self.oauth_token.as_str().unicode_len() < 5 {
            Result::Err(ConfigError::NoOauthToken)
        } else {
            Result::Ok(())
        }
    }
}

} // verus!
