//! Process configuration, read once at start-up.
use vstd::prelude::*;

verus! {

/// Settings the service runs with; absent values are `None`.
pub struct Config {
    pub port: u16,
    pub gemini_api_key: Option<String>,
    pub google_application_credentials: Option<String>,
    pub firebase_project_id: Option<String>,
    pub firebase_api_key: Option<String>,
    pub base_api_url: Option<String>,
    pub apple_client_id: Option<String>,
    pub apple_team_id: Option<String>,
    pub apple_key_id: Option<String>,
    pub apple_private_key: Option<String>,
    pub google_client_id: Option<String>,
    pub google_client_secret: Option<String>,
}

/// The port served on when none is configured.
pub const DEFAULT_PORT: u16 = 8080;

/// A setting whose absence degrades the service without stopping it.
#[derive(Debug, Clone, Copy, PartialEq, Eq, Structural)]
pub enum ConfigWarning {
    /// No credential file: the store falls back to the platform identity.
    NoCredentialFile,
    /// No language-model key: conversation processing will fail.
    NoModelKey,
}

impl Config {
    /// Checks the configuration. Every configuration is accepted; what is
    /// missing is reported by [`Config::warnings`].
    pub fn validate(&self) -> (r: Result<(), String>)
        ensures
            r is Ok,
    {
        Ok(())
    }

    /// The settings whose absence degrades the service, credential first.
    pub fn warnings(&self) -> (r: Vec<ConfigWarning>)
        ensures
            r@ == (if self.google_application_credentials is None {
                seq![ConfigWarning::NoCredentialFile]
            } else {
                Seq::empty()
            }) + (if self.gemini_api_key is None {
                seq![ConfigWarning::NoModelKey]
            } else {
                Seq::empty()
            }),
    {
        let mut r: Vec<ConfigWarning> = Vec::new();
        if self.google_application_credentials.is_none() {
            r.push(ConfigWarning::NoCredentialFile);
        }
        if self.gemini_api_key.is_none() {
            r.push(ConfigWarning::NoModelKey);
        }
        assert(r@ =~= (if self.google_application_credentials is None {
            seq![ConfigWarning::NoCredentialFile]
        } else {
            Seq::empty()
        }) + (if self.gemini_api_key is None {
            seq![ConfigWarning::NoModelKey]
        } else {
            Seq::empty()
        }));
        r
    }

    /// The port given by the text `value`, or the default port where there
    /// is none or it is not a port number.
    pub fn port_from(value: Option<&str>) -> (r: u16)
        ensures
            r == (match value {
                Some(v) => match crate::decimal::parse_i64_text(v@) {
                    Some(n) => if 0 <= n <= 65535 && v@[0] != '-' {
                        n as u16
                    } else {
                        DEFAULT_PORT
                    },
                    None => DEFAULT_PORT,
                },
                None => DEFAULT_PORT,
            }),
    {
        match value {
            Some(v) => match crate::decimal::parse_i64(v) {
                Some(n) => if 0 <= n && n <= 65535 && v.get_char(0) != '-' {
                    n as u16
                } else {
                    DEFAULT_PORT
                },
                None => DEFAULT_PORT,
            },
            None => DEFAULT_PORT,
        }
    }
}

} // verus!
