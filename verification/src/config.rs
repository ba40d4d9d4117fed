//! Application configuration: the values consumed by the core, with
//! the documented defaults for the optional entries.

use vstd::prelude::*;
use vstd::string::StringExecFns;

verus! {

/// The assembled application configuration.
#[derive(Clone, Debug)]
pub struct AppConfig {
    pub database_url: String,
    pub jwt_secret: String,
    pub platform_admin_email: String,
    pub platform_admin_password: String,
    pub bind_addr: String,
}

impl AppConfig {
    /// Assembles the configuration from the raw entries, applying the
    /// documented defaults where an optional entry is absent.
    pub fn assemble(
        database_url: String,
        jwt_secret: String,
        platform_admin_email: Option<String>,
        platform_admin_password: Option<String>,
        bind_addr: Option<String>,
    ) -> (c: AppConfig)
        ensures
            c.database_url == database_url,
            c.jwt_secret == jwt_secret,
            platform_admin_email is Some ==> c.platform_admin_email == platform_admin_email->0,
            platform_admin_email is None ==> c.platform_admin_email@ == "admin@platform.local"@,
            platform_admin_password is Some ==> c.platform_admin_password
                == platform_admin_password->0,
            platform_admin_password is None ==> c.platform_admin_password@ == "admin123456"@,
            bind_addr is Some ==> c.bind_addr == bind_addr->0,
            bind_addr is None ==> c.bind_addr@ == "0.0.0.0:3333"@,
    {
        AppConfig {
            database_url,
            jwt_secret,
            platform_admin_email: match platform_admin_email {
                Some(v) => v,
                None => String::from_str("admin@platform.local"),
            },
            platform_admin_password: match platform_admin_password {
                Some(v) => v,
                None => String::from_str("admin123456"),
            },
            bind_addr: match bind_addr {
                Some(v) => v,
                None => String::from_str("0.0.0.0:3333"),
            },
        }
    }
}

} // verus!
