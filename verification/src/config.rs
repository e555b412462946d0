//! The configuration.

use vstd::prelude::*;
use vstd::string::*;

verus! {

/// How the service is reached, and as which app.
#[derive(Debug)]
pub struct OsaioConfig {
    pub appid: String,
    pub app_secret: String,
    pub user_agent: String,
    pub global_base_url: String,
}

impl Clone for OsaioConfig {
    fn clone(&self) -> (r: OsaioConfig)
        ensures
            r == *self,
    {
        OsaioConfig {
            appid: self.appid.clone(),
            app_secret: self.app_secret.clone(),
            user_agent: self.user_agent.clone(),
            global_base_url: self.global_base_url.clone(),
        }
    }
}

/// The account that is logged in.
#[derive(Debug)]
pub struct AccountConfig {
    pub email: String,
    pub password: String,
}

impl Clone for AccountConfig {
    fn clone(&self) -> (r: AccountConfig)
        ensures
            r == *self,
    {
        AccountConfig { email: self.email.clone(), password: self.password.clone() }
    }
}

/// Where the streams are served.
#[derive(Debug)]
pub struct ServerConfig {
    pub bind: String,
}

/// The address that is bound where none is configured.
pub fn default_bind() -> (r: String)
    ensures
        r@ == "0.0.0.0:8080"@,
{
    "0.0.0.0:8080".to_owned()
}

impl Default for ServerConfig {
    fn default() -> (r: ServerConfig)
        ensures
            r.bind@ == "0.0.0.0:8080"@,
    {
        ServerConfig { bind: default_bind() }
    }
}

impl Clone for ServerConfig {
    fn clone(&self) -> (r: ServerConfig)
        ensures
            r == *self,
    {
        ServerConfig { bind: self.bind.clone() }
    }
}

/// The whole configuration.
#[derive(Debug)]
pub struct Config {
    pub osaio: OsaioConfig,
    pub account: AccountConfig,
    pub server: ServerConfig,
}

impl Clone for Config {
    fn clone(&self) -> (r: Config)
        ensures
            r == *self,
    {
        Config {
            osaio: self.osaio.clone(),
            account: self.account.clone(),
            server: self.server.clone(),
        }
    }
}

} // verus!
