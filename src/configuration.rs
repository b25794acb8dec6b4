//! Settings of the management service and its worker.
use vstd::prelude::*;
use crate::text::{lower_of, lowercase, push_str, str_equal};

verus! {

/// The key that encrypts sink credentials at rest.
#[derive(Clone)]
pub struct EncryptionKey {
    pub id: u32,
    pub key: String,
}

#[derive(Clone)]
pub struct DatabaseSettings {
    /// Host on which Postgres is running
    pub host: String,
    /// Port on which Postgres is running
    pub port: u16,
    /// Postgres database name
    pub name: String,
    /// Postgres database user name
    pub username: String,
    /// Postgres database user password
    pub password: Option<String>,
    /// Whether to enable ssl or not
    pub require_ssl: bool,
}

/// How strictly a connection asks for TLS.
#[derive(Clone, Copy, Debug, PartialEq, Eq, Structural)]
pub enum SslMode {
    Prefer,
    Require,
}

/// The parameters of a connection to Postgres.
#[derive(Clone)]
pub struct ConnectOptions {
    pub host: String,
    pub port: u16,
    pub username: String,
    pub password: Option<String>,
    pub ssl_mode: SslMode,
    /// The database to connect to; the server's default when absent.
    pub database: Option<String>,
}

fn clone_opt(s: &Option<String>) -> (r: Option<String>)
    ensures
        r == *s,
{
    match s {
        Some(v) => Some(v.clone()),
        None => None,
    }
}

impl DatabaseSettings {
    /// Options to reach the server without choosing a database: TLS is
    /// required when the settings ask for it and preferred otherwise.
    pub fn without_db(&self) -> (r: ConnectOptions)
        ensures
            r.host == self.host,
            r.port == self.port,
            r.username == self.username,
            r.password == self.password,
            r.ssl_mode == (if self.require_ssl { SslMode::Require } else { SslMode::Prefer }),
            r.database is None,
    {
        let ssl_mode = if self.require_ssl { SslMode::Require } else { SslMode::Prefer };
        ConnectOptions {
            host: self.host.clone(),
            port: self.port,
            username: self.username.clone(),
            password: clone_opt(&self.password),
            ssl_mode,
            database: None,
        }
    }

    /// As `without_db`, connecting to the configured database.
    pub fn with_db(&self) -> (r: ConnectOptions)
        ensures
            r.host == self.host,
            r.port == self.port,
            r.username == self.username,
            r.password == self.password,
            r.ssl_mode == (if self.require_ssl { SslMode::Require } else { SslMode::Prefer }),
            r.database == Some(self.name),
    {
        let mut options = self.without_db();
        options.database = Some(self.name.clone());
        options
    }
}

#[derive(Clone, Debug)]
pub struct ApplicationSettings {
    /// host the api listens on
    pub host: String,
    /// port the api listens on
    pub port: u16,
}

#[derive(Clone, Debug)]
pub struct WorkerSettings {
    /// interval after which the worker looks in the queue for tasks
    pub poll_interval_secs: u64,
}

#[derive(Clone)]
pub struct Settings {
    pub database: DatabaseSettings,
    pub application: ApplicationSettings,
    pub worker: WorkerSettings,
    pub encryption_key: EncryptionKey,
}

pub const DEV_ENV_NAME: &'static str = "dev";
pub const PROD_ENV_NAME: &'static str = "prod";

/// The possible runtime environment for our application.
#[derive(Clone, Copy, Debug, PartialEq, Eq, Structural)]
pub enum Environment {
    Dev,
    Prod,
}

/// The message for a name that is no environment.
pub open spec fn unsupported_environment_message(name: Seq<char>) -> Seq<char> {
    name + " is not a supported environment. Use either `"@ + DEV_ENV_NAME@ + "` or `"@ + PROD_ENV_NAME@ + "`."@
}

impl Environment {
    pub open spec fn spec_name(&self) -> Seq<char> {
        match self {
            Environment::Dev => DEV_ENV_NAME@,
            Environment::Prod => PROD_ENV_NAME@,
        }
    }

    pub fn as_str(&self) -> (r: &'static str)
        ensures
            r@ == self.spec_name(),
    {
        match self {
            Environment::Dev => DEV_ENV_NAME,
            Environment::Prod => PROD_ENV_NAME,
        }
    }

    /// The environment named by an already lowercase name.
    pub fn from_lowercase(l: String) -> (r: Result<Environment, String>)
        ensures
            l@ == DEV_ENV_NAME@ ==> r == Ok::<Environment, String>(Environment::Dev),
            l@ != DEV_ENV_NAME@ && l@ == PROD_ENV_NAME@ ==> r == Ok::<Environment, String>(Environment::Prod),
            l@ != DEV_ENV_NAME@ && l@ != PROD_ENV_NAME@ ==> (r matches Err(m) && m@ == unsupported_environment_message(l@)),
    {
        if str_equal(l.as_str(), DEV_ENV_NAME) {
            Ok(Environment::Dev)
        } else if str_equal(l.as_str(), PROD_ENV_NAME) {
            Ok(Environment::Prod)
        } else {
            let mut m = l;
            push_str(&mut m, " is not a supported environment. Use either `");
            push_str(&mut m, DEV_ENV_NAME);
            push_str(&mut m, "` or `");
            push_str(&mut m, PROD_ENV_NAME);
            push_str(&mut m, "`.");
            Err(m)
        }
    }

    /// Reads an environment name in any letter case.
    pub fn try_from(s: String) -> (r: Result<Environment, String>)
        ensures
            lower_of(s@) == DEV_ENV_NAME@ ==> r == Ok::<Environment, String>(Environment::Dev),
            lower_of(s@) != DEV_ENV_NAME@ && lower_of(s@) == PROD_ENV_NAME@ ==> r == Ok::<Environment, String>(
                Environment::Prod,
            ),
            lower_of(s@) != DEV_ENV_NAME@ && lower_of(s@) != PROD_ENV_NAME@ ==> (r matches Err(m)
                && m@ == unsupported_environment_message(lower_of(s@))),
    {
        Environment::from_lowercase(lowercase(s.as_str()))
    }
}

} // verus!
