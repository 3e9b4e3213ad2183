use vstd::prelude::*;

verus! {

/// The settings file: service tokens, datastore locations, datastore
/// credentials.
#[derive(Debug)]
pub struct Config {
    pub tokens: Tokens,
    pub databases: DatabasesURIs,
    pub auth: DatabaseAuthentificationTokens,
}

/// The authentication tokens of the three outside services.
#[derive(Debug)]
pub struct Tokens {
    pub discord: String,
    pub google: String,
    pub wit: String,
}

/// Where the two datastores live.
#[derive(Debug)]
pub struct DatabasesURIs {
    pub redis: String,
    pub postresql: String,
    pub postresql_dbname: String,
}

/// The durable store's credentials.
#[derive(Debug)]
pub struct DatabaseAuthentificationTokens {
    pub postresql_login: String,
    pub postresql_password: String,
}

impl Default for Tokens {
    /// All tokens empty.
    fn default() -> (r: Self)
        ensures
            r.discord@.len() == 0 && r.google@.len() == 0 && r.wit@.len() == 0,
    {
        Tokens { discord: String::new(), google: String::new(), wit: String::new() }
    }
}

impl Default for DatabasesURIs {
    /// All locations empty.
    fn default() -> (r: Self)
        ensures
            r.redis@.len() == 0 && r.postresql@.len() == 0 && r.postresql_dbname@.len() == 0,
    {
        DatabasesURIs {
            redis: String::new(),
            postresql: String::new(),
            postresql_dbname: String::new(),
        }
    }
}

impl Default for DatabaseAuthentificationTokens {
    /// All credentials empty.
    fn default() -> (r: Self)
        ensures
            r.postresql_login@.len() == 0 && r.postresql_password@.len() == 0,
    {
        DatabaseAuthentificationTokens {
            postresql_login: String::new(),
            postresql_password: String::new(),
        }
    }
}

impl Default for Config {
    /// The never-configured template: every field empty.
    fn default() -> (r: Self)
        ensures
            spec_config_unconfigured(r),
    {
        Config {
            tokens: Tokens::default(),
            databases: DatabasesURIs::default(),
            auth: DatabaseAuthentificationTokens::default(),
        }
    }
}

/// The settings equal the all-default template: every field is the
/// empty string. A process must refuse to start on such a file.
pub open spec fn spec_config_unconfigured(c: Config) -> bool {
    &&& c.tokens.discord@.len() == 0
    &&& c.tokens.google@.len() == 0
    &&& c.tokens.wit@.len() == 0
    &&& c.databases.redis@.len() == 0
    &&& c.databases.postresql@.len() == 0
    &&& c.databases.postresql_dbname@.len() == 0
    &&& c.auth.postresql_login@.len() == 0
    &&& c.auth.postresql_password@.len() == 0
}

impl Config {
    /// Whether the settings still read as the untouched template.
    pub fn is_unconfigured(&self) -> (r: bool)
        ensures
            r == spec_config_unconfigured(*self),
    {
        self.tokens.discord.as_str().is_empty() && self.tokens.google.as_str().is_empty()
            && self.tokens.wit.as_str().is_empty() && self.databases.redis.as_str().is_empty()
            && self.databases.postresql.as_str().is_empty()
            && self.databases.postresql_dbname.as_str().is_empty()
            && self.auth.postresql_login.as_str().is_empty()
            && self.auth.postresql_password.as_str().is_empty()
    }
}

} // verus!
