//! The credential and the configuration.
use vstd::prelude::*;
use vstd::string::StringExecFns;

verus! {

/// What has to stay secret: the credential for the model gateway.
#[derive(Debug)]
pub struct Secrets {
    pub openai_api_key: String,
}

/// What the user may configure.
#[derive(Debug)]
pub struct Config {
    /// The identifier of the model to ask.
    pub model: String,
}

/// The model that is asked where nothing names another.
pub fn default_model() -> (model: String)
    ensures
        model@ == "o1"@,
{
    String::from_str("o1")
}

impl Default for Config {
    fn default() -> (config: Config)
        ensures
            config.model@ == "o1"@,
    {
        Config { model: default_model() }
    }
}

impl Config {
    /// The model that a stored configuration and the environment settle on:
    /// what the environment names, else what is stored, else the default.
    pub open spec fn resolved_model(stored: Option<Config>, from_env: Option<String>) -> Seq<char> {
        match from_env {
            Some(model) => model@,
            None => match stored {
                Some(config) => config.model@,
                None => "o1"@,
            },
        }
    }

    /// Settles the configuration: the stored one, or the default where none
    /// is stored, with the model replaced by the one that the environment
    /// names, if it names one.
    pub fn resolve(stored: Option<Config>, from_env: Option<String>) -> (config: Config)
        ensures
            config.model@ == Config::resolved_model(stored, from_env),
    {
        let mut ret = match stored {
            Some(config) => config,
            None => Config::default(),
        };
        if let Some(model) = from_env {
            ret.model = model;
        }
        ret
    }
}

} // verus!
