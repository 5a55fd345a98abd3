//! Where the services are and how requests to them are authorized.

use vstd::prelude::*;
use vstd::string::*;

verus! {

/// Name of the variable that holds the address of the services.
pub const API_PATH: &'static str = "API_PATH";

/// Name of the variable that holds the key of the services.
pub const API_KEY: &'static str = "API_KEY";

/// What follows the address of the services in the address of the
/// embedding service.
pub const EMBEDDINGS: &'static str = "/embeddings";

/// What follows the address of the services in the address of the
/// completion service.
pub const COMPLETIONS: &'static str = "/completions";

/// What follows the address of the services in the address of the chat
/// service.
pub const CHAT_COMPLETIONS: &'static str = "/chat/completions";

/// What stands before the key in the authorization of a request.
pub const BEARER: &'static str = "Bearer ";

/// The configuration of the services.
pub struct Environment {
    pub api_path: String,
    pub api_key: String,
}

/// The mathematical content of an `Environment`.
pub struct EnvironmentView {
    pub api_path: Seq<char>,
    pub api_key: Seq<char>,
}

impl View for Environment {
    type V = EnvironmentView;

    open spec fn view(&self) -> EnvironmentView {
        EnvironmentView { api_path: self.api_path@, api_key: self.api_key@ }
    }
}

/// A variable that the configuration needs and that is not set.
#[derive(Clone, Copy, Debug, PartialEq, Eq, Structural)]
pub enum MissingVariable {
    ApiPath,
    ApiKey,
}

impl MissingVariable {
    /// The name of the variable.
    pub fn name(&self) -> (name: &'static str)
        ensures
            name@ == match *self {
                MissingVariable::ApiPath => API_PATH@,
                MissingVariable::ApiKey => API_KEY@,
            },
    {
        match self {
            MissingVariable::ApiPath => API_PATH,
            MissingVariable::ApiKey => API_KEY,
        }
    }
}

impl Environment {
    /// The configuration made of the values that the environment holds
    /// for the two variables, or the first of them that is not set.
    pub fn from_env(api_path: Option<String>, api_key: Option<String>) -> (r: Result<
        Environment,
        MissingVariable,
    >)
        ensures
            match (api_path, api_key) {
                (Some(path), Some(key)) => r matches Ok(e) && e@ == (EnvironmentView {
                    api_path: path@,
                    api_key: key@,
                }),
                (None, _) => r == Err::<Environment, MissingVariable>(MissingVariable::ApiPath),
                (Some(_), None) => r == Err::<Environment, MissingVariable>(
                    MissingVariable::ApiKey,
                ),
            },
    {
        match api_path {
            Some(api_path) => match api_key {
                Some(api_key) => Ok(Environment { api_path, api_key }),
                None => Err(MissingVariable::ApiKey),
            },
            None => Err(MissingVariable::ApiPath),
        }
    }

    /// The address of the embedding service.
    pub fn embeddings_address(&self) -> (address: String)
        ensures
            address@ == self@.api_path + EMBEDDINGS@,
    {
        let mut address = self.api_path.clone();
        address.append(EMBEDDINGS);
        address
    }

    /// The address of the completion service.
    pub fn completions_address(&self) -> (address: String)
        ensures
            address@ == self@.api_path + COMPLETIONS@,
    {
        let mut address = self.api_path.clone();
        address.append(COMPLETIONS);
        address
    }

    /// The address of the chat service.
    pub fn chat_address(&self) -> (address: String)
        ensures
            address@ == self@.api_path + CHAT_COMPLETIONS@,
    {
        let mut address = self.api_path.clone();
        address.append(CHAT_COMPLETIONS);
        address
    }

    /// The authorization that a request carries.
    pub fn authorization(&self) -> (header: String)
        ensures
            header@ == BEARER@ + self@.api_key,
    {
        let mut header = String::from_str(BEARER);
        header.append(self.api_key.as_str());
        header
    }
}

} // verus!
