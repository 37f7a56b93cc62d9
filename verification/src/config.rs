//! The application's configuration.

use vstd::prelude::*;
use vstd::string::*;

verus! {

/// The settings that the services need.
#[derive(Debug)]
pub struct AppConfig {
    pub openai_api_key: String,
}

impl AppConfig {
    /// The configuration for the key that was looked up, if one was found.
    pub fn from_lookup(value: Option<String>) -> (r: Option<AppConfig>)
        ensures
            match value {
                Some(key) => r.is_some() && r.unwrap().openai_api_key == key,
                None => r.is_none(),
            },
    {
        match value {
            Some(key) => Some(AppConfig { openai_api_key: key }),
            None => None,
        }
    }

    /// The value of the authorization header that carries this key.
    pub fn authorization(&self) -> (header: String)
        ensures
            header@ == bearer_text(self.openai_api_key@),
    {
        bearer(self.openai_api_key.as_str())
    }
}

/// The value of the authorization header for a key: the scheme, a space and
/// the key.
pub open spec fn bearer_text(api_key: Seq<char>) -> Seq<char> {
    "Bearer "@ + api_key
}

/// The value of the authorization header for a key.
pub fn bearer(api_key: &str) -> (header: String)
    ensures
        header@ == bearer_text(api_key@),
{
    String::from_str("Bearer ").concat(api_key)
}

} // verus!
