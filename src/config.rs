use vstd::prelude::*;

use crate::error::CheckpwnError;

verus! {

/// The client configuration: the API key that the account endpoints ask for.
pub struct Config {
    pub api_key: String,
}

impl Config {
    /// A configuration without a key.
    pub fn new() -> (r: Config)
        ensures
            r.api_key@ == Seq::<char>::empty(),
    {
        Config { api_key: String::new() }
    }

    /// The key for an account lookup; without one the lookup cannot be made.
    pub fn api_key_for_account(&self) -> (r: Result<String, CheckpwnError>)
        ensures
            self.api_key@.len() == 0 ==> r == Err::<String, CheckpwnError>(
                CheckpwnError::ConfigurationMissing,
            ),
            self.api_key@.len() > 0 ==> r is Ok && r->Ok_0@ == self.api_key@,
    {
        if self.api_key.as_str().is_empty() {
            Err(CheckpwnError::ConfigurationMissing)
        } else {
            Ok(self.api_key.clone())
        }
    }
}

} // verus!
