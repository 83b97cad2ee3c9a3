//! Where the two secrets of an account are kept in the platform credential
//! store: one entry per secret, under the client's service name.
use vstd::prelude::*;

verus! {

/// The service name of every entry in the credential store.
pub const SERVICE: &'static str = "noip-duc";

/// The two secrets held per user.
#[derive(Clone, Copy, Debug, PartialEq, Eq, Structural)]
pub enum Slot {
    Password,
    ApiKey,
}

impl Slot {
    /// The target of the slot's entry.
    pub open spec fn target_name(self) -> Seq<char> {
        match self {
            Slot::Password => "password"@,
            Slot::ApiKey => "api-key"@,
        }
    }

    /// The target of the slot's entry.
    pub fn target(&self) -> (t: &'static str)
        ensures
            t@ == self.target_name(),
    {
        match self {
            Slot::Password => "password",
            Slot::ApiKey => "api-key",
        }
    }
}

} // verus!
