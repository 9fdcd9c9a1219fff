//! The prompt pair handed to the provider. Composing the two texts — the
//! environment description, the safety instructions and the user's request
//! — is the prompt-builder collaborator's job outside the library; the
//! library only fixes the shape they travel in.
use vstd::prelude::*;

verus! {

/// A system/user prompt pair, both valid text.
#[derive(Clone, Debug)]
pub struct Prompt {
    pub system: String,
    pub user: String,
}

impl Prompt {
    /// Pair a system and a user text.
    pub fn new(system: String, user: String) -> (r: Prompt)
        ensures
            r.system@ == system@,
            r.user@ == user@,
    {
        Prompt { system, user }
    }
}

} // verus!
