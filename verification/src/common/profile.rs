use vstd::prelude::*;
use crate::common::document::clone_opt_string;

verus! {

/// What a user prefers.
#[derive(Debug, PartialEq, Eq)]
pub struct Preferences {
    pub theme: Option<String>,
    pub language: Option<String>,
}

impl Clone for Preferences {
    fn clone(&self) -> (copy: Self)
        ensures
            copy == *self,
    {
        Preferences {
            theme: clone_opt_string(&self.theme),
            language: clone_opt_string(&self.language),
        }
    }
}

/// A user as a server knows them.
#[derive(Debug, PartialEq, Eq)]
pub struct UserProfile {
    pub id: String,
    pub name: String,
    pub email: String,
    pub avatar: Option<String>,
    pub preferences: Option<Preferences>,
}

impl Clone for UserProfile {
    fn clone(&self) -> (copy: Self)
        ensures
            copy == *self,
    {
        let preferences = match &self.preferences {
            Some(held) => Some(held.clone()),
            None => None,
        };
        UserProfile {
            id: self.id.clone(),
            name: self.name.clone(),
            email: self.email.clone(),
            avatar: clone_opt_string(&self.avatar),
            preferences,
        }
    }
}

} // verus!
