use vstd::prelude::*;
use crate::common::document::clone_opt_string;
use crate::server::cache::Cached;

verus! {

/// A connector: the way in which a server reaches one kind of data.
#[derive(Debug, PartialEq, Eq)]
pub struct Connector {
    pub id: String,
    pub name: String,
    pub description: Option<String>,
    pub icon: Option<String>,
    pub category: Option<String>,
    pub url: Option<String>,
}

impl Clone for Connector {
    fn clone(&self) -> (copy: Self)
        ensures
            copy == *self,
    {
        Connector {
            id: self.id.clone(),
            name: self.name.clone(),
            description: clone_opt_string(&self.description),
            icon: clone_opt_string(&self.icon),
            category: clone_opt_string(&self.category),
            url: clone_opt_string(&self.url),
        }
    }
}

impl Cached for Connector {
    open spec fn key(&self) -> Seq<char> {
        self.id@
    }

    fn cache_key(&self) -> (id: String) {
        self.id.clone()
    }

    fn duplicate(&self) -> (copy: Self) {
        self.clone()
    }
}

} // verus!
