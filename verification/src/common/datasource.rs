use vstd::prelude::*;
use crate::common::connector::Connector;
use crate::common::document::clone_opt_string;
use crate::server::cache::Cached;

verus! {

/// A data source of a server, with the connector that feeds it where that is
/// known.
#[derive(Debug, PartialEq, Eq)]
pub struct DataSource {
    pub id: String,
    pub name: Option<String>,
    pub kind: Option<String>,
    pub icon: Option<String>,
    pub connector_id: Option<String>,
    pub enabled: bool,
    pub connector_info: Option<Connector>,
}

impl Clone for DataSource {
    fn clone(&self) -> (copy: Self)
        ensures
            copy == *self,
    {
        let connector_info = match &self.connector_info {
            Some(connector) => Some(connector.clone()),
            None => None,
        };
        DataSource {
            id: self.id.clone(),
            name: clone_opt_string(&self.name),
            kind: clone_opt_string(&self.kind),
            icon: clone_opt_string(&self.icon),
            connector_id: clone_opt_string(&self.connector_id),
            enabled: self.enabled,
            connector_info,
        }
    }
}

impl Cached for DataSource {
    open spec fn key(&self) -> Seq<char> {
        self.id@
    }

    fn cache_key(&self) -> (id: String) {
        self.id.clone()
    }

    fn duplicate(&self) -> (copy: Self) {
        self.clone()
    }
}

} // verus!
