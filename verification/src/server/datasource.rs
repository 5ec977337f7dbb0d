use vstd::prelude::*;
use crate::common::connector::Connector;
use crate::common::datasource::DataSource;
use crate::common::table::KeyedTable;
use crate::server::cache::{find_in_group, group_values, groups_well_formed, indexed, save_group};

verus! {

/// Keeps the data sources of a server, each under its id, in place of those
/// that were kept for the server. Of two data sources with the same id the
/// later one counts. What is kept for other servers stays as it is.
pub fn save_datasource_to_cache(
    cache: &mut KeyedTable<KeyedTable<DataSource>>,
    server_id: &str,
    datasources: Vec<DataSource>,
)
    requires
        groups_well_formed(old(cache)),
    ensures
        groups_well_formed(final(cache)),
        final(cache)@.dom() == old(cache)@.dom().insert(server_id@),
        final(cache)@[server_id@]@ == indexed(datasources@),
        forall|id: Seq<char>|
            id != server_id@ && old(cache)@.contains_key(id) ==> final(cache)@[id] == old(
                cache,
            )@[id],
{
    save_group(cache, server_id, &datasources);
}

/// The data sources that are kept for a server, in the order in which their
/// ids came; `None` where nothing is kept for the server.
pub fn get_datasources_from_cache(cache: &KeyedTable<KeyedTable<DataSource>>, server_id: &str) -> (datasources:
    Option<Vec<DataSource>>)
    requires
        groups_well_formed(cache),
    ensures
        datasources is Some <==> cache@.contains_key(server_id@),
        datasources is Some ==> datasources->0@ == cache@[server_id@].values(),
{
    group_values(cache, server_id)
}

/// The connector that is kept for a server under the id of a data source.
pub open spec fn connector_for(
    connectors: Map<Seq<char>, KeyedTable<Connector>>,
    server_id: Seq<char>,
    datasource: DataSource,
) -> Option<Connector> {
    if connectors.contains_key(server_id) && connectors[server_id]@.contains_key(datasource.id@) {
        Some(connectors[server_id]@[datasource.id@])
    } else {
        None
    }
}

/// The data sources for which a connector is kept, each with that connector,
/// in their order.
pub open spec fn attached(
    datasources: Seq<DataSource>,
    connectors: Map<Seq<char>, KeyedTable<Connector>>,
    server_id: Seq<char>,
) -> Seq<DataSource>
    decreases datasources.len(),
{
    if datasources.len() == 0 {
        Seq::empty()
    } else {
        let before = attached(datasources.drop_last(), connectors, server_id);
        match connector_for(connectors, server_id, datasources.last()) {
            Some(connector) => before.push(
                DataSource { connector_info: Some(connector), ..datasources.last() },
            ),
            None => before,
        }
    }
}

/// Gives every data source of a server the connector that is kept for the
/// server under the data source's id, and leaves out the data sources for
/// which none is kept.
pub fn attach_connectors(
    datasources: &Vec<DataSource>,
    connectors: &KeyedTable<KeyedTable<Connector>>,
    server_id: &str,
) -> (kept: Vec<DataSource>)
    requires
        groups_well_formed(connectors),
    ensures
        kept@ == attached(datasources@, connectors@, server_id@),
{
    let mut kept: Vec<DataSource> = Vec::new();
    let mut next: usize = 0;
    while next < datasources.len()
        invariant
            next <= datasources.len(),
            groups_well_formed(connectors),
            kept@ == attached(datasources@.take(next as int), connectors@, server_id@),
        decreases datasources.len() - next,
    {
        proof {
            assert(datasources@.take(next + 1).drop_last() =~= datasources@.take(next as int));
        }
        let datasource = &datasources[next];
        match find_in_group(connectors, server_id, datasource.id.as_str()) {
            Some(connector) => {
                let mut with_connector = datasource.clone();
                with_connector.connector_info = Some(connector);
                kept.push(with_connector);
            },
            None => {},
        }
        next = next + 1;
    }
    proof {
        assert(datasources@.take(next as int) =~= datasources@);
    }
    kept
}

} // verus!
