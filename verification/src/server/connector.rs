use vstd::prelude::*;
use crate::common::connector::Connector;
use crate::common::table::KeyedTable;
use crate::server::cache::{find_in_group, groups_well_formed, indexed, save_group};

verus! {

/// Keeps the connectors of a server, each under its id, in place of those
/// that were kept for the server. Of two connectors with the same id the
/// later one counts. What is kept for other servers stays as it is.
pub fn save_connectors_to_cache(
    cache: &mut KeyedTable<KeyedTable<Connector>>,
    server_id: &str,
    connectors: Vec<Connector>,
)
    requires
        groups_well_formed(old(cache)),
    ensures
        groups_well_formed(final(cache)),
        final(cache)@.dom() == old(cache)@.dom().insert(server_id@),
        final(cache)@[server_id@]@ == indexed(connectors@),
        forall|id: Seq<char>|
            id != server_id@ && old(cache)@.contains_key(id) ==> final(cache)@[id] == old(
                cache,
            )@[id],
{
    save_group(cache, server_id, &connectors);
}

/// The connector of a server with this id, if it is kept.
pub fn get_connector_by_id(
    cache: &KeyedTable<KeyedTable<Connector>>,
    server_id: &str,
    connector_id: &str,
) -> (connector: Option<Connector>)
    requires
        groups_well_formed(cache),
    ensures
        connector is Some <==> cache@.contains_key(server_id@)
            && cache@[server_id@]@.contains_key(connector_id@),
        connector is Some ==> connector->0 == cache@[server_id@]@[connector_id@],
{
    find_in_group(cache, server_id, connector_id)
}

} // verus!
