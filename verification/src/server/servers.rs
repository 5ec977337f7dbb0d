use vstd::prelude::*;
use vstd::string::StringExecFns;
use crate::common::server::{AuthProvider, Provider, Server, ServerAccessToken, Sso, Version};
use crate::common::table::KeyedTable;
use crate::common::text::{join, trim_end_char, trimmed_end};

verus! {

/// The key under which the servers are kept in the client's store.
pub const COCO_SERVERS: &'static str = "coco_servers";

/// The key under which the servers' tokens are kept in the client's store.
pub const COCO_SERVER_TOKENS: &'static str = "coco_server_tokens";

/// Tells whether a server with this id is known.
pub fn check_server_exists(cache: &KeyedTable<Server>, id: &str) -> (known: bool)
    requires
        cache.well_formed(),
    ensures
        known == cache@.contains_key(id@),
{
    cache.contains_key(id)
}

/// The server with this id, if it is known.
pub fn get_server_by_id(cache: &KeyedTable<Server>, id: &str) -> (server: Option<Server>)
    requires
        cache.well_formed(),
    ensures
        server is Some <==> cache@.contains_key(id@),
        server is Some ==> server->0 == cache@[id@],
{
    match cache.get(id) {
        Some(server) => Some(server.clone()),
        None => None,
    }
}

/// The token of the server with this id, if there is one.
pub fn get_server_token(tokens: &KeyedTable<ServerAccessToken>, id: &str) -> (token: Option<
    ServerAccessToken,
>)
    requires
        tokens.well_formed(),
    ensures
        token is Some <==> tokens@.contains_key(id@),
        token is Some ==> token->0 == tokens@[id@],
{
    match tokens.get(id) {
        Some(token) => Some(token.clone()),
        None => None,
    }
}

/// Keeps a token for a server, in place of the one it had. Returns `true`
/// where the server had none.
pub fn save_access_token(
    tokens: &mut KeyedTable<ServerAccessToken>,
    server_id: String,
    token: ServerAccessToken,
) -> (is_new: bool)
    requires
        old(tokens).well_formed(),
    ensures
        final(tokens).well_formed(),
        final(tokens)@ == old(tokens)@.insert(server_id@, token),
        is_new == !old(tokens)@.contains_key(server_id@),
{
    tokens.insert(server_id, token).is_none()
}

/// Some known server has this endpoint.
pub open spec fn endpoint_known(servers: Seq<Server>, endpoint: Seq<char>) -> bool {
    exists|i: int| 0 <= i < servers.len() && (#[trigger] servers[i]).endpoint@ == endpoint
}

/// Tells whether a known server has this endpoint.
pub fn check_endpoint_exists(cache: &KeyedTable<Server>, endpoint: &str) -> (known: bool)
    ensures
        known == endpoint_known(cache.values(), endpoint@),
{
    let wanted = String::from_str(endpoint);
    let mut next: usize = 0;
    while next < cache.len()
        invariant
            next <= cache.values().len(),
            wanted@ == endpoint@,
            forall|i: int| 0 <= i < next ==> (#[trigger] cache.values()[i]).endpoint@ != endpoint@,
        decreases cache.values().len() - next,
    {
        if cache.value_at(next).endpoint == wanted {
            return true;
        }
        next = next + 1;
    }
    false
}

/// Keeps a server under its id, in place of the one known under that id.
/// Returns `true` where the id was new.
pub fn save_server(cache: &mut KeyedTable<Server>, server: &Server) -> (is_new: bool)
    requires
        old(cache).well_formed(),
    ensures
        final(cache).well_formed(),
        final(cache)@ == old(cache)@.insert(server.id@, *server),
        is_new == !old(cache)@.contains_key(server.id@),
{
    cache.insert(server.id.clone(), server.clone()).is_none()
}

/// Forgets the server with this id. Returns `true` where it was known.
pub fn remove_server_by_id(cache: &mut KeyedTable<Server>, id: String) -> (was_known: bool)
    requires
        old(cache).well_formed(),
    ensures
        final(cache).well_formed(),
        final(cache)@ == old(cache)@.remove(id@),
        was_known == old(cache)@.contains_key(id@),
{
    cache.remove(id.as_str()).is_some()
}

/// Forgets the token of the server with this id. Returns `true` where it
/// had one.
pub fn remove_server_token(tokens: &mut KeyedTable<ServerAccessToken>, id: &str) -> (had_one: bool)
    requires
        old(tokens).well_formed(),
    ensures
        final(tokens).well_formed(),
        final(tokens)@ == old(tokens)@.remove(id@),
        had_one == old(tokens)@.contains_key(id@),
{
    tokens.remove(id).is_some()
}

/// The server that a client without servers starts with.
pub fn get_default_server() -> (server: Server)
    ensures
        server.id@ == "default_coco_server"@,
        server.builtin,
        server.enabled,
        server.name@ == "Coco Cloud"@,
        server.endpoint@ == "https://coco.infini.cloud"@,
        server.provider.name@ == "INFINI Labs"@,
        server.provider.icon@ == "https://coco.infini.cloud/icon.png"@,
        server.provider.website@ == "http://infinilabs.com"@,
        server.provider.eula@ == "http://infinilabs.com/eula.txt"@,
        server.provider.privacy_policy@ == "http://infinilabs.com/privacy_policy.txt"@,
        server.provider.banner@ == "https://coco.infini.cloud/banner.jpg"@,
        server.provider.description@
            == "Coco AI Server - Search, Connect, Collaborate, AI-powered enterprise search, all in one space."@,
        server.version.number@ == "1.0.0_SNAPSHOT"@,
        server.minimal_client_version is None,
        server.updated@ == "2025-01-24T12:12:17.326286927+08:00"@,
        !server.public,
        server.available,
        server.health is None,
        server.profile is None,
        server.auth_provider.sso.url@ == "https://coco.infini.cloud/sso/login/"@,
        server.priority == 0,
{
    Server {
        id: String::from_str("default_coco_server"),
        builtin: true,
        enabled: true,
        name: String::from_str("Coco Cloud"),
        endpoint: String::from_str("https://coco.infini.cloud"),
        provider: Provider {
            name: String::from_str("INFINI Labs"),
            icon: String::from_str("https://coco.infini.cloud/icon.png"),
            website: String::from_str("http://infinilabs.com"),
            eula: String::from_str("http://infinilabs.com/eula.txt"),
            privacy_policy: String::from_str("http://infinilabs.com/privacy_policy.txt"),
            banner: String::from_str("https://coco.infini.cloud/banner.jpg"),
            description: String::from_str(
                "Coco AI Server - Search, Connect, Collaborate, AI-powered enterprise search, all in one space.",
            ),
        },
        version: Version { number: String::from_str("1.0.0_SNAPSHOT") },
        minimal_client_version: None,
        updated: String::from_str("2025-01-24T12:12:17.326286927+08:00"),
        public: false,
        available: true,
        health: None,
        profile: None,
        auth_provider: AuthProvider {
            sso: Sso { url: String::from_str("https://coco.infini.cloud/sso/login/") },
        },
        priority: 0,
    }
}

/// The known servers with their ids, in the order in which the ids came.
pub fn get_servers_as_hashmap(cache: &KeyedTable<Server>) -> (servers: Vec<(String, Server)>)
    ensures
        servers@.len() == cache.keys().len(),
        forall|i: int|
            0 <= i < servers@.len() ==> servers@[i].0@ == cache.keys()[i] && servers@[i].1
                == cache.values()[i],
{
    let mut servers: Vec<(String, Server)> = Vec::new();
    let count = cache.len();
    let mut next: usize = 0;
    while next < count
        invariant
            next <= count,
            count == cache.keys().len(),
            count == cache.values().len(),
            servers@.len() == next,
            forall|i: int|
                0 <= i < next ==> servers@[i].0@ == cache.keys()[i] && servers@[i].1
                    == cache.values()[i],
        decreases count - next,
    {
        servers.push((cache.key_at(next).clone(), cache.value_at(next).clone()));
        next = next + 1;
    }
    servers
}

/// The known servers, in the order in which their ids came.
pub fn get_all_servers(cache: &KeyedTable<Server>) -> (servers: Vec<Server>)
    ensures
        servers@ == cache.values(),
{
    let mut servers: Vec<Server> = Vec::new();
    let mut next: usize = 0;
    while next < cache.len()
        invariant
            next <= cache.values().len(),
            servers@ == cache.values().take(next as int),
        decreases cache.values().len() - next,
    {
        servers.push(cache.value_at(next).clone());
        proof {
            assert(servers@ =~= cache.values().take(next + 1));
        }
        next = next + 1;
    }
    proof {
        assert(cache.values().take(next as int) =~= cache.values());
    }
    servers
}

/// Notes that the server with this id cannot be reached: it is no longer
/// available and nothing is known of its health. An unknown id changes
/// nothing.
pub fn mark_server_as_offline(cache: &mut KeyedTable<Server>, id: &str)
    requires
        old(cache).well_formed(),
    ensures
        final(cache).well_formed(),
        !old(cache)@.contains_key(id@) ==> final(cache)@ == old(cache)@,
        old(cache)@.contains_key(id@) ==> final(cache)@ == old(cache)@.insert(
            old(cache)@[id@].id@,
            Server { available: false, health: None, ..old(cache)@[id@] },
        ),
{
    match get_server_by_id(cache, id) {
        Some(mut server) => {
            server.available = false;
            server.health = None;
            let _ = save_server(cache, &server);
        },
        None => {},
    }
}

/// Takes every slash off the end of the server's endpoint.
pub fn trim_endpoint_last_forward_slash(server: &mut Server)
    ensures
        final(server).endpoint@ == trimmed_end(old(server).endpoint@, '/'),
        *final(server) == (Server { endpoint: final(server).endpoint, ..*old(server) }),
{
    let trimmed = trim_end_char(server.endpoint.as_str(), '/');
    server.endpoint = trimmed;
}

/// The address at which a server describes itself.
pub fn provider_info_url(endpoint: &str) -> (url: String)
    ensures
        url@ == endpoint@ + "/provider/_info"@,
{
    join(endpoint, "/provider/_info")
}

/// Whether a server may take part in searches: it is enabled, and it is
/// public or this client holds a token for it.
pub open spec fn may_register(server: Server, has_token: bool) -> bool {
    server.enabled && (server.public || has_token)
}

/// Tells whether a server may take part in searches.
pub fn can_register(server: &Server, tokens: &KeyedTable<ServerAccessToken>) -> (allowed: bool)
    requires
        tokens.well_formed(),
    ensures
        allowed == may_register(*server, tokens@.contains_key(server.id@)),
{
    if !server.enabled {
        return false;
    }
    if server.public {
        return true;
    }
    tokens.contains_key(server.id.as_str())
}

/// A server as it is after fresh news of it came in: the news, but with the
/// id under which the server is known, with what this client decided of it
/// (built in, enabled, the user's profile), available, and with an endpoint
/// that ends in no slash.
pub open spec fn refreshed(known: Server, news: Server) -> Server {
    Server {
        id: known.id,
        builtin: known.builtin,
        enabled: known.enabled,
        available: true,
        profile: known.profile,
        ..news
    }
}

/// Takes fresh news of a known server in.
pub fn merge_refreshed(known: &Server, news: Server) -> (server: Server)
    ensures
        server.endpoint@ == trimmed_end(news.endpoint@, '/'),
        server == (Server { endpoint: server.endpoint, ..refreshed(*known, news) }),
{
    let mut server = news;
    server.id = known.id.clone();
    server.builtin = known.builtin;
    server.enabled = known.enabled;
    server.available = true;
    server.profile = match &known.profile {
        Some(profile) => Some(profile.clone()),
        None => None,
    };
    trim_endpoint_last_forward_slash(&mut server);
    server
}

/// Gets a server that was just found ready to be kept: its endpoint ends in
/// no slash, a missing id is filled with `fresh_id`, a missing name with
/// `Coco Server`.
pub fn prepare_new_server(found: Server, fresh_id: String) -> (server: Server)
    ensures
        server.endpoint@ == trimmed_end(found.endpoint@, '/'),
        server.id@ == if found.id@.len() == 0 {
            fresh_id@
        } else {
            found.id@
        },
        server.name@ == if found.name@.len() == 0 {
            "Coco Server"@
        } else {
            found.name@
        },
        server == (Server {
            endpoint: server.endpoint,
            id: server.id,
            name: server.name,
            ..found
        }),
{
    let mut server = found;
    trim_endpoint_last_forward_slash(&mut server);
    if server.id.as_str().is_empty() {
        server.id = fresh_id;
    }
    if server.name.as_str().is_empty() {
        server.name = String::from_str("Coco Server");
    }
    server
}

/// The servers with every one of `servers` kept under its id, in their
/// order.
pub open spec fn kept_all(cache: Map<Seq<char>, Server>, servers: Seq<Server>) -> Map<
    Seq<char>,
    Server,
>
    decreases servers.len(),
{
    if servers.len() == 0 {
        cache
    } else {
        kept_all(cache, servers.drop_last()).insert(servers.last().id@, servers.last())
    }
}

/// Keeps the servers that were read from the store. An empty list is an
/// error, and nothing is kept.
pub fn adopt_servers(cache: &mut KeyedTable<Server>, servers: &Vec<Server>) -> (result: Result<
    (),
    String,
>)
    requires
        old(cache).well_formed(),
    ensures
        final(cache).well_formed(),
        result is Err <==> servers@.len() == 0,
        result is Err ==> result->Err_0@ == "Failed to deserialize any servers from the store."@,
        final(cache)@ == kept_all(old(cache)@, servers@),
{
    if servers.len() == 0 {
        return Err(String::from_str("Failed to deserialize any servers from the store."));
    }
    let mut next: usize = 0;
    while next < servers.len()
        invariant
            next <= servers.len(),
            cache.well_formed(),
            cache@ == kept_all(old(cache)@, servers@.take(next as int)),
        decreases servers.len() - next,
    {
        proof {
            assert(servers@.take(next + 1).drop_last() =~= servers@.take(next as int));
        }
        let _ = save_server(cache, &servers[next]);
        next = next + 1;
    }
    proof {
        assert(servers@.take(next as int) =~= servers@);
    }
    Ok(())
}

/// Switches a known server on or off for searches and gives the server as it
/// is kept then; `None`, and nothing changed, for an id that is not known.
pub fn set_server_enabled(cache: &mut KeyedTable<Server>, id: &str, enabled: bool) -> (server:
    Option<Server>)
    requires
        old(cache).well_formed(),
    ensures
        final(cache).well_formed(),
        server is Some <==> old(cache)@.contains_key(id@),
        server is None ==> final(cache)@ == old(cache)@,
        server is Some ==> {
            &&& server->0 == (Server { enabled, ..old(cache)@[id@] })
            &&& final(cache)@ == old(cache)@.insert(server->0.id@, server->0)
        },
{
    match get_server_by_id(cache, id) {
        Some(mut server) => {
            server.enabled = enabled;
            let _ = save_server(cache, &server);
            Some(server)
        },
        None => None,
    }
}

/// Signs the user off a known server: the server is kept without a profile.
/// An id that is not known is an error, and nothing changes.
pub fn clear_server_profile(cache: &mut KeyedTable<Server>, id: &str) -> (result: Result<
    (),
    String,
>)
    requires
        old(cache).well_formed(),
    ensures
        final(cache).well_formed(),
        result is Ok <==> old(cache)@.contains_key(id@),
        result is Err ==> final(cache)@ == old(cache)@ && result->Err_0@
            == "No server found for id: "@ + id@,
        result is Ok ==> final(cache)@ == old(cache)@.insert(
            old(cache)@[id@].id@,
            Server { profile: None, ..old(cache)@[id@] },
        ),
{
    match get_server_by_id(cache, id) {
        Some(mut server) => {
            server.profile = None;
            let _ = save_server(cache, &server);
            Ok(())
        },
        None => Err(join("No server found for id: ", id)),
    }
}

} // verus!
