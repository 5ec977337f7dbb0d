use vstd::prelude::*;
use crate::common::profile::UserProfile;

verus! {

/// Who runs a server.
#[derive(Debug, PartialEq, Eq)]
pub struct Provider {
    pub name: String,
    pub icon: String,
    pub website: String,
    pub eula: String,
    pub privacy_policy: String,
    pub banner: String,
    pub description: String,
}

impl Clone for Provider {
    fn clone(&self) -> (copy: Self)
        ensures
            copy == *self,
    {
        Provider {
            name: self.name.clone(),
            icon: self.icon.clone(),
            website: self.website.clone(),
            eula: self.eula.clone(),
            privacy_policy: self.privacy_policy.clone(),
            banner: self.banner.clone(),
            description: self.description.clone(),
        }
    }
}

/// A version, as the server writes it.
#[derive(Debug, PartialEq, Eq)]
pub struct Version {
    pub number: String,
}

impl Clone for Version {
    fn clone(&self) -> (copy: Self)
        ensures
            copy == *self,
    {
        Version { number: self.number.clone() }
    }
}

/// Where to sign on.
#[derive(Debug, PartialEq, Eq)]
pub struct Sso {
    pub url: String,
}

/// How a server lets its users sign on.
#[derive(Debug, PartialEq, Eq)]
pub struct AuthProvider {
    pub sso: Sso,
}

impl Clone for AuthProvider {
    fn clone(&self) -> (copy: Self)
        ensures
            copy == *self,
    {
        AuthProvider { sso: Sso { url: self.sso.url.clone() } }
    }
}

/// How a server said it is doing when it was last asked.
#[derive(Debug, PartialEq, Eq)]
pub struct Health {
    pub status: String,
}

impl Clone for Health {
    fn clone(&self) -> (copy: Self)
        ensures
            copy == *self,
    {
        Health { status: self.status.clone() }
    }
}

/// A server that this client knows.
#[derive(Debug, PartialEq, Eq)]
pub struct Server {
    pub id: String,
    pub builtin: bool,
    pub enabled: bool,
    pub name: String,
    pub endpoint: String,
    pub provider: Provider,
    pub version: Version,
    pub minimal_client_version: Option<Version>,
    pub updated: String,
    pub public: bool,
    pub available: bool,
    pub health: Option<Health>,
    pub profile: Option<UserProfile>,
    pub auth_provider: AuthProvider,
    pub priority: u32,
}

impl Clone for Server {
    fn clone(&self) -> (copy: Self)
        ensures
            copy == *self,
    {
        let minimal_client_version = match &self.minimal_client_version {
            Some(version) => Some(version.clone()),
            None => None,
        };
        let health = match &self.health {
            Some(held) => Some(held.clone()),
            None => None,
        };
        let profile = match &self.profile {
            Some(held) => Some(held.clone()),
            None => None,
        };
        Server {
            id: self.id.clone(),
            builtin: self.builtin,
            enabled: self.enabled,
            name: self.name.clone(),
            endpoint: self.endpoint.clone(),
            provider: self.provider.clone(),
            version: self.version.clone(),
            minimal_client_version,
            updated: self.updated.clone(),
            public: self.public,
            available: self.available,
            health,
            profile,
            auth_provider: self.auth_provider.clone(),
            priority: self.priority,
        }
    }
}

/// The token that lets this client speak to a server.
#[derive(Debug, PartialEq, Eq)]
pub struct ServerAccessToken {
    pub id: String,
    pub access_token: String,
    /// For how many seconds the token holds.
    pub expired_at: u32,
}

impl ServerAccessToken {
    pub fn new(id: String, access_token: String, expired_at: u32) -> (token: ServerAccessToken)
        ensures
            token.id == id,
            token.access_token == access_token,
            token.expired_at == expired_at,
    {
        ServerAccessToken { id, access_token, expired_at }
    }
}

impl Clone for ServerAccessToken {
    fn clone(&self) -> (copy: Self)
        ensures
            copy == *self,
    {
        ServerAccessToken {
            id: self.id.clone(),
            access_token: self.access_token.clone(),
            expired_at: self.expired_at,
        }
    }
}

} // verus!
