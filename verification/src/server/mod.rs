pub mod attachment;
pub mod auth;
pub mod cache;
pub mod connector;
pub mod datasource;
pub mod http_client;
pub mod search;
pub mod servers;
pub mod transcription;
pub mod websocket;
