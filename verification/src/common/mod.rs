pub mod connector;
pub mod datasource;
pub mod document;
pub mod error;
pub mod http;
pub mod profile;
pub mod register;
pub mod search;
pub mod server;
pub mod table;
pub mod text;
pub mod traits;
