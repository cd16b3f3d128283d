//! A minimal HTTP/1.1 server engine: request parsing, trie-based routing and
//! response serialization, with every function's behaviour stated as a contract.

pub mod body;
pub mod error;
pub mod header;
pub mod http_version;
pub mod method;
pub mod request;
pub mod response;
pub mod route_path;
pub mod router;
pub mod status_code;
pub mod text;
pub mod wire;
