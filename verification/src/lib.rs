//! Serverless pooling backend: the rules by which HTTP/JSON database requests
//! are authenticated, routed to a compute node and served from bounded,
//! endpoint-scoped connection pools.

pub mod access;
pub mod auth;
pub mod backend;
pub mod conn_pool;
pub mod error;
pub mod extension_server;
pub mod http2_connect;
pub mod http_conn_pool;
pub mod jwk;
pub mod jwt;
pub mod local_conn_pool;
pub mod local_connect;
pub mod local_setup;
pub mod locks;
pub mod pool;
pub mod retry;
pub mod startup;
pub mod strmap;
pub mod tenant_mgr;
pub mod text;
pub mod types;
pub mod wake;
pub mod wake_system;
