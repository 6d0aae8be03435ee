//! The client side: configuration, request checks and walks.

pub mod builder;
pub mod request;
pub mod walk;

pub use builder::{
    Client, ClientConfig, V1ClientBuilder, V2cClientBuilder, V3AuthClientBuilder,
    V3AuthPrivClientBuilder, V3ClientBuilder, V3SecurityConfig,
};
pub use request::{after_timeout, check_response, RetryDecision};
pub use walk::{BulkStep, BulkWalk, Walk};
