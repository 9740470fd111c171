//! Serving HTTP requests from AWS Lambda functions.
pub mod aws_client;
pub mod aws_client_pool;
pub mod backend;
pub mod base64_format;
pub mod body;
pub mod exchange;
pub mod exchange_laws;
pub mod fetch;
pub mod framing;
pub mod headers;
pub mod health_laws;
pub mod health;
pub mod http_response;
pub mod invocation;
pub mod listing;
pub mod numbers;
pub mod outside;
pub mod probe;
pub mod request;
pub mod request_laws;
pub mod response_laws;
pub mod stats;
pub mod string_map;
pub mod text;
