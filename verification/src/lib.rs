pub mod api;
pub mod api_laws;
pub mod bridge;
pub mod buffers;
pub mod calendar;
pub mod calendar_laws;
pub mod codec;
pub mod config;
pub mod digest;
pub mod digest_laws;
pub mod json;
pub mod json_laws;
pub mod lists;
pub mod numbers;
pub mod proxy;
pub mod routes;
pub mod settings;
pub mod text;
pub mod text_laws;
