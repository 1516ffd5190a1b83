//! Policy-shaped tools and request validation.
pub mod failure;
pub mod laws;
pub mod outputs;
pub mod refusal_laws;
pub mod request_laws;
pub mod server;
pub mod service_laws;
pub mod startup;
pub mod tools;
