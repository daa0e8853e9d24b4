//! Client for a geocoding service and a current-weather service.
//!
//! The library holds the logic of both clients: it builds each request's
//! parameters, renders the query and its redacted debug form, judges the
//! response status, and decodes the JSON body into typed values. The network
//! exchange itself belongs to the host program, which hands each response back.
pub mod decimal;
pub mod http_client;
pub mod json;
pub mod location;
pub mod request;
pub mod weather;
