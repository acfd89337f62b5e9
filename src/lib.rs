//! A line-oriented JSON-RPC server core that exposes repository-inspection
//! tools. The library decides; the program around it reads, fetches and writes.
pub mod dispatch;
pub mod github;
pub mod json;
pub mod laws;
pub mod registry;
pub mod request;
pub mod tags;
pub mod text;
pub mod tools;
