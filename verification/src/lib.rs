//! The request-handling rules of the pdf-inspector HTTP API: page selectors,
//! request options, error replies, configuration, and the decisions taken while
//! reading an upload and running a document through the engine.

pub mod text;
pub mod page_spec;
pub mod dto;
pub mod error;
pub mod options;
pub mod upload;
pub mod processing;
pub mod config;
