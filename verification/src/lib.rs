//! Verified core of two manga-site source adapters.
//!
//! The host application fetches pages over the network and parses the raw
//! HTML into a document tree; this library holds everything that can be
//! stated and proved: the URL routers, the filter resolution, and the
//! extractors that turn a queried document tree into normalized entities.

pub mod dom;
pub mod entities;
pub mod strutil;
pub mod bilicomic;
pub mod nnhanman;
