//! Collaborative project-state engine for a tree-structured scene-and-asset
//! project, layered over a CRDT document repository.
//!
//! The library holds the verified core: the scene-text projection, the
//! plain-value models of the CRDT documents (branch documents, the branches
//! metadata document, binary documents), the linked-document resolver, the
//! driver state machine that keeps every checked-out branch materialized, and
//! the host-facing facade cache.  The asynchronous repository plumbing that
//! feeds these models lives outside the library.

pub mod docs;
pub mod driver;
pub mod events;
pub mod facade;
pub mod ids;
pub mod registry;
pub mod scene;
pub mod scene_parse;
pub mod strmap;
pub mod text;

pub use text::chars_to_string;
pub use text::str_to_chars;
