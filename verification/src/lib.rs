//! A version-history store for a directory tree: immutable snapshots of a
//! project's file manifest, the lineage between them, and an append-only log
//! of the operations that wrote them.

pub mod text;
pub mod records;
pub mod version_control;
pub mod db_manage;
pub mod lineage;
pub mod integrity;
pub mod api;
pub mod laws;
