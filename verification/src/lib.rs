//! Safe access to an embedded relational engine's procedural query-execution
//! interface.
//!
//! The engine interface itself is a global-state, C-style API: a single
//! process-wide result slot, manual allocation arenas tied to nested
//! connection scopes, and binary values whose type is known only at run time
//! through a type identifier.  This crate reconciles those hazards behind a
//! safe, verified layer:
//!
//! - [`engine::Engine`] holds the engine-interface state as an explicit value:
//!   the connection nesting depth, the single result slot and row-count slot,
//!   the open portals, and the installed statements and tables that determine
//!   what each statement returns.
//! - [`client::Spi`] and [`client::SpiClient`] manage connection scopes and
//!   issue statements; every enter of a scope is matched by exactly one exit.
//! - [`table::SpiTupleTable`] owns a snapshot of result rows and provides
//!   positional navigation and typed extraction.
//! - [`cursor::SpiCursor`] is a named, resumable handle over a server-side
//!   query, fetched incrementally in batches.
//! - [`row::SpiHeapTupleData`] is a decoded view of one row, with fields
//!   addressed by 1-based ordinal or by name.

pub mod args;
pub mod client;
pub mod cursor;
pub mod datum;
pub mod engine;
pub mod name;
pub mod row;
pub mod status;
pub mod table;

pub use client::Spi;
pub use client::SpiClient;
pub use cursor::SpiCursor;
pub use datum::Datum;
pub use datum::FromDatum;
pub use datum::IntoDatum;
pub use engine::Engine;
pub use name::Name;
pub use name::NameBytes;
pub use row::SpiHeapTupleData;
pub use row::SpiHeapTupleDataEntry;
pub use status::SpiError;
pub use status::SpiOk;
pub use table::SpiTupleTable;
