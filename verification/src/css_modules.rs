//! CSS module exports.
//!
//! CSS modules are a way of locally scoping names in a CSS file: class names,
//! ids and other custom identifiers. When a style sheet is printed with CSS
//! modules enabled, every declared name is compiled through a [`Pattern`],
//! references to it are rewritten accordingly, and a table from the original
//! names to the compiled names is handed back.

pub mod exports;
pub mod hash;
pub mod pattern;
pub mod scope;

pub use exports::{
    CssModuleExport, CssModuleExportView, CssModuleExports, CssModuleReference,
    CssModuleReferenceView, CssModuleReferences,
};
pub use hash::{get_hashed_name, hash, token_from_hash};
pub use scope::{CssModule, Naming};
pub use pattern::{base_name, Config, Pattern, Segment, SegmentList, SegmentView};
