//! CSS Modules scoping and the style sheet lifecycle (parse, minify, print).

pub mod context;
pub mod css_modules;
pub mod dependencies;
pub mod error;
pub mod printer;
pub mod properties;
pub mod rules;
pub mod selector;
pub mod serializer;
pub mod stylesheet;
pub mod targets;
