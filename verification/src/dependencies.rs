//! Dependencies of a style sheet on other files.

use vstd::prelude::*;

verus! {

/// A dependency that printing found in a style sheet.
#[derive(Debug)]
pub enum Dependency {
    /// An `@import` of another style sheet.
    Import {
        /// The url of the imported style sheet.
        url: String,
    },
    /// A `url()` reference to another file.
    Url {
        /// The url of the file.
        url: String,
    },
}

} // verus!
