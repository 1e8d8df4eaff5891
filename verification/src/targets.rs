//! Browser targets.

use vstd::prelude::*;

verus! {

/// What the browsers that a style sheet is compiled for are able to do.
#[derive(Clone, Copy, Debug, PartialEq, Eq, Structural)]
pub struct Browsers {
    /// Whether they know `@custom-media` rules and the queries that refer to them.
    pub custom_media_queries: bool,
}

/// A feature of CSS that some browsers lack.
#[derive(Clone, Copy, Debug, PartialEq, Eq, Structural)]
pub enum Feature {
    /// `@custom-media` rules.
    CustomMediaQueries,
}

impl Feature {
    /// Whether all of `browsers` support the feature.
    pub fn is_compatible(&self, browsers: Browsers) -> (supported: bool)
        ensures
            supported == browsers.custom_media_queries,
    {
        match self {
            Feature::CustomMediaQueries => browsers.custom_media_queries,
        }
    }
}

} // verus!
