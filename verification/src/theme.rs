//! The style side of the library: the CSS-like block parser and the typed
//! property-value parsers.

pub mod color;
pub mod parser;
pub mod value;

use vstd::prelude::*;

verus! {

/// A named accent role for colors, used by style consumers.
#[derive(Debug, Clone, Copy, PartialEq, Eq, Structural)]
pub enum ColorVariant {
    Normal,
    Success,
    Warn,
    Alert,
    Muted,
}

/// Where a theme's style sheets live: a directory path and an optional
/// overrides path, both held as plain text for the caller's file layer.
#[derive(Debug, Clone, PartialEq, Eq)]
pub struct ThemeOptions {
    pub path: Vec<char>,
    pub overrides: Option<Vec<char>>,
}

impl ThemeOptions {
    /// Options pointing at `path`, with no overrides.
    pub fn with_path(path: Vec<char>) -> (r: ThemeOptions)
        ensures
            r.path@ == path@,
            r.overrides is None,
    {
        ThemeOptions { path, overrides: None }
    }

    /// The same options with an overrides path.
    pub fn overrides(self, path: Vec<char>) -> (r: ThemeOptions)
        ensures
            r.path@ == self.path@,
            match r.overrides {
                Some(p) => p@ == path@,
                None => false,
            },
    {
        ThemeOptions { path: self.path, overrides: Some(path) }
    }
}

} // verus!
