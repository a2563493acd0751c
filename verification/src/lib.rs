//! Discovery and selection of installed web browsers.
//!
//! The crate probes the executable search path, well-known install
//! directories and (where a platform offers one) a registry of browser
//! handlers, merges the candidates into a list that is unique by resolved
//! path, lets a caller pick one of them, and persists the choice so that
//! later runs can skip the probing.

use vstd::prelude::*;

pub mod aliases;
pub mod config;
pub mod dedup;
pub mod json;
pub mod links;
pub mod menu;
pub mod probe;
pub mod quickprobe;
pub mod report;
pub mod select;
pub mod sys;
pub mod text;

verus! {

/// A discovered browser. `path` is the identity used for deduplication;
/// `name` and `version` are descriptive only.
#[derive(Debug, Clone, PartialEq)]
pub struct Browser {
    pub name: String,
    pub path: String,
    pub version: Option<String>,
}

/// Mathematical image of a [`Browser`]: the three fields as sequences.
pub struct BrowserView {
    pub name: Seq<char>,
    pub path: Seq<char>,
    pub version: Option<Seq<char>>,
}

impl Browser {
    /// A record for a candidate found at `path`: the path is put into
    /// canonical form where the OS resolves it, and no version is attached
    /// yet.
    pub fn new(name: &str, path: &str) -> (r: Browser)
        ensures
            r@.name == name@,
            r@.version is None,
    {
        Browser { name: name.to_owned(), path: crate::sys::normalize_path(path), version: None }
    }

    /// An equal record: same name, path and version.
    pub fn duplicate(&self) -> (r: Browser)
        ensures
            r == *self,
    {
        Browser {
            name: self.name.clone(),
            path: self.path.clone(),
            version: match &self.version {
                Some(v) => Some(v.clone()),
                None => None,
            },
        }
    }
}

impl View for Browser {
    type V = BrowserView;

    open spec fn view(&self) -> BrowserView {
        BrowserView {
            name: self.name@,
            path: self.path@,
            version: match self.version {
                Some(v) => Some(v@),
                None => None,
            },
        }
    }
}

} // verus!
