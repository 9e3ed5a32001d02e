//! The plain-text loader: a configurable type tag, and front matter
//! only when asked for.

use crate::error::GeneratorError;
use crate::loader::{load_text_content, text_load_fails, text_load_ok, Content};
use vstd::prelude::*;

verus! {

/// Loads one text file of a configured type as a content node.
pub struct PlainLoader {
    /// The content root the node's parent is computed against.
    pub root: String,
    /// The file's path.
    pub path: String,
    /// The type tag the node carries.
    pub node_type: String,
    /// Whether a leading front-matter block is split off and parsed.
    pub with_front_matter: bool,
}

impl PlainLoader {
    /// A loader for one text file under the given content root.
    pub fn new(root: &str, path: &str, node_type: &str, with_front_matter: bool) -> (s: Self)
        ensures
            s.root@ == root@,
            s.path@ == path@,
            s.node_type@ == node_type@,
            s.with_front_matter == with_front_matter,
    {
        PlainLoader {
            root: root.to_owned(),
            path: path.to_owned(),
            node_type: node_type.to_owned(),
            with_front_matter,
        }
    }

    /// Builds the node from the file's text; front matter is honoured
    /// only when the loader was made with it. Fails exactly when a
    /// present front-matter block is not a YAML mapping.
    pub fn load(&self, data: &str) -> (r: Result<Content, GeneratorError>)
        ensures
            r matches Ok(c) ==> text_load_ok(
                c,
                self.root@,
                self.path@,
                self.node_type@,
                self.with_front_matter,
                data@,
            ) && !text_load_fails(self.with_front_matter, data@) && crate::loader::content_wf(c),
            r matches Err(e) ==> text_load_fails(self.with_front_matter, data@) && e is Parse,
    {
        load_text_content(
            self.root.as_str(),
            self.path.as_str(),
            self.node_type.as_str(),
            self.with_front_matter,
            data,
        )
    }
}

} // verus!
