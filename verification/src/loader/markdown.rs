//! The Markdown loader: front matter split off, the raw Markdown text
//! kept as the body (rendering to HTML happens later, on demand, in a
//! template helper).

use crate::error::GeneratorError;
use crate::loader::{load_text_content, text_load_fails, text_load_ok, Content};
use vstd::prelude::*;

verus! {

/// Loads one `.md` file as a content node.
pub struct MarkdownLoader {
    /// The content root the node's parent is computed against.
    pub root: String,
    /// The file's path.
    pub path: String,
}

impl MarkdownLoader {
    /// A loader for one Markdown file under the given content root.
    pub fn new(root: &str, path: &str) -> (s: Self)
        ensures
            s.root@ == root@,
            s.path@ == path@,
    {
        MarkdownLoader { root: root.to_owned(), path: path.to_owned() }
    }

    /// Builds the node from the file's text: optional front matter is
    /// split off and parsed, the remaining Markdown is the body. Fails
    /// exactly when a present front-matter block is not a YAML mapping.
    pub fn load(&self, data: &str) -> (r: Result<Content, GeneratorError>)
        ensures
            r matches Ok(c) ==> text_load_ok(c, self.root@, self.path@, "md"@, true, data@)
                && !text_load_fails(true, data@) && crate::loader::content_wf(c),
            r matches Err(e) ==> text_load_fails(true, data@) && e is Parse,
    {
        load_text_content(self.root.as_str(), self.path.as_str(), "md", true, data)
    }
}

} // verus!
