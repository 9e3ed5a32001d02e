//! The YAML loader, and the trusted parser every loader's front matter
//! goes through.

use crate::error::GeneratorError;
use crate::interop::json_to_value;
use crate::loader::{
    file_name_of, metadata_parent_spec, stem_of, BodyProvider, Content, Metadata,
};
use crate::value::{canon_spec, canon_value, lemma_canon_wf, ValView};
use crate::value::Json;
use vstd::prelude::*;

verus! {

/// What parsing the text as one YAML document yields, in the library's
/// value model; nothing when the text is not a valid document.
pub uninterp spec fn yaml_doc_of(s: Seq<char>) -> Option<ValView>;

/// Relies on `serde_yaml::from_str::<serde_json::Value>`: parses one
/// YAML document into a JSON value, failing exactly on text that is not
/// a valid document. Nothing is promised of the order of a parsed
/// mapping's entries (in this build the underlying map keeps insertion
/// order): callers canonicalize.
#[verifier::external_body]
pub(crate) fn parse_yaml_value(s: &str) -> (r: Result<Json, String>)
    ensures
        r matches Ok(v) ==> yaml_doc_of(s@) == Some(v@),
        r matches Err(_) ==> yaml_doc_of(s@) is None,
{
    match serde_yaml::from_str::<serde_json::Value>(s) {
        Ok(v) => Ok(json_to_value(&v)),
        Err(e) => Err(e.to_string()),
    }
}

/// Loads one `.yaml` / `.yml` file as a content node.
pub struct YAMLLoader {
    /// The content root the node's parent is computed against.
    pub root: String,
    /// The file's path.
    pub path: String,
}

impl YAMLLoader {
    /// A loader for one YAML file under the given content root.
    pub fn new(root: &str, path: &str) -> (s: Self)
        ensures
            s.root@ == root@,
            s.path@ == path@,
    {
        YAMLLoader { root: root.to_owned(), path: path.to_owned() }
    }

    /// Builds the node from the file's text: the parsed document,
    /// canonicalized, is the whole body, the front matter is empty, and
    /// the node is named after the file's stem. Fails exactly when the
    /// document does not parse.
    pub fn load(&self, data: &str) -> (r: Result<Content, GeneratorError>)
        ensures
            r matches Ok(c) ==> {
                &&& yaml_doc_of(data@) matches Some(doc) && c.content matches BodyProvider::Json(
                    b,
                ) && b@ == canon_spec(doc)
                &&& c.front_matter@.len() == 0
                &&& c.metadata.name@ == stem_of(file_name_of(self.path@))
                &&& c.metadata.parent@ == metadata_parent_spec(self.root@, self.path@)
                &&& c.metadata.filename@ == file_name_of(self.path@)
                &&& c.metadata.node_type@ == "yaml"@
                &&& crate::loader::content_wf(c)
            },
            r matches Err(e) ==> yaml_doc_of(data@) is None && e is Parse,
    {
        let raw = match parse_yaml_value(data) {
            Ok(v) => v,
            Err(m) => {
                return Err(GeneratorError::Parse(m));
            },
        };
        let doc = canon_value(&raw);
        proof {
            lemma_canon_wf(raw@);
        }
        let (stem, _) = crate::loader::split_extension(self.path.as_str());
        let metadata = Metadata::from_path(
            self.root.as_str(),
            self.path.as_str(),
            Some(stem.as_str()),
            "yaml",
        );
        let c = Content { metadata, front_matter: Vec::new(), content: BodyProvider::Json(doc) };
        proof {
            assert(crate::value::pairs_view(c.front_matter@) =~= Seq::<
                (Seq<char>, ValView),
            >::empty());
        }
        Ok(c)
    }
}

} // verus!
