//! The directory loader: one level of children, keyed by derived name;
//! the recursion over the filesystem happens outside, one `detect` and
//! one load per entry.

use crate::loader::{
    children_map, children_view, content_wf, file_name_of, insert_child, lemma_children_map_unique,
    metadata_parent_spec, BodyProvider, Content, Metadata,
};
use vstd::prelude::*;

verus! {

/// Loads one directory as a content node aggregating its children.
pub struct DirectoryLoader {
    /// The content root the node's parent is computed against.
    pub root: String,
    /// The directory's path.
    pub path: String,
}

impl DirectoryLoader {
    /// A loader for one directory under the given content root.
    pub fn new(root: &str, path: &str) -> (s: Self)
        ensures
            s.root@ == root@,
            s.path@ == path@,
    {
        DirectoryLoader { root: root.to_owned(), path: path.to_owned() }
    }

    /// Assembles the directory node from its loaded children, taken in
    /// loading order: each child is filed under its derived name, and a
    /// later child with a name already taken replaces the earlier one.
    #[verifier::loop_isolation(false)]
    pub fn assemble(&self, children: Vec<Content>) -> (c: Content)
        ensures
            c.content matches BodyProvider::Directory(m) && children_view(m@) == children_map(
                children@,
            ),
            c.front_matter@.len() == 0,
            c.metadata.name@ == file_name_of(self.path@),
            c.metadata.parent@ == metadata_parent_spec(self.root@, self.path@),
            c.metadata.filename@ == file_name_of(self.path@),
            c.metadata.node_type@ == "directory"@,
            (forall|i: int| 0 <= i < children@.len() ==> content_wf(#[trigger] children@[i]))
                ==> content_wf(c),
    {
        let ghost orig = children@;
        let mut rest = children;
        let mut m: Vec<(String, Content)> = Vec::new();
        proof {
            assert(children_view(m@) =~= children_map(orig.take(0)));
            assert(rest@ =~= orig.skip(0));
        }
        let n = rest.len();
        let mut i: usize = 0;
        while i < n
            invariant
                0 <= i <= n,
                n == orig.len(),
                rest@ == orig.skip(i as int),
                children_view(m@) == children_map(orig.take(i as int)),
                forall|k: int|
                    0 <= k < m@.len() ==> exists|j: int|
                        0 <= j < i && #[trigger] m@[k].1 == orig[j],
            decreases n - i,
        {
            let ghost pre = orig.take(i as int);
            let ghost cur = orig.take(i + 1);
            proof {
                assert(cur.drop_last() =~= pre);
                assert(cur.last() == orig[i as int]);
            }
            let child = rest.remove(0);
            proof {
                assert(child == orig[i as int]);
                assert(rest@ =~= orig.skip(i + 1));
            }
            let ghost before = m@;
            insert_child(&mut m, child);
            proof {
                assert forall|k: int| 0 <= k < m@.len() implies exists|j: int|
                    0 <= j < i + 1 && #[trigger] m@[k].1 == orig[j] by {
                    if m@[k].1 == child {
                        assert(m@[k].1 == orig[i as int]);
                    } else {
                        let jj = choose|jj: int| 0 <= jj < before.len() && m@[k].1 == before[jj].1;
                        assert(exists|j: int| 0 <= j < i && before[jj].1 == orig[j]);
                    }
                }
            }
            i += 1;
        }
        proof {
            assert(orig.take(n as int) =~= orig);
        }
        let base = Metadata::from_path(self.root.as_str(), self.path.as_str(), None, "directory");
        let name = base.filename.clone();
        let metadata = Metadata {
            name,
            parent: base.parent,
            filename: base.filename,
            node_type: base.node_type,
        };
        let c = Content { metadata, front_matter: Vec::new(), content: BodyProvider::Directory(m) };
        proof {
            if forall|i: int| 0 <= i < children@.len() ==> content_wf(#[trigger] children@[i]) {
                lemma_children_map_unique(orig);
                assert(crate::value::obj_sorted(children_view(m@)));
                assert forall|k: int| 0 <= k < m@.len() implies content_wf(
                    #[trigger] m@[k].1,
                ) by {
                    let j = choose|j: int| 0 <= j < n && m@[k].1 == orig[j];
                    assert(content_wf(orig[j]));
                }
                assert(crate::value::pairs_view(c.front_matter@) =~= Seq::<
                    (Seq<char>, crate::value::ValView),
                >::empty());
            }
        }
        c
    }
}

} // verus!
