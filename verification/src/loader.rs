//! The content tree: node metadata, content nodes with front matter and
//! a body, and the loaders that turn one file's text (or one directory's
//! children) into a node.

use crate::text;
use crate::value::{lex_lt, obj_insert_spec, obj_lookup, obj_sorted, pairs_view, wf_value, ValView, Json};
use vstd::prelude::*;

pub mod directory;
pub mod front_matter;
pub mod html;
pub mod markdown;
pub mod plain;
pub mod yaml;

verus! {

/// The index of the last path separator, `-1` when there is none.
pub open spec fn last_slash_idx(p: Seq<char>) -> int
    decreases p.len(),
{
    if p.len() == 0 {
        -1
    } else if p.last() == '/' {
        p.len() - 1
    } else {
        last_slash_idx(p.drop_last())
    }
}

/// The parent directory of a path: everything before the last separator,
/// `/` when that separator leads, empty when there is no separator.
pub open spec fn parent_of(p: Seq<char>) -> Seq<char> {
    let i = last_slash_idx(p);
    if i < 0 {
        Seq::empty()
    } else if i == 0 {
        seq!['/']
    } else {
        p.take(i)
    }
}

/// The last path component.
pub open spec fn file_name_of(p: Seq<char>) -> Seq<char> {
    p.skip(last_slash_idx(p) + 1)
}

/// The root-relative parent a node is filed under: the root itself maps
/// to `/`; below it, the parent directory with the root prefix stripped
/// (kept whole when the root is no prefix of it).
pub open spec fn metadata_parent_spec(root: Seq<char>, path: Seq<char>) -> Seq<char> {
    if path == root {
        seq!['/']
    } else {
        let par = parent_of(path);
        if par.len() >= root.len() && par.take(root.len() as int) == root {
            if par.len() == root.len() {
                seq!['/']
            } else {
                par.skip(root.len() as int)
            }
        } else {
            par
        }
    }
}

/// Where the last separator of a path stands.
pub proof fn lemma_last_slash(p: Seq<char>, i: int)
    requires
        0 <= i < p.len(),
        p[i] == '/',
        forall|k: int| i < k < p.len() ==> p[k] != '/',
    ensures
        last_slash_idx(p) == i,
    decreases p.len(),
{
    if i == p.len() - 1 {
    } else {
        assert(p.last() != '/');
        assert(p.drop_last()[i] == p[i]);
        assert(forall|k: int| i < k < p.len() - 1 ==> p.drop_last()[k] == p[k]);
        lemma_last_slash(p.drop_last(), i);
    }
}

/// A path without separators has none to find.
pub proof fn lemma_no_slash(p: Seq<char>)
    requires
        forall|k: int| 0 <= k < p.len() ==> p[k] != '/',
    ensures
        last_slash_idx(p) == -1,
    decreases p.len(),
{
    if p.len() > 0 {
        assert(forall|k: int| 0 <= k < p.len() - 1 ==> p.drop_last()[k] == p[k]);
        lemma_no_slash(p.drop_last());
    }
}

/// The index of the last separator, as `Some` position.
#[verifier::loop_isolation(false)]
pub fn rfind_slash(s: &Vec<char>) -> (r: Option<usize>)
    ensures
        match r {
            Some(i) => last_slash_idx(s@) == i && i < s@.len(),
            None => last_slash_idx(s@) == -1,
        },
{
    let n = s.len();
    let mut j = n;
    while j > 0
        invariant
            0 <= j <= n,
            n == s@.len(),
            forall|k: int| j <= k < n ==> s@[k] != '/',
        decreases j,
    {
        j -= 1;
        if s[j] == '/' {
            proof {
                lemma_last_slash(s@, j as int);
            }
            return Some(j);
        }
    }
    proof {
        lemma_no_slash(s@);
    }
    None
}

/// Location information of one content node.
pub struct Metadata {
    /// The node's derived name (file stem or directory name).
    pub name: String,
    /// The root-relative directory the node sits in.
    pub parent: String,
    /// The last component of the node's path.
    pub filename: String,
    /// The loader kind tag (`md`, `yaml`, `html`, `directory`, ...).
    pub node_type: String,
}

impl Metadata {
    /// Reads a node's location from its filesystem path: the parent is
    /// the path's directory with the content-root prefix stripped.
    #[verifier::loop_isolation(false)]
    pub fn from_path(root: &str, path: &str, name: Option<&str>, node_type: &str) -> (m: Metadata)
        ensures
            m.parent@ == metadata_parent_spec(root@, path@),
            m.name@ == match name {
                Some(n) => n@,
                None => Seq::<char>::empty(),
            },
            m.filename@ == file_name_of(path@),
            m.node_type@ == node_type@,
    {
        let pcs = text::str_chars(path);
        let n = pcs.len();
        // find the last separator
        let mut idx: usize = n;  // n means: none found
        let mut j = n;
        while j > 0
            invariant
                0 <= j <= n,
                n == path@.len(),
                pcs@ == path@,
                idx == n,
                forall|k: int| j <= k < n ==> path@[k] != '/',
            decreases j,
        {
            j -= 1;
            if pcs[j] == '/' {
                idx = j;
                break ;
            }
        }
        proof {
            if idx < n {
                lemma_last_slash(path@, idx as int);
            } else {
                lemma_no_slash(path@);
            }
        }
        let filename = if idx < n {
            text::chars_string(vstd::slice::slice_subrange(pcs.as_slice(), idx + 1, n))
        } else {
            text::chars_string(pcs.as_slice())
        };
        proof {
            if idx == n {
                assert(path@.skip(0) =~= path@);
            }
        }
        // the raw parent directory
        let par: Vec<char> = if idx == n {
            Vec::new()
        } else if idx == 0 {
            let mut v: Vec<char> = Vec::new();
            v.push('/');
            proof {
                assert(v@ =~= seq!['/']);
            }
            v
        } else {
            vstd::slice::slice_to_vec(vstd::slice::slice_subrange(pcs.as_slice(), 0, idx))
        };
        proof {
            assert(par@ == parent_of(path@));
        }
        // strip the root prefix
        let rcs = text::str_chars(root);
        let parent: String = if text::str_eq(path, root) {
            let mut v: Vec<char> = Vec::new();
            v.push('/');
            proof {
                assert(v@ =~= seq!['/']);
            }
            text::chars_string(v.as_slice())
        } else if par.len() >= rcs.len() && text::chars_prefix(&par, &rcs) {
            if par.len() == rcs.len() {
                let mut v: Vec<char> = Vec::new();
                v.push('/');
                proof {
                    assert(v@ =~= seq!['/']);
                }
                text::chars_string(v.as_slice())
            } else {
                text::chars_string(
                    vstd::slice::slice_subrange(par.as_slice(), rcs.len(), par.len()),
                )
            }
        } else {
            text::chars_string(par.as_slice())
        };
        let m = Metadata {
            name: match name {
                Some(s) => s.to_owned(),
                None => String::new(),
            },
            parent,
            filename,
            node_type: node_type.to_owned(),
        };
        m
    }

    /// The metadata as a value: an object of its four fields.
    pub fn to_value(&self) -> (r: Json)
        ensures
            r@ == metadata_view(self),
    {
        let mut pairs: Vec<(String, Json)> = Vec::new();
        pairs.push((String::from_str("filename"), Json::Str(self.filename.clone())));
        pairs.push((String::from_str("name"), Json::Str(self.name.clone())));
        pairs.push((String::from_str("parent"), Json::Str(self.parent.clone())));
        pairs.push((String::from_str("type"), Json::Str(self.node_type.clone())));
        let r = Json::Obj(pairs);
        proof {
            reveal_strlit("filename");
            reveal_strlit("name");
            reveal_strlit("parent");
            reveal_strlit("type");
            assert(pairs_view(pairs@) =~= seq![
                ("filename"@, ValView::Str(self.filename@)),
                ("name"@, ValView::Str(self.name@)),
                ("parent"@, ValView::Str(self.parent@)),
                ("type"@, ValView::Str(self.node_type@)),
            ]);
        }
        r
    }
}

/// The value form of a node's metadata.
pub open spec fn metadata_view(m: &Metadata) -> ValView {
    ValView::Obj(
        seq![
            ("filename"@, ValView::Str(m.filename@)),
            ("name"@, ValView::Str(m.name@)),
            ("parent"@, ValView::Str(m.parent@)),
            ("type"@, ValView::Str(m.node_type@)),
        ],
    )
}

/// Below the root, the computed parent is the path's parent directory
/// with exactly the root prefix stripped, and begins with `/`; the root
/// itself maps to `/`.
pub proof fn lemma_metadata_parent_under_root(root: Seq<char>, path: Seq<char>)
    requires
        path.len() > root.len(),
        path.take(root.len() as int) == root,
        path[root.len() as int] == '/',
    ensures
        metadata_parent_spec(root, root) == seq!['/'],
        metadata_parent_spec(root, path).len() > 0,
        metadata_parent_spec(root, path)[0] == '/',
        parent_of(path).take(root.len() as int) == root,
        metadata_parent_spec(root, path) == parent_of(path).skip(root.len() as int)
            || (parent_of(path) == root && metadata_parent_spec(root, path) == seq!['/']),
{
    let i = last_slash_idx(path);
    assert(i >= root.len()) by {
        lemma_last_slash_ge(path, root.len() as int);
    }
    lemma_last_slash_bounds(path);
    let par = parent_of(path);
    if i == 0 {
        // the separator found is at the start: the root is empty
        assert(root.len() == 0);
        assert(par =~= seq!['/']);
        assert(par.take(0) =~= root);
        assert(par.skip(0) =~= par);
    } else {
        assert(par == path.take(i));
        assert(par.len() == i);
        assert(i >= root.len());
        assert forall|k: int| 0 <= k < root.len() implies par.take(root.len() as int)[k]
            == path.take(root.len() as int)[k] by {
            assert(par[k] == path[k]);
        }
        assert(par.take(root.len() as int) =~= path.take(root.len() as int));
        if par.len() == root.len() {
            assert(par =~= root);
        } else {
            assert(par.skip(root.len() as int)[0] == path[root.len() as int]);
        }
    }
}

/// The last separator index lies in the path.
pub proof fn lemma_last_slash_bounds(p: Seq<char>)
    ensures
        -1 <= last_slash_idx(p) < p.len(),
    decreases p.len(),
{
    if p.len() > 0 && p.last() != '/' {
        lemma_last_slash_bounds(p.drop_last());
    }
}

/// A separator at some index bounds the last separator from below.
pub proof fn lemma_last_slash_ge(p: Seq<char>, i: int)
    requires
        0 <= i < p.len(),
        p[i] == '/',
    ensures
        last_slash_idx(p) >= i,
    decreases p.len(),
{
    if p.last() == '/' {
    } else {
        assert(i < p.len() - 1);
        assert(p.drop_last()[i] == p[i]);
        lemma_last_slash_ge(p.drop_last(), i);
    }
}

/// The body of a content node: a literal value for a file, the named
/// children for a directory.
pub enum BodyProvider {
    /// A literal value: the file's text body or its parsed document.
    Json(Json),
    /// A directory's children, keyed by derived name, sorted, unique.
    Directory(Vec<(String, Content)>),
}

/// One node of the content tree.
pub struct Content {
    /// Where the node was loaded from.
    pub metadata: Metadata,
    /// The node's front-matter entries.
    pub front_matter: Vec<(String, Json)>,
    /// The node's body.
    pub content: BodyProvider,
}

/// The value a node's body serializes to.
pub open spec fn body_value(b: BodyProvider) -> ValView
    decreases b,
{
    match b {
        BodyProvider::Json(v) => v@,
        BodyProvider::Directory(children) => ValView::Obj(children_view(children@)),
    }
}

/// The children of a directory as object entries, each child under its
/// name, serialized.
pub open spec fn children_view(cs: Seq<(String, Content)>) -> Seq<(Seq<char>, ValView)>
    decreases cs,
{
    Seq::new(
        cs.len(),
        |i: int|
            if 0 <= i < cs.len() {
                (cs[i].0@, content_value(cs[i].1))
            } else {
                (Seq::empty(), ValView::Null)
            },
    )
}

/// The value a content node serializes to: an object of its metadata,
/// its front matter, and its body under `content`.
pub open spec fn content_value(c: Content) -> ValView
    decreases c,
{
    ValView::Obj(
        seq![
            ("content"@, body_value(c.content)),
            ("frontMatter"@, ValView::Obj(pairs_view(c.front_matter@))),
            ("metadata"@, metadata_view(&c.metadata)),
        ],
    )
}

impl Content {
    /// Serializes the node: an object holding its body under `content`,
    /// its front matter under `frontMatter`, and its metadata.
    #[verifier::loop_isolation(false)]
    pub fn to_value(&self) -> (r: Json)
        ensures
            r@ == content_value(*self),
        decreases self,
    {
        let body: Json = match &self.content {
            BodyProvider::Json(v) => v.deep_clone(),
            BodyProvider::Directory(children) => {
                let mut pairs: Vec<(String, Json)> = Vec::new();
                let n = children.len();
                for i in 0..n
                    invariant
                        n == children@.len(),
                        pairs@.len() == i,
                        forall|k: int|
                            0 <= k < i ==> #[trigger] pairs@[k].0@ == children@[k].0@
                                && pairs@[k].1@ == content_value(children@[k].1),
                {
                    let name = children[i].0.clone();
                    let v = children[i].1.to_value();
                    pairs.push((name, v));
                }
                proof {
                    assert(pairs_view(pairs@) =~= children_view(children@));
                }
                Json::Obj(pairs)
            },
        };
        let fm = crate::value::clone_pairs(&self.front_matter);
        let mut pairs: Vec<(String, Json)> = Vec::new();
        pairs.push((String::from_str("content"), body));
        pairs.push((String::from_str("frontMatter"), Json::Obj(fm)));
        pairs.push((String::from_str("metadata"), self.metadata.to_value()));
        let r = Json::Obj(pairs);
        proof {
            reveal_strlit("content");
            reveal_strlit("frontMatter");
            reveal_strlit("metadata");
            assert(pairs_view(pairs@) =~= content_value(*self)->Obj_0);
        }
        r
    }
}

/// Serializing preserves a node exactly: its value holds the front
/// matter unchanged, a file's literal body unchanged, each directory
/// child's serialized value under the child's name, and the metadata.
pub proof fn lemma_to_value_round_trip(c: Content)
    ensures
        obj_lookup(content_value(c)->Obj_0, "frontMatter"@) == Some(
            ValView::Obj(pairs_view(c.front_matter@)),
        ),
        obj_lookup(content_value(c)->Obj_0, "content"@) == Some(body_value(c.content)),
        obj_lookup(content_value(c)->Obj_0, "metadata"@) == Some(metadata_view(&c.metadata)),
        c.content matches BodyProvider::Json(v) ==> body_value(c.content) == v@,
        c.content matches BodyProvider::Directory(children) ==> body_value(c.content)
            == ValView::Obj(children_view(children@)) && forall|i: int|
            0 <= i < children@.len() ==> children_view(children@)[i] == (
            children@[i].0@,
            content_value(children@[i].1),
        ),
{
    reveal_strlit("content");
    reveal_strlit("frontMatter");
    reveal_strlit("metadata");
    let entries = content_value(c)->Obj_0;
    assert("content"@.len() == 7);
    assert("frontMatter"@.len() == 11);
    assert("metadata"@.len() == 8);
    assert("content"@ != "frontMatter"@ && "content"@ != "metadata"@ && "frontMatter"@
        != "metadata"@);
    assert(entries[0].0 == "content"@ && entries[1].0 == "frontMatter"@ && entries[2].0
        == "metadata"@);
    let e1 = entries.skip(1);
    let e2 = entries.skip(2);
    assert(e1[0] == entries[1]);
    assert(e1.skip(1) =~= e2);
    assert(e2[0] == entries[2]);
    assert(obj_lookup(entries, "frontMatter"@) == obj_lookup(e1, "frontMatter"@));
    assert(obj_lookup(e1, "frontMatter"@) == Some(entries[1].1));
    assert(obj_lookup(entries, "metadata"@) == obj_lookup(e1, "metadata"@));
    assert(obj_lookup(e1, "metadata"@) == obj_lookup(e2, "metadata"@));
    assert(obj_lookup(e2, "metadata"@) == Some(entries[2].1));
}

/// The children with one more child put at its name: a child of the
/// same name is replaced, a new name is inserted in key order.
pub open spec fn children_insert(
    cs: Seq<(Seq<char>, ValView)>,
    c: Content,
) -> Seq<(Seq<char>, ValView)> {
    obj_insert_spec(cs, c.metadata.name@, content_value(c))
}

/// The directory mapping that a left-to-right load of the children
/// produces: each child under its derived name, a later child with a
/// name already taken replacing the earlier one.
pub open spec fn children_map(cs: Seq<Content>) -> Seq<(Seq<char>, ValView)>
    decreases cs.len(),
{
    if cs.len() == 0 {
        Seq::empty()
    } else {
        children_insert(children_map(cs.drop_last()), cs.last())
    }
}

/// Puts one loaded child into a directory's child list, under its
/// derived name, replacing any child already holding that name.
#[verifier::loop_isolation(false)]
pub fn insert_child(children: &mut Vec<(String, Content)>, child: Content)
    ensures
        children_view(final(children)@) == children_insert(
            children_view(old(children)@),
            child,
        ),
        forall|k: int|
            0 <= k < final(children)@.len() ==> (#[trigger] final(children)@[k].1 == child
                || exists|j: int|
                0 <= j < old(children)@.len() && final(children)@[k].1 == old(
                    children,
                )@[j].1),
{
    let ghost orig = children_view(old(children)@);
    let ghost key = child.metadata.name@;
    let n = children.len();
    let mut i: usize = 0;
    loop
        invariant
            0 <= i <= n,
            n == children@.len(),
            *children == *old(children),
            forall|k: int| 0 <= k < i ==> lex_lt(#[trigger] orig[k].0, key),
        decreases n - i,
    {
        if i >= n {
            break ;
        }
        if !text::str_lt(children[i].0.as_str(), child.metadata.name.as_str()) {
            break ;
        }
        assert(orig[i as int].0 == children@[i as int].0@);
        i += 1;
    }
    proof {
        crate::value::lemma_obj_insert_at(orig, key, content_value(child), i as int);
    }
    if i < n && text::str_eq(children[i].0.as_str(), child.metadata.name.as_str()) {
        children.remove(i);
        let name = child.metadata.name.clone();
        children.insert(i, (name, child));
        proof {
            assert(children_view(children@) =~= orig.take(i as int) + seq![
                (key, content_value(children@[i as int].1)),
            ] + orig.skip(i as int + 1));
        }
    } else {
        let name = child.metadata.name.clone();
        children.insert(i, (name, child));
        proof {
            assert(children_view(children@) =~= orig.take(i as int) + seq![
                (key, content_value(children@[i as int].1)),
            ] + orig.skip(i as int));
        }
    }
}

/// A well-formed content node: its front matter is a sorted mapping of
/// well-formed values, its literal body is well-formed, and a
/// directory's children are a sorted mapping of well-formed nodes.
pub open spec fn content_wf(c: Content) -> bool
    decreases c,
{
    &&& obj_sorted(pairs_view(c.front_matter@))
    &&& (forall|i: int|
        0 <= i < c.front_matter@.len() ==> wf_value(#[trigger] pairs_view(c.front_matter@)[i].1))
    &&& match c.content {
        BodyProvider::Json(v) => wf_value(v@),
        BodyProvider::Directory(children) => obj_sorted(children_view(children@)) && (forall|
            i: int,
        |
            0 <= i < children@.len() ==> content_wf(#[trigger] children@[i].1)),
    }
}

/// A well-formed node serializes to a well-formed value: every object
/// in the result, the node's own wrapper included, keeps its entries
/// sorted and unique.
pub proof fn lemma_to_value_wf(c: Content)
    requires
        content_wf(c),
    ensures
        wf_value(content_value(c)),
    decreases c,
{
    reveal_strlit("content");
    reveal_strlit("frontMatter");
    reveal_strlit("metadata");
    reveal_strlit("filename");
    reveal_strlit("name");
    reveal_strlit("parent");
    reveal_strlit("type");
    let top = content_value(c)->Obj_0;
    assert(lex_lt("content"@, "frontMatter"@));
    assert(lex_lt("frontMatter"@, "metadata"@));
    assert(lex_lt("content"@, "metadata"@));
    assert forall|i: int, j: int| 0 <= i < j < top.len() implies lex_lt(top[i].0, top[j].0) by {}
    // the metadata object's entries stand in name order, all strings
    let meta = metadata_view(&c.metadata)->Obj_0;
    assert(lex_lt("filename"@, "name"@));
    assert(lex_lt("filename"@, "parent"@));
    assert(lex_lt("filename"@, "type"@));
    assert(lex_lt("name"@, "parent"@));
    assert(lex_lt("name"@, "type"@));
    assert(lex_lt("parent"@, "type"@));
    assert forall|i: int, j: int| 0 <= i < j < meta.len() implies lex_lt(meta[i].0, meta[j].0) by {}
    assert forall|i: int| 0 <= i < meta.len() implies wf_value(#[trigger] meta[i].1) by {}
    assert(wf_value(metadata_view(&c.metadata)));
    // the front matter carries its own well-formedness
    assert(wf_value(ValView::Obj(pairs_view(c.front_matter@))));
    // the body: a literal is well-formed by assumption, a directory's
    // children are well-formed nodes serialized under sorted names
    match c.content {
        BodyProvider::Json(_) => {},
        BodyProvider::Directory(children) => {
            let cv = children_view(children@);
            assert forall|i: int| 0 <= i < cv.len() implies wf_value(#[trigger] cv[i].1) by {
                assert(cv[i].1 == content_value(children@[i].1));
                assert(content_wf(children@[i].1));
                lemma_to_value_wf(children@[i].1);
            }
            assert(wf_value(body_value(c.content)));
        },
    }
    assert forall|i: int| 0 <= i < top.len() implies wf_value(#[trigger] top[i].1) by {}
    assert(wf_value(content_value(c)));
}

/// A directory's assembled child mapping is sorted by name, so no two
/// siblings share one: a later child with a taken name replaced the
/// earlier one.
pub proof fn lemma_children_map_unique(cs: Seq<Content>)
    ensures
        crate::value::obj_sorted(children_map(cs)),
        forall|i: int, j: int|
            0 <= i < j < children_map(cs).len() ==> children_map(cs)[i].0 != children_map(
                cs,
            )[j].0,
    decreases cs.len(),
{
    if cs.len() > 0 {
        lemma_children_map_unique(cs.drop_last());
        crate::value::lemma_obj_insert_sorted(
            children_map(cs.drop_last()),
            cs.last().metadata.name@,
            content_value(cs.last()),
        );
    }
    let m = children_map(cs);
    assert forall|i: int, j: int| 0 <= i < j < m.len() implies m[i].0 != m[j].0 by {
        crate::text::lemma_lex_trichotomy(m[i].0, m[j].0);
    }
}

/// The loader kind a path dispatches to.
pub enum LoaderKind {
    /// A directory, loaded by recursing into its entries.
    Directory,
    /// A `.md` file with optional front matter.
    Markdown,
    /// A `.yaml` / `.yml` document.
    Yaml,
    /// An `.html` file with optional front matter.
    Html,
}

/// The index of the last `.` in a file name, `-1` when there is none.
pub open spec fn last_dot_idx(f: Seq<char>) -> int
    decreases f.len(),
{
    if f.len() == 0 {
        -1
    } else if f.last() == '.' {
        f.len() - 1
    } else {
        last_dot_idx(f.drop_last())
    }
}

/// The extension of a file name: what follows the last `.`, unless that
/// dot leads the name or there is none.
pub open spec fn extension_of(f: Seq<char>) -> Option<Seq<char>> {
    if last_dot_idx(f) <= 0 {
        None
    } else {
        Some(f.skip(last_dot_idx(f) + 1))
    }
}

/// The stem of a file name: what precedes the extension.
pub open spec fn stem_of(f: Seq<char>) -> Seq<char> {
    if last_dot_idx(f) <= 0 {
        f
    } else {
        f.take(last_dot_idx(f))
    }
}

/// Which loader a path dispatches to: directories recurse; files go by
/// extension (`yaml`/`yml`, `md`, `html`); anything else is skipped.
pub open spec fn detect_spec(path: Seq<char>, is_dir: bool) -> Option<LoaderKind> {
    if is_dir {
        Some(LoaderKind::Directory)
    } else {
        match extension_of(file_name_of(path)) {
            Some(ext) => if ext == "yaml"@ || ext == "yml"@ {
                Some(LoaderKind::Yaml)
            } else if ext == "md"@ {
                Some(LoaderKind::Markdown)
            } else if ext == "html"@ {
                Some(LoaderKind::Html)
            } else {
                None
            },
            None => None,
        }
    }
}

/// The extension and stem of a path's file name.
#[verifier::loop_isolation(false)]
pub fn split_extension(path: &str) -> (r: (String, Option<String>))
    ensures
        r.0@ == stem_of(file_name_of(path@)),
        match r.1 {
            Some(e) => extension_of(file_name_of(path@)) == Some(e@),
            None => extension_of(file_name_of(path@)) is None,
        },
{
    let pcs = text::str_chars(path);
    let n = pcs.len();
    let mut idx: usize = n;
    let mut j = n;
    while j > 0
        invariant
            0 <= j <= n,
            n == path@.len(),
            pcs@ == path@,
            idx == n,
            forall|k: int| j <= k < n ==> path@[k] != '/',
        decreases j,
    {
        j -= 1;
        if pcs[j] == '/' {
            idx = j;
            break ;
        }
    }
    proof {
        if idx < n {
            lemma_last_slash(path@, idx as int);
        } else {
            lemma_no_slash(path@);
        }
    }
    let fstart = if idx < n {
        idx + 1
    } else {
        0
    };
    let f = vstd::slice::slice_to_vec(vstd::slice::slice_subrange(pcs.as_slice(), fstart, n));
    proof {
        assert(f@ =~= file_name_of(path@));
    }
    let m = f.len();
    let mut dot: usize = m;
    let mut j2 = m;
    while j2 > 0
        invariant
            0 <= j2 <= m,
            m == f@.len(),
            dot == m,
            forall|k: int| j2 <= k < m ==> f@[k] != '.',
        decreases j2,
    {
        j2 -= 1;
        if f[j2] == '.' {
            dot = j2;
            break ;
        }
    }
    proof {
        if dot < m {
            lemma_last_dot(f@, dot as int);
        } else {
            lemma_no_dot(f@);
        }
    }
    if dot == m || dot == 0 {
        let stem = text::chars_string(f.as_slice());
        (stem, None)
    } else {
        let stem = text::chars_string(vstd::slice::slice_subrange(f.as_slice(), 0, dot));
        let ext = text::chars_string(vstd::slice::slice_subrange(f.as_slice(), dot + 1, m));
        (stem, Some(ext))
    }
}

/// Where the last dot of a file name stands.
proof fn lemma_last_dot(f: Seq<char>, i: int)
    requires
        0 <= i < f.len(),
        f[i] == '.',
        forall|k: int| i < k < f.len() ==> f[k] != '.',
    ensures
        last_dot_idx(f) == i,
    decreases f.len(),
{
    if i == f.len() - 1 {
    } else {
        assert(f.last() != '.');
        assert(f.drop_last()[i] == f[i]);
        assert(forall|k: int| i < k < f.len() - 1 ==> f.drop_last()[k] == f[k]);
        lemma_last_dot(f.drop_last(), i);
    }
}

/// A file name without a dot has none to find.
proof fn lemma_no_dot(f: Seq<char>)
    requires
        forall|k: int| 0 <= k < f.len() ==> f[k] != '.',
    ensures
        last_dot_idx(f) == -1,
    decreases f.len(),
{
    if f.len() > 0 {
        assert(forall|k: int| 0 <= k < f.len() - 1 ==> f.drop_last()[k] == f[k]);
        lemma_no_dot(f.drop_last());
    }
}

/// Which loader handles a path: a directory always recurses; a file
/// dispatches on its extension; an unrecognized extension (or none) is
/// silently skipped.
pub fn detect(path: &str, is_dir: bool) -> (r: Option<LoaderKind>)
    ensures
        r == detect_spec(path@, is_dir),
{
    if is_dir {
        return Some(LoaderKind::Directory);
    }
    let (_, ext) = split_extension(path);
    match ext {
        None => None,
        Some(e) => {
            proof {
                reveal_strlit("yaml");
                reveal_strlit("yml");
                reveal_strlit("md");
                reveal_strlit("html");
            }
            if text::str_eq(e.as_str(), "yaml") || text::str_eq(e.as_str(), "yml") {
                Some(LoaderKind::Yaml)
            } else if text::str_eq(e.as_str(), "md") {
                Some(LoaderKind::Markdown)
            } else if text::str_eq(e.as_str(), "html") {
                Some(LoaderKind::Html)
            } else {
                None
            }
        },
    }
}

/// How a text file splits when front matter is honoured (or not).
pub open spec fn split_for(with_fm: bool, data: Seq<char>) -> (Seq<char>, Option<Seq<char>>) {
    if with_fm {
        front_matter::front_matter_split_spec(data)
    } else {
        (data, None)
    }
}

/// What a well-loaded text node holds: the body text as its literal
/// value, the parsed front matter (empty when absent), and metadata
/// computed from the path, named after the file stem.
pub open spec fn text_load_ok(
    c: Content,
    root: Seq<char>,
    path: Seq<char>,
    node_type: Seq<char>,
    with_fm: bool,
    data: Seq<char>,
) -> bool {
    &&& c.content matches BodyProvider::Json(b) && b@ == ValView::Str(split_for(with_fm, data).0)
    &&& match split_for(with_fm, data).1 {
        None => c.front_matter@.len() == 0,
        Some(bl) => crate::loader::yaml::yaml_doc_of(bl) matches Some(d)
            && crate::value::canon_spec(d) == ValView::Obj(pairs_view(c.front_matter@)),
    }
    &&& c.metadata.name@ == stem_of(file_name_of(path))
    &&& c.metadata.parent@ == metadata_parent_spec(root, path)
    &&& c.metadata.filename@ == file_name_of(path)
    &&& c.metadata.node_type@ == node_type
}

/// When loading a text file fails: it has a front-matter block that is
/// not a YAML mapping.
pub open spec fn text_load_fails(with_fm: bool, data: Seq<char>) -> bool {
    match split_for(with_fm, data).1 {
        Some(bl) => match crate::loader::yaml::yaml_doc_of(bl) {
            Some(d) => !(d is Obj),
            None => true,
        },
        None => false,
    }
}

/// Loads a text file as a content node: optionally splits off and
/// parses its front matter, keeps the remaining text as the body, and
/// names the node after the file's stem. Fails exactly when a present
/// front-matter block is not a YAML mapping.
pub fn load_text_content(
    root: &str,
    path: &str,
    node_type: &str,
    with_front_matter: bool,
    data: &str,
) -> (r: Result<Content, crate::error::GeneratorError>)
    ensures
        r matches Ok(c) ==> text_load_ok(c, root@, path@, node_type@, with_front_matter, data@)
            && !text_load_fails(with_front_matter, data@) && content_wf(c),
        r matches Err(e) ==> text_load_fails(with_front_matter, data@) && e is Parse,
{
    let (body, parsed) = if with_front_matter {
        match front_matter::parse_front_matter(data) {
            Ok(p) => p,
            Err(e) => {
                return Err(e);
            },
        }
    } else {
        (data.to_owned(), None)
    };
    let fm: Vec<(String, Json)> = match parsed {
        Some(pairs) => pairs,
        None => Vec::new(),
    };
    let (stem, _) = split_extension(path);
    let metadata = Metadata::from_path(root, path, Some(stem.as_str()), node_type);
    let c = Content {
        metadata,
        front_matter: fm,
        content: BodyProvider::Json(Json::Str(body)),
    };
    proof {
        if c.front_matter@.len() == 0 {
            assert(pairs_view(c.front_matter@) =~= Seq::<(Seq<char>, ValView)>::empty());
        }
        assert(content_wf(c));
    }
    Ok(c)
}

} // verus!
