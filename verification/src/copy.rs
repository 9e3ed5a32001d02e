//! Asset copying support: the decision which walked entry is copied,
//! with an optional glob filter on the path relative to the source
//! root. The walking and the copying themselves are plain filesystem
//! work and happen outside.

use crate::error::GeneratorError;
use crate::generator::{normalize_path, norm_slash};
use vstd::prelude::*;

verus! {

/// A path written with forward slashes only.
pub open spec fn slash_only(path: Seq<char>) -> bool {
    forall|i: int| 0 <= i < path.len() ==> path[i] != '\\'
}

/// A path with its backslashes read as separators.
pub open spec fn slashed(path: Seq<char>) -> Seq<char> {
    Seq::new(
        path.len(),
        |i: int|
            if 0 <= i < path.len() {
                norm_slash(path[i])
            } else {
                '/'
            },
    )
}

/// Whether a glob pattern matches a slash-separated relative path;
/// nothing when the pattern cannot be used — invalid, or beyond the
/// matcher's compiled-size cap. The claim is confined to slash-only
/// paths: the matcher normalizes other separators only on some
/// platforms.
pub uninterp spec fn glob_check_of(pattern: Seq<char>, path: Seq<char>) -> Option<bool>;

/// Relies on `globset::Glob::new` and a one-glob set built with
/// `GlobSetBuilder::build` (which reports an oversized pattern as an
/// error rather than aborting): whether the pattern matches the path,
/// which for a slash-only path depends on the two texts alone; `None`
/// exactly when the pattern is invalid or too large to compile.
#[verifier::external_body]
fn glob_is_match(pattern: &str, path: &str) -> (r: Option<bool>)
    requires
        slash_only(path@),
    ensures
        r == glob_check_of(pattern@, path@),
{
    match globset::Glob::new(pattern) {
        Ok(g) => {
            let mut builder = globset::GlobSetBuilder::new();
            builder.add(g);
            match builder.build() {
                Ok(set) => Some(set.is_match(path)),
                Err(_) => None,
            }
        },
        Err(_) => None,
    }
}

/// The path with every backslash turned into a forward slash.
#[verifier::loop_isolation(false)]
pub(crate) fn to_slashes(path: &str) -> (r: String)
    ensures
        r@ == slashed(path@),
        slash_only(r@),
{
    let cs = crate::text::str_chars(path);
    let n = cs.len();
    let mut out: Vec<char> = Vec::new();
    for i in 0..n
        invariant
            n == path@.len(),
            cs@ == path@,
            out@.len() == i,
            forall|k: int| 0 <= k < i ==> out@[k] == norm_slash(path@[k]),
    {
        let c = cs[i];
        if c == '\\' {
            out.push('/');
        } else {
            out.push(c);
        }
    }
    proof {
        assert(out@ =~= slashed(path@));
        assert forall|i: int| 0 <= i < out@.len() implies out@[i] != '\\' by {
            assert(out@[i] == norm_slash(path@[i]));
        }
    }
    crate::text::chars_string(out.as_slice())
}

/// Whether one walked entry is copied: with no glob configured every
/// entry is; with one, exactly the entries whose source-relative path —
/// its separators read as forward slashes — matches. Fails exactly when
/// the configured glob is invalid.
pub fn copy_decision(relative: &str, glob: Option<&str>) -> (r: Result<bool, GeneratorError>)
    ensures
        r matches Ok(b) ==> match glob {
            None => b == true,
            Some(g) => glob_check_of(g@, slashed(relative@)) == Some(b),
        },
        r matches Err(e) ==> e is Config && (glob matches Some(g) && glob_check_of(
            g@,
            slashed(relative@),
        ) is None),
{
    match glob {
        None => Ok(true),
        Some(g) => {
            let p = to_slashes(relative);
            match glob_is_match(g, p.as_str()) {
                Some(b) => Ok(b),
                None => Err(GeneratorError::Config(String::from_str("the asset glob is invalid"))),
            }
        },
    }
}

} // verus!
