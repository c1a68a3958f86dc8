use vstd::prelude::*;

use std::path::Path;

use crate::paths::{clean_absolute, is_absolute, joined_path, parent_text, path_components};

verus! {

/// What `str::to_lowercase` returns for a text: its Unicode lower-case mapping.
pub uninterp spec fn lowercase(s: Seq<char>) -> Seq<char>;

/// What `Path::parent` gives, as text, for a path: `None` for a root or an empty path.
pub uninterp spec fn path_parent(path: Seq<char>) -> Option<Seq<char>>;


/// Calls `str::to_lowercase`. The contract claims that the result is a function of the
/// text, named `lowercase`, and that it is empty exactly when the text is (every character
/// maps to one or more characters); the Unicode case mapping itself is not stated.
#[verifier::external_body]
pub(crate) fn to_lowercase(s: &str) -> (r: String)
    ensures
        r@ == lowercase(s@),
        r@.len() == 0 <==> s@.len() == 0,
{
    s.to_lowercase()
}

/// Calls `Path::join` on `base` and `name` and gives the result as text. The contract claims
/// what `Path::join` does on Unix: an absolute name replaces the base, and otherwise the
/// name is appended, after a separator unless the base is empty or ends in one.
#[verifier::external_body]
pub(crate) fn join_path(base: &str, name: &str) -> (r: String)
    ensures
        r@ == joined_path(base@, name@),
{
    Path::new(base).join(name).to_string_lossy().into_owned()
}

/// Calls `Path::parent` and gives the result as text. The contract claims that the result
/// is a function of the path, named `path_parent`, and what `Path::parent` documents for
/// absolute paths: one that ends in the root has no parent; another has as parent an
/// absolute path with its components but the final one, and for a path in plain form that
/// is the text before its last `/`. For relative paths it claims nothing more.
#[verifier::external_body]
pub(crate) fn parent_path(path: &str) -> (r: Option<String>)
    ensures
        match r {
            Some(p) => path_parent(path@) == Some(p@),
            None => path_parent(path@) is None,
        },
        r is None <== path@.len() == 1 && path@[0] == '/',
        r is None <== is_absolute(path@) && path_components(path@).len() == 0,
        is_absolute(path@) && path_components(path@).len() > 0 ==> r is Some && is_absolute(r->0@)
            && path_components(r->0@) == path_components(path@).drop_last(),
        clean_absolute(path@) && path@.len() > 1 ==> r is Some && r->0@ == parent_text(path@),
{
    Path::new(path).parent().map(|p| p.to_string_lossy().into_owned())
}

/// Calls `String::push`, which appends the character `c` to `s`.
#[verifier::external_body]
pub(crate) fn push_char(s: &mut String, c: char)
    ensures
        final(s)@ == old(s)@.push(c),
{
    s.push(c)
}

} // verus!
