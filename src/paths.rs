//! File names and paths, as std's `Path` composes them.
use vstd::prelude::*;

verus! {

/// The path with its extension set to `json`.
pub uninterp spec fn with_json_extension(path: Seq<char>) -> Seq<char>;

/// `name` joined onto `base`, as `Path::join` does on Unix: an absolute `name`
/// replaces `base`; otherwise one `/` separates them unless `base` is empty or
/// already ends in one.
pub open spec fn joined(base: Seq<char>, name: Seq<char>) -> Seq<char> {
    if name.len() > 0 && name[0] == '/' {
        name
    } else if base.len() == 0 || base.last() == '/' {
        base + name
    } else {
        base + seq!['/'] + name
    }
}

/// The file name without its extension, where the path has a file name.
pub uninterp spec fn stem_of(path: Seq<char>) -> Option<Seq<char>>;

/// Relies on std's `Path::with_extension`: the extension replaced by, or extended with, `json`.
#[verifier::external_body]
pub fn json_path(path: &str) -> (r: String)
    ensures
        r@ == with_json_extension(path@),
{
    std::path::Path::new(path).with_extension("json").to_string_lossy().into_owned()
}

/// `name` under the directory `base`.
pub fn join_path(base: &str, name: &str) -> (r: String)
    ensures
        r@ == joined(base@, name@),
{
    let name_len = name.unicode_len();
    if name_len > 0 && name.get_char(0) == '/' {
        return name.to_string();
    }
    let base_len = base.unicode_len();
    if base_len == 0 || base.get_char(base_len - 1) == '/' {
        base.to_string().concat(name)
    } else {
        proof {
            reveal_strlit("/");
        }
        let r = base.to_string().concat("/").concat(name);
        assert(r@ =~= base@ + seq!['/'] + name@);
        r
    }
}

/// Relies on std's `Path::file_stem`: the file name up to its last dot.
#[verifier::external_body]
pub fn file_stem(path: &str) -> (r: Option<String>)
    ensures
        r is Some <==> stem_of(path@) is Some,
        r is Some ==> r->0@ == stem_of(path@)->0,
{
    std::path::Path::new(path).file_stem().map(|s| s.to_string_lossy().into_owned())
}

} // verus!
