//! Path names built from strings.
use vstd::prelude::*;

verus! {

/// Whether a string starts with a dot.
pub open spec fn starts_with_dot(s: Seq<char>) -> bool {
    s.len() > 0 && s[0] == '.'
}

/// The name obtained by appending the extension `ext` to `path`; a dot is
/// put in between unless `ext` already starts with one.
pub open spec fn with_extension(path: Seq<char>, ext: Seq<char>) -> Seq<char> {
    if starts_with_dot(ext) {
        path + ext
    } else {
        path + seq!['.'] + ext
    }
}

/// Appends the extension `ext` to `path`, separated by a dot unless `ext`
/// already begins with one. Nothing of `path` is replaced: `a.txt` with
/// `gz` gives `a.txt.gz`.
pub fn add_extension(path: &str, ext: &str) -> (res: String)
    ensures
        res@ == with_extension(path@, ext@),
{
    let mut res = path.to_owned();
    let dotted = ext.unicode_len() > 0 && ext.get_char(0) == '.';
    if !dotted {
        res.append(".");
        proof {
            reveal_strlit(".");
        }
    }
    res.append(ext);
    res
}

/// Adding an extension with or without its leading dot gives the same name.
pub proof fn lemma_leading_dot_optional(path: Seq<char>, ext: Seq<char>)
    requires
        !starts_with_dot(ext),
    ensures
        with_extension(path, seq!['.'] + ext) == with_extension(path, ext),
{
    assert((seq!['.'] + ext)[0] == '.');
    assert(path + (seq!['.'] + ext) =~= path + seq!['.'] + ext);
}

/// The name with an extension keeps the original name as its prefix and ends
/// with the extension.
pub proof fn lemma_extension_is_suffix(path: Seq<char>, ext: Seq<char>)
    ensures
        with_extension(path, ext).subrange(0, path.len() as int) == path,
        with_extension(path, ext).subrange(
            with_extension(path, ext).len() - ext.len(),
            with_extension(path, ext).len() as int,
        ) == ext,
        with_extension(path, ext).len() > path.len(),
{
    if starts_with_dot(ext) {
        assert((path + ext).subrange(0, path.len() as int) =~= path);
        assert((path + ext).subrange(path.len() as int, (path + ext).len() as int) =~= ext);
    } else {
        let r = path + seq!['.'] + ext;
        assert(r.subrange(0, path.len() as int) =~= path);
        assert(r.subrange(r.len() - ext.len(), r.len() as int) =~= ext);
    }
}

} // verus!
