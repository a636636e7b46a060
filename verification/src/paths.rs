//! Paths of the host's file system, as text.

use vstd::prelude::*;

verus! {

/// The path of `name` under the directory `base`: the two joined by a slash, unless `base` is empty
/// or ends in one already.
pub open spec fn under(base: Seq<char>, name: Seq<char>) -> Seq<char> {
    if base.len() == 0 || base.last() == '/' {
        base + name
    } else {
        base + "/"@ + name
    }
}

/// The path of `name`, which is relative, under the directory `base`.
pub fn join(base: &str, name: &str) -> (path: String)
    ensures
        path@ == under(base@, name@),
{
    let len: usize = base.unicode_len();
    let bare: bool = len == 0 || base.get_char(len - 1) == '/';
    let mut path = base.to_owned();
    if !bare {
        path.append("/");
    }
    path.append(name);
    path
}

/// What lies under a directory begins with the directory's own path.
pub proof fn law_under_extends(base: Seq<char>, name: Seq<char>)
    ensures
        base.len() <= under(base, name).len(),
        under(base, name).take(base.len() as int) == base,
{
    assert(under(base, name).take(base.len() as int) =~= base);
}

/// Different names lie at different paths under one directory.
pub proof fn law_under_is_injective(base: Seq<char>, a: Seq<char>, b: Seq<char>)
    requires
        under(base, a) == under(base, b),
    ensures
        a == b,
{
    let whole = under(base, a);
    assert(a =~= whole.skip(whole.len() - a.len()));
    assert(b =~= whole.skip(whole.len() - b.len()));
}

} // verus!
