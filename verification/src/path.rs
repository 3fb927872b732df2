//! Paths as text, joined the way `Path::join` joins them on Unix.

use vstd::prelude::*;

use crate::text::push_char;

verus! {

/// `base` joined with `name`: `name` itself when it is absolute, otherwise
/// `name` after `base`, with one `/` between them unless `base` is empty or
/// already ends with one.
pub open spec fn path_join(base: Seq<char>, name: Seq<char>) -> Seq<char> {
    if name.len() > 0 && name[0] == '/' {
        name
    } else if base.len() == 0 || base.last() == '/' {
        base + name
    } else {
        base + seq!['/'] + name
    }
}

/// `base.join(name)` as text.
pub fn join_path(base: &str, name: &str) -> (r: String)
    ensures
        r@ == path_join(base@, name@),
{
    let n = name.unicode_len();
    if n > 0 && name.get_char(0) == '/' {
        return name.to_owned();
    }
    let b = base.unicode_len();
    let mut r = base.to_owned();
    if b > 0 && base.get_char(b - 1) != '/' {
        push_char(&mut r, '/');
    }
    r.append(name);
    r
}

/// An optional string as its characters.
pub open spec fn opt_view(o: Option<String>) -> Option<Seq<char>> {
    match o {
        Some(s) => Some(s@),
        None => None,
    }
}

}
