//! Paths as this library writes them: text, with `/` between the parts and a
//! leading `/` for one that starts at the root.
//!
//! This is the library's own format for the paths it decides, and not the
//! standard library's `Path`, whose separator and whose idea of an absolute
//! path differ from one platform to the next. Every platform the program runs
//! on accepts `/` between the parts of a path it opens.

use vstd::prelude::*;

verus! {

/// Whether a path starts at the root of the filesystem.
pub open spec fn spec_absolute(p: Seq<char>) -> bool {
    p.len() > 0 && p[0] == '/'
}

/// `leaf` under `base`: `leaf` itself where it is absolute or `base` is empty,
/// and otherwise the two with one `/` between them.
pub open spec fn spec_join(base: Seq<char>, leaf: Seq<char>) -> Seq<char> {
    if spec_absolute(leaf) || base.len() == 0 {
        leaf
    } else if base.last() == '/' {
        base + leaf
    } else {
        base + seq!['/'] + leaf
    }
}

/// Whether a path starts at the root of the filesystem.
pub fn is_absolute(p: &str) -> (r: bool)
    ensures
        r == spec_absolute(p@),
{
    p.unicode_len() > 0 && p.get_char(0) == '/'
}

/// `leaf` under `base`, with one `/` between them.
pub fn join(base: &str, leaf: &str) -> (r: String)
    ensures
        r@ == spec_join(base@, leaf@),
{
    let n = base.unicode_len();
    if is_absolute(leaf) || n == 0 {
        String::from_str(leaf)
    } else if base.get_char(n - 1) == '/' {
        let mut out = String::from_str(base);
        out.append(leaf);
        out
    } else {
        let mut out = String::from_str(base);
        crate::text::push_char(&mut out, '/');
        out.append(leaf);
        out
    }
}

} // verus!
