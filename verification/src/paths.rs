//! Text paths as the protocol carries them: absolute paths, joining, and
//! addresses that name sockets.

use vstd::prelude::*;
use vstd::string::*;

verus! {

/// Whether a path is absolute: it starts at the root.
pub open spec fn is_absolute(p: Seq<char>) -> bool {
    p.len() > 0 && p[0] == '/'
}

/// A path with another pushed onto it: an absolute part replaces the base;
/// otherwise a separator is put between them where the base is not empty
/// and does not already end in one.
pub open spec fn join_path(base: Seq<char>, part: Seq<char>) -> Seq<char> {
    if is_absolute(part) {
        part
    } else if base.len() == 0 || base.last() == '/' {
        base + part
    } else {
        base + seq!['/'] + part
    }
}

/// Whether a path is absolute.
pub fn path_is_absolute(p: &str) -> (r: bool)
    ensures
        r == is_absolute(p@),
{
    p.unicode_len() > 0 && p.get_char(0) == '/'
}

/// Whether a text contains a character.
pub fn contains_char(s: &str, c: char) -> (r: bool)
    ensures
        r == s@.contains(c),
{
    let n = s.unicode_len();
    let mut i: usize = 0;
    while i < n
        invariant
            i <= n,
            n == s@.len(),
            forall|j: int| 0 <= j < i ==> s@[j] != c,
        decreases n - i,
    {
        if s.get_char(i) == c {
            assert(s@[i as int] == c);
            return true;
        }
        i = i + 1;
    }
    false
}

/// Pushes a path onto a base path.
pub fn join(base: &str, part: &str) -> (r: String)
    ensures
        r@ == join_path(base@, part@),
{
    if path_is_absolute(part) {
        return part.to_owned();
    }
    let n = base.unicode_len();
    let mut r = base.to_owned();
    if n > 0 && base.get_char(n - 1) != '/' {
        r.append("/");
        proof {
            reveal_strlit("/");
        }
    }
    r.append(part);
    proof {
        if n > 0 {
            assert(base@.last() == base@[n - 1]);
        }
    }
    assert(r@ =~= join_path(base@, part@));
    r
}

} // verus!
