//! File names: extension, stem, and replacing the extension, as a path library
//! reads them on a single file name.

use vstd::prelude::*;
use crate::text::{chars_of, push_range};

verus! {

/// The index of the last `.` in `s`.
pub open spec fn last_dot(s: Seq<char>) -> Option<int>
    decreases s.len(),
{
    if s.len() == 0 {
        None
    } else if s.last() == '.' {
        Some(s.len() - 1)
    } else {
        last_dot(s.drop_last())
    }
}

/// The name of the parent directory, which has neither extension nor dot to
/// split at.
pub open spec fn is_parent_name(name: Seq<char>) -> bool {
    name.len() == 2 && name[0] == '.' && name[1] == '.'
}

/// The extension of a file name: what follows its last `.`, unless that dot
/// starts the name, or the name is `..`.
pub open spec fn extension_of(name: Seq<char>) -> Option<Seq<char>> {
    if is_parent_name(name) {
        None
    } else {
        match last_dot(name) {
        Some(p) => if p > 0 {
            Some(name.skip(p + 1))
        } else {
            None
        },
        None => None,
        }
    }
}

/// The stem of a file name: the name without its extension and the dot; `..`
/// is its own stem.
pub open spec fn stem_of(name: Seq<char>) -> Seq<char> {
    if is_parent_name(name) {
        name
    } else {
        match last_dot(name) {
        Some(p) => if p > 0 {
            name.take(p)
        } else {
            name
        },
        None => name,
        }
    }
}

/// A file name with its extension replaced by `ext`, or `ext` added where it
/// has none.
pub open spec fn with_extension_of(name: Seq<char>, ext: Seq<char>) -> Seq<char> {
    stem_of(name) + seq!['.'] + ext
}

proof fn lemma_last_dot(s: Seq<char>)
    ensures
        match last_dot(s) {
            Some(p) => 0 <= p < s.len() && s[p] == '.' && forall|j: int|
                p < j < s.len() ==> s[j] != '.',
            None => forall|j: int| 0 <= j < s.len() ==> s[j] != '.',
        },
    decreases s.len(),
{
    if s.len() > 0 && s.last() != '.' {
        lemma_last_dot(s.drop_last());
        assert(forall|j: int| 0 <= j < s.len() - 1 ==> s.drop_last()[j] == s[j]);
    }
}

/// The index of the last `.` in `s`.
fn last_dot_exec(s: &Vec<char>) -> (r: Option<usize>)
    ensures
        match r {
            Some(p) => last_dot(s@) == Some(p as int),
            None => last_dot(s@) is None,
        },
{
    let mut i: usize = s.len();
    assert(s@.take(i as int) =~= s@);
    while i > 0
        invariant
            i <= s@.len(),
            last_dot(s@) == last_dot(s@.take(i as int)),
        decreases i,
    {
        let ghost prefix = s@.take(i as int);
        assert(prefix.drop_last() =~= s@.take(i - 1));
        if s[i - 1] == '.' {
            return Some(i - 1);
        }
        i = i - 1;
    }
    assert(s@.take(0) =~= Seq::<char>::empty());
    None
}

/// The file name `name` has the extension `ext`.
pub fn has_extension(name: &str, ext: &str) -> (r: bool)
    ensures
        r == (extension_of(name@) == Some(ext@)),
{
    let n = chars_of(name);
    let e = chars_of(ext);
    proof {
        lemma_last_dot(n@);
    }
    if n.len() == 2 && n[0] == '.' && n[1] == '.' {
        return false;
    }
    match last_dot_exec(&n) {
        None => false,
        Some(p) => {
            if p == 0 || n.len() - (p + 1) != e.len() {
                return false;
            }
            let q = p + 1;
            let mut k: usize = 0;
            while k < e.len()
                invariant
                    0 < p < n@.len(),
                    n@.len() == n.len(),
                    e@.len() == e.len(),
                    e@ == ext@,
                    last_dot(n@) == Some(p as int),
                    extension_of(name@) == Some(n@.skip(q as int)),
                    q == p + 1,
                    n@.len() == q + e@.len(),
                    k <= e@.len(),
                    forall|j: int| 0 <= j < k ==> n@[q + j] == e@[j],
                decreases e@.len() - k,
            {
                if n[q + k] != e[k] {
                    assert(n@.skip(q as int)[k as int] != e@[k as int]);
                    assert(n@.skip(q as int) != e@);
                    return false;
                }
                k = k + 1;
            }
            assert(n@.skip(p + 1) =~= e@);
            true
        },
    }
}

/// The stem of the file name `name`.
pub fn file_stem(name: &str) -> (r: String)
    ensures
        r@ == stem_of(name@),
{
    let n = chars_of(name);
    let parent = n.len() == 2 && n[0] == '.' && n[1] == '.';
    let end = if parent {
        n.len()
    } else {
        match last_dot_exec(&n) {
        Some(p) => if p > 0 {
            p
        } else {
            n.len()
        },
        None => n.len(),
        }
    };
    proof {
        lemma_last_dot(n@);
    }
    let mut r = String::new();
    push_range(&mut r, &n, 0, end);
    assert(r@ =~= stem_of(name@));
    r
}

/// The file name `name` with its extension replaced by `ext`.
pub fn with_extension(name: &str, ext: &str) -> (r: String)
    ensures
        r@ == with_extension_of(name@, ext@),
{
    let mut r = file_stem(name);
    r.push('.');
    r.append(ext);
    r
}

} // verus!
