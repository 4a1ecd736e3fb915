//! Which files a deploy copies, and which files of the destination a pruning
//! copy removes.

use vstd::prelude::*;
use crate::locate::{LOADER_EXT, MODULE_EXT};
use crate::paths::{extension_of, has_extension};

verus! {

/// The extension of the isolated host's self-contained loader.
pub const ENTRY_EXT: &'static str = "mjs";

/// A file with this name is deployed: a loader, a binary module, or a
/// self-contained loader.
pub open spec fn deployable(name: Seq<char>) -> bool {
    extension_of(name) == Some(LOADER_EXT@) || extension_of(name) == Some(MODULE_EXT@)
        || extension_of(name) == Some(ENTRY_EXT@)
}

/// The file `name` is deployed.
pub fn is_deployable(name: &str) -> (r: bool)
    ensures
        r == deployable(name@),
{
    has_extension(name, LOADER_EXT) || has_extension(name, MODULE_EXT) || has_extension(
        name,
        ENTRY_EXT,
    )
}

/// The names among `names` that are deployed, in order.
pub open spec fn deployable_names(names: Seq<String>) -> Seq<Seq<char>>
    decreases names.len(),
{
    if names.len() == 0 {
        seq![]
    } else if deployable(names.last()@) {
        deployable_names(names.drop_last()).push(names.last()@)
    } else {
        deployable_names(names.drop_last())
    }
}

/// The names among `names` that are not in `kept`, in order.
pub open spec fn stale_names(names: Seq<String>, kept: Seq<Seq<char>>) -> Seq<Seq<char>>
    decreases names.len(),
{
    if names.len() == 0 {
        seq![]
    } else if kept.contains(names.last()@) {
        stale_names(names.drop_last(), kept)
    } else {
        stale_names(names.drop_last(), kept).push(names.last()@)
    }
}

/// The characters of each string of a list.
pub open spec fn views(v: Seq<String>) -> Seq<Seq<char>> {
    v.map_values(|s: String| s@)
}

/// The deployed files among the names of a directory listing, in order.
pub fn select_deployable(names: &Vec<String>) -> (r: Vec<String>)
    ensures
        views(r@) == deployable_names(names@),
{
    let mut r: Vec<String> = Vec::new();
    let mut i: usize = 0;
    while i < names.len()
        invariant
            i <= names@.len(),
            views(r@) == deployable_names(names@.take(i as int)),
        decreases names@.len() - i,
    {
        assert(names@.take(i + 1).drop_last() =~= names@.take(i as int));
        if is_deployable(names[i].as_str()) {
            let ghost before = r@;
            r.push(names[i].clone());
            assert(views(r@) =~= views(before).push(names@[i as int]@));
        }
        i = i + 1;
    }
    assert(names@.take(names@.len() as int) =~= names@);
    r
}

/// `name` is among `kept`.
fn contains_name(kept: &Vec<String>, name: &String) -> (r: bool)
    ensures
        r == views(kept@).contains(name@),
{
    let mut i: usize = 0;
    while i < kept.len()
        invariant
            i <= kept@.len(),
            forall|j: int| 0 <= j < i ==> kept@[j]@ != name@,
        decreases kept@.len() - i,
    {
        if kept[i] == *name {
            assert(views(kept@)[i as int] == name@);
            return true;
        }
        i = i + 1;
    }
    assert(!views(kept@).contains(name@)) by {
        if views(kept@).contains(name@) {
            let j = choose|j: int| 0 <= j < views(kept@).len() && views(kept@)[j] == name@;
            assert(kept@[j]@ == name@);
        }
    }
    false
}

/// The files of the destination that a pruning copy removes: those that the
/// copy did not just write, in listing order.
pub fn stale_files(existing: &Vec<String>, deployed: &Vec<String>) -> (r: Vec<String>)
    ensures
        views(r@) == stale_names(existing@, views(deployed@)),
{
    let mut r: Vec<String> = Vec::new();
    let mut i: usize = 0;
    while i < existing.len()
        invariant
            i <= existing@.len(),
            views(r@) == stale_names(existing@.take(i as int), views(deployed@)),
        decreases existing@.len() - i,
    {
        assert(existing@.take(i + 1).drop_last() =~= existing@.take(i as int));
        if !contains_name(deployed, &existing[i]) {
            let ghost before = r@;
            r.push(existing[i].clone());
            assert(views(r@) =~= views(before).push(existing@[i as int]@));
        }
        i = i + 1;
    }
    assert(existing@.take(existing@.len() as int) =~= existing@);
    r
}

/// After a pruning copy, nothing remains of the destination's earlier files
/// but what was just written: every name that is neither listed for removal
/// nor deployed was not in the listing.
pub proof fn law_prune_leaves_deployed(existing: Seq<String>, deployed: Seq<Seq<char>>, k: int)
    requires
        0 <= k < existing.len(),
    ensures
        deployed.contains(existing[k]@) || stale_names(existing, deployed).contains(existing[k]@),
    decreases existing.len(),
{
    if k < existing.len() - 1 {
        law_prune_leaves_deployed(existing.drop_last(), deployed, k);
        if !deployed.contains(existing[k]@) {
            let prev = stale_names(existing.drop_last(), deployed);
            let j = choose|j: int| 0 <= j < prev.len() && prev[j] == existing[k]@;
            if !deployed.contains(existing.last()@) {
                assert(stale_names(existing, deployed)[j] == existing[k]@);
            }
        }
    } else if !deployed.contains(existing[k]@) {
        let all = stale_names(existing, deployed);
        assert(all[all.len() - 1] == existing[k]@);
    }
}

/// A pruning copy never removes a file that it just wrote.
pub proof fn law_prune_spares_deployed(existing: Seq<String>, deployed: Seq<Seq<char>>, name: Seq<char>)
    requires
        deployed.contains(name),
    ensures
        !stale_names(existing, deployed).contains(name),
    decreases existing.len(),
{
    if existing.len() > 0 {
        law_prune_spares_deployed(existing.drop_last(), deployed, name);
        let prev = stale_names(existing.drop_last(), deployed);
        let all = stale_names(existing, deployed);
        if !deployed.contains(existing.last()@) {
            assert(all == prev.push(existing.last()@));
            if all.contains(name) {
                let j = choose|j: int| 0 <= j < all.len() && all[j] == name;
                if j < prev.len() {
                    assert(prev[j] == name);
                }
            }
        }
    }
}

} // verus!
