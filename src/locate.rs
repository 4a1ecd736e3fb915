//! Finds the one loader and the one binary module among the files that the
//! compiler wrote to its output directory.

use vstd::prelude::*;
use crate::paths::{extension_of, has_extension};

verus! {

/// The extension of a generated loader.
pub const LOADER_EXT: &'static str = "js";

/// The extension of a binary module.
pub const MODULE_EXT: &'static str = "wasm";

/// Which of the two build outputs an error is about.
#[derive(Clone, Copy, Debug, PartialEq, Eq)]
pub enum ArtifactKind {
    Loader,
    Module,
}

/// Why the build outputs could not be told apart.
#[derive(Clone, Copy, Debug, PartialEq, Eq)]
pub enum DiscoveryError {
    /// No file of this kind.
    Missing(ArtifactKind),
    /// More than one file of this kind.
    Ambiguous(ArtifactKind),
}

/// The file names of the two build outputs.
#[derive(Clone, Debug, PartialEq, Eq)]
pub struct ArtifactSet {
    pub loader: String,
    pub module: String,
}

/// The names among `names` with extension `ext`, in order.
pub open spec fn names_with_ext(names: Seq<String>, ext: Seq<char>) -> Seq<Seq<char>>
    decreases names.len(),
{
    if names.len() == 0 {
        seq![]
    } else {
        let rest = names_with_ext(names.drop_last(), ext);
        if extension_of(names.last()@) == Some(ext) {
            rest.push(names.last()@)
        } else {
            rest
        }
    }
}

/// What the scan of a listing gives: the loader's and the module's name, or
/// the first problem, loaders being looked at before modules.
pub open spec fn located(names: Seq<String>) -> Result<(Seq<char>, Seq<char>), DiscoveryError> {
    let js = names_with_ext(names, LOADER_EXT@);
    let wasm = names_with_ext(names, MODULE_EXT@);
    if js.len() > 1 {
        Err(DiscoveryError::Ambiguous(ArtifactKind::Loader))
    } else if js.len() == 0 {
        Err(DiscoveryError::Missing(ArtifactKind::Loader))
    } else if wasm.len() > 1 {
        Err(DiscoveryError::Ambiguous(ArtifactKind::Module))
    } else if wasm.len() == 0 {
        Err(DiscoveryError::Missing(ArtifactKind::Module))
    } else {
        Ok((js[0], wasm[0]))
    }
}

/// How many of `names` have extension `ext` (counting stops at two), and the
/// index of the first.
fn scan_ext(names: &Vec<String>, ext: &str) -> (r: (usize, usize))
    ensures
        r.0 == if names_with_ext(names@, ext@).len() >= 2 {
            2
        } else {
            names_with_ext(names@, ext@).len()
        },
        r.0 >= 1 ==> r.1 < names@.len() && names@[r.1 as int]@ == names_with_ext(names@, ext@)[0],
{
    let mut count: usize = 0;
    let mut first: usize = 0;
    let mut i: usize = 0;
    while i < names.len()
        invariant
            i <= names@.len(),
            count == if names_with_ext(names@.take(i as int), ext@).len() >= 2 {
                2
            } else {
                names_with_ext(names@.take(i as int), ext@).len()
            },
            count >= 1 ==> first < names@.len() && names@[first as int]@ == names_with_ext(
                names@.take(i as int),
                ext@,
            )[0],
        decreases names@.len() - i,
    {
        assert(names@.take(i + 1).drop_last() =~= names@.take(i as int));
        if has_extension(names[i].as_str(), ext) {
            if count == 0 {
                first = i;
            }
            if count < 2 {
                count = count + 1;
            }
        }
        i = i + 1;
    }
    assert(names@.take(names@.len() as int) =~= names@);
    (count, first)
}

/// Finds the loader and the binary module among the file names of a build
/// output directory: exactly one of each must be there.
pub fn locate(names: &Vec<String>) -> (r: Result<ArtifactSet, DiscoveryError>)
    ensures
        r is Ok <==> names_with_ext(names@, LOADER_EXT@).len() == 1 && names_with_ext(
            names@,
            MODULE_EXT@,
        ).len() == 1,
        match r {
            Ok(a) => located(names@) == Ok::<(Seq<char>, Seq<char>), DiscoveryError>(
                (a.loader@, a.module@),
            ),
            Err(e) => located(names@) == Err::<(Seq<char>, Seq<char>), DiscoveryError>(e),
        },
{
    let (js, js_at) = scan_ext(names, LOADER_EXT);
    if js > 1 {
        return Err(DiscoveryError::Ambiguous(ArtifactKind::Loader));
    }
    if js == 0 {
        return Err(DiscoveryError::Missing(ArtifactKind::Loader));
    }
    let (wasm, wasm_at) = scan_ext(names, MODULE_EXT);
    if wasm > 1 {
        return Err(DiscoveryError::Ambiguous(ArtifactKind::Module));
    }
    if wasm == 0 {
        return Err(DiscoveryError::Missing(ArtifactKind::Module));
    }
    Ok(ArtifactSet { loader: names[js_at].clone(), module: names[wasm_at].clone() })
}

} // verus!
