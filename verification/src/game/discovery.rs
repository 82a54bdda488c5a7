//! Which of the files found in a directory are images to show.

use crate::game::world::{EntityId, World};
use std::path::PathBuf;
use vstd::prelude::*;

verus! {

/// The file name extensions of the image formats that can be decoded.
pub const SUPPORTED_EXTENSIONS: [&'static str; 17] = [
    "png", "jpg", "jpeg", "gif", "bmp", "ico", "tiff", "tif", "webp", "avif", "pbm", "pgm",
    "ppm", "pnm", "dds", "tga", "ff",
];

/// Whether `extension` is, letter for letter, one of the supported ones.
pub open spec fn supported(extension: Seq<char>) -> bool {
    exists|k: int| 0 <= k < 17 && (#[trigger] SUPPORTED_EXTENSIONS[k])@ == extension
}

/// Whether `extension` is, letter for letter, one of the supported ones.
pub fn is_supported(extension: &str) -> (yes: bool)
    ensures
        yes == supported(extension@),
{
    let mut k: usize = 0;
    while k < 17
        invariant
            k <= 17,
            forall|j: int| 0 <= j < k ==> (#[trigger] SUPPORTED_EXTENSIONS[j])@ != extension@,
        decreases 17 - k,
    {
        if *SUPPORTED_EXTENSIONS[k] == *extension {
            return true;
        }
        k += 1;
    }
    false
}

/// One entry of the directory that was searched: what the filter reads of it.
#[derive(Debug)]
pub struct Candidate {
    /// Where the entry is.
    pub path: PathBuf,
    /// Whether the entry is a regular file.
    pub is_file: bool,
    /// The extension of its name, where the name has one.
    pub extension: Option<String>,
}

/// Whether `candidate` is an image to show: a file with a supported
/// extension.
pub open spec fn accepted(candidate: Candidate) -> bool {
    &&& candidate.is_file
    &&& candidate.extension matches Some(extension)
    &&& supported(extension@)
}

/// The paths of the accepted candidates, in the order of `candidates`.
pub open spec fn discovered(candidates: Seq<Candidate>) -> Seq<PathBuf>
    decreases candidates.len(),
{
    if candidates.len() == 0 {
        Seq::empty()
    } else if accepted(candidates.last()) {
        discovered(candidates.drop_last()).push(candidates.last().path)
    } else {
        discovered(candidates.drop_last())
    }
}

/// No more is accepted than was offered.
pub proof fn lemma_discovered_len(candidates: Seq<Candidate>)
    ensures
        discovered(candidates).len() <= candidates.len(),
    decreases candidates.len(),
{
    if candidates.len() > 0 {
        lemma_discovered_len(candidates.drop_last());
    }
}

/// Whether `candidate` is an image to show.
pub fn is_accepted(candidate: &Candidate) -> (yes: bool)
    ensures
        yes == accepted(*candidate),
{
    if !candidate.is_file {
        return false;
    }
    match &candidate.extension {
        Some(extension) => is_supported(extension.as_str()),
        None => false,
    }
}

/// A registry of the accepted candidates: each gets the next id, in the
/// order of `candidates`, and none has an image yet.
pub fn discover<I>(candidates: &Vec<Candidate>) -> (world: World<I>)
    ensures
        world.wf(),
        world@.paths == discovered(candidates@),
        world@.images == Map::<EntityId, I>::empty(),
{
    let mut world = World::new();
    let mut i: usize = 0;
    while i < candidates.len()
        invariant
            i <= candidates@.len(),
            world.wf(),
            world@.paths == discovered(candidates@.take(i as int)),
            world@.images == Map::<EntityId, I>::empty(),
        decreases candidates@.len() - i,
    {
        proof {
            assert(candidates@.take(i + 1).drop_last() =~= candidates@.take(i as int));
            lemma_discovered_len(candidates@.take(i as int));
        }
        if is_accepted(&candidates[i]) {
            world.spawn_asset(candidates[i].path.clone());
        }
        i += 1;
    }
    assert(candidates@.take(i as int) =~= candidates@);
    world
}

} // verus!
