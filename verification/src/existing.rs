use vstd::prelude::*;
use crate::sorted::SortedTexts;

verus! {

/// Which paths exist on the file system, as it was observed at one moment.
///
/// Validation never probes the file system itself: it is a function of the
/// batch and of such an observation.
#[derive(Debug)]
pub struct ExistingPaths {
    paths: SortedTexts,
}

impl View for ExistingPaths {
    type V = Set<Seq<char>>;

    /// The set of the paths that were observed to exist.
    closed spec fn view(&self) -> Set<Seq<char>> {
        self.paths@.to_set()
    }
}

impl ExistingPaths {
    /// An observation in which no path exists.
    pub fn new() -> (existing: ExistingPaths)
        ensures
            existing@ == Set::<Seq<char>>::empty(),
    {
        let existing = ExistingPaths { paths: SortedTexts::new() };
        assert(existing.paths@.to_set() =~= Set::<Seq<char>>::empty());
        existing
    }

    /// Records that `path` exists.
    pub fn insert(&mut self, path: String)
        ensures
            final(self)@ == old(self)@.insert(path@),
    {
        let mut paths = SortedTexts::new();
        std::mem::swap(&mut self.paths, &mut paths);
        self.paths = paths.insert(path.as_str());
    }

    /// Whether `path` was observed to exist.
    pub fn contains(&self, path: &String) -> (found: bool)
        ensures
            found == self@.contains(path@),
    {
        self.paths.contains(path.as_str())
    }
}

} // verus!
