//! Fully qualified names of cells.
use vstd::prelude::*;
use crate::synthesis::regions::RegionIndex;

verus! {

/// A fully qualified name: a region, its index, the namespaces open in it and a last part.
#[derive(Debug)]
pub struct FQN {
    /// Name of the region.
    pub region: String,
    /// Index of the region.
    pub region_idx: Option<RegionIndex>,
    /// Namespaces, outermost first.
    pub namespaces: Vec<String>,
    /// Last part of the name.
    pub tail: Option<String>,
}

impl FQN {
    /// A fully qualified name from its parts.
    pub fn new(region: &str, region_idx: Option<RegionIndex>, namespaces: &[String], tail: Option<String>) -> (r: Self)
        ensures
            r.region@ == region@,
            r.region_idx == region_idx,
            r.namespaces@.len() == namespaces@.len(),
            forall|i: int| 0 <= i < namespaces@.len() ==> r.namespaces@[i]@ == namespaces@[i]@,
            r.tail == tail,
    {
        let mut ns: Vec<String> = Vec::new();
        let mut i: usize = 0;
        while i < namespaces.len()
            invariant
                i <= namespaces@.len(),
                ns@.len() == i,
                forall|k: int| 0 <= k < i ==> ns@[k]@ == namespaces@[k]@,
            decreases namespaces@.len() - i,
        {
            ns.push(namespaces[i].clone());
            i = i + 1;
        }
        FQN { region: region.to_owned(), region_idx, namespaces: ns, tail }
    }
}

} // verus!
