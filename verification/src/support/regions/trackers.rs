//! Trackers of the region indices that a layouter has seen.
use vstd::prelude::*;
use crate::synthesis::regions::RegionIndex;

verus! {

/// The indices are sorted in strictly increasing order.
pub open spec fn strictly_sorted(s: Seq<usize>) -> bool {
    forall|i: int, j: int| 0 <= i < j < s.len() ==> s[i] < s[j]
}

/// Tracks the region's indices that the regions layouter has seen.
pub trait RegionIndexTracker: Sized {
    /// Whether the tracker counts the index as seen.
    spec fn tracks(&self, index: usize) -> bool;

    /// Records that the layouter saw a region. What was tracked stays tracked.
    fn update(&mut self, index: RegionIndex)
        ensures
            final(self).tracks(index.0),
            forall|i: usize| old(self).tracks(i) ==> final(self).tracks(i);

    /// The indices tracked, in increasing order.
    fn indices(self) -> (r: TrackerIter)
        ensures
            strictly_sorted(r.remaining()),
            forall|i: usize| r.remaining().contains(i) <==> self.tracks(i);

    /// Whether the index is tracked.
    fn contains(&self, index: RegionIndex) -> (r: bool)
        ensures
            r == self.tracks(index.0);
}

/// Iterator over the indices of a tracker.
#[derive(Debug)]
pub struct TrackerIter {
    items: Vec<usize>,
    pos: usize,
}

impl TrackerIter {
    /// The indices that the iterator has yet to give, in order.
    pub closed spec fn remaining(&self) -> Seq<usize> {
        self.items@.skip(self.pos as int)
    }

    /// The position never passes the end of the indices.
    #[verifier::type_invariant]
    spec fn wf(&self) -> bool {
        self.pos <= self.items@.len()
    }

    /// The next index, if any is left.
    pub fn next(&mut self) -> (r: Option<RegionIndex>)
        ensures
            old(self).remaining().len() == 0 ==> r is None && final(self).remaining().len() == 0,
            old(self).remaining().len() > 0 ==> r == Some(RegionIndex(old(self).remaining()[0]))
                && final(self).remaining() == old(self).remaining().drop_first(),
    {
        proof {
            use_type_invariant(&*self);
        }
        if self.pos < self.items.len() {
            let i = self.items[self.pos];
            self.pos = self.pos + 1;
            proof {
                assert(self.items@.skip(self.pos as int) =~= old(self).items@.skip(old(self).pos as int).drop_first());
            }
            Some(RegionIndex(i))
        } else {
            None
        }
    }

    /// All the indices left, in order.
    pub fn collect_all(self) -> (r: Vec<RegionIndex>)
        ensures
            r@.len() == self.remaining().len(),
            forall|k: int| 0 <= k < r@.len() ==> r@[k] == RegionIndex(self.remaining()[k]),
    {
        proof {
            use_type_invariant(&self);
        }
        let mut out: Vec<RegionIndex> = Vec::new();
        let mut i = self.pos;
        while i < self.items.len()
            invariant
                self.pos <= i <= self.items@.len(),
                out@.len() == i - self.pos,
                forall|k: int| 0 <= k < out@.len() ==> out@[k] == RegionIndex(self.items@[self.pos + k]),
            decreases self.items@.len() - i,
        {
            out.push(RegionIndex(self.items[i]));
            i = i + 1;
        }
        out
    }
}

/// Keeps track of the region indices by maintaining the range of the earliest and latest regions
/// seen. Regions defined in the middle are considered part of the isolated set even if they
/// weren't directly assigned with the layouter.
#[derive(Debug)]
pub struct RangeTracker {
    regions: Option<(usize, usize)>,
}

impl RangeTracker {
    /// The range is never reversed.
    #[verifier::type_invariant]
    spec fn wf(&self) -> bool {
        self.regions matches Some((s, e)) ==> s <= e
    }

    /// A tracker that has seen nothing.
    pub fn new() -> (r: Self)
        ensures
            r.bounds() is None,
            forall|i: usize| !r.tracks(i),
    {
        RangeTracker { regions: None }
    }
}

impl Default for RangeTracker {
    fn default() -> (r: Self)
        ensures
            r.bounds() is None,
            forall|i: usize| !r.tracks(i),
    {
        RangeTracker::new()
    }
}

impl RangeTracker {
    /// The least and the greatest index seen, if any was.
    pub closed spec fn bounds(&self) -> Option<(usize, usize)> {
        self.regions
    }
}

impl RegionIndexTracker for RangeTracker {
    /// An index is tracked when it lies between the least and the greatest index seen.
    open spec fn tracks(&self, index: usize) -> bool {
        match self.bounds() {
            Some((s, e)) => s <= index <= e,
            None => false,
        }
    }

    /// The range grows to take in the index: afterwards it runs from the least to the
    /// greatest index seen.
    fn update(&mut self, index: RegionIndex)
        ensures
            final(self).bounds() == match old(self).bounds() {
                None => Some((index.0, index.0)),
                Some((s, e)) => Some((if index.0 < s { index.0 } else { s }, if index.0 > e { index.0 } else { e })),
            },
    {
        proof {
            use_type_invariant(&*self);
        }
        let i = index.0;
        self.regions = match self.regions {
            None => Some((i, i)),
            Some((s, e)) => Some((if i < s { i } else { s }, if i > e { i } else { e })),
        };
    }

    fn indices(self) -> (r: TrackerIter) {
        proof {
            use_type_invariant(&self);
        }
        let mut items: Vec<usize> = Vec::new();
        match self.regions {
            None => {},
            Some((s, e)) => {
                let mut i = s;
                while i < e
                    invariant
                        s <= e,
                        s <= i <= e,
                        items@.len() == i - s,
                        forall|k: int| 0 <= k < items@.len() ==> items@[k] == s + k,
                    decreases e - i,
                {
                    items.push(i);
                    i = i + 1;
                }
                if s <= e {
                    items.push(e);
                }
                proof {
                    assert forall|j: usize| items@.contains(j) <==> self.tracks(j) by {
                        if s <= j <= e {
                            assert(items@[j - s] == j);
                        }
                    }
                }
            },
        }
        let r = TrackerIter { items, pos: 0 };
        proof {
            assert(r.remaining() =~= items@);
        }
        r
    }

    fn contains(&self, index: RegionIndex) -> (r: bool) {
        match self.regions {
            Some((s, e)) => s <= index.0 && index.0 <= e,
            None => false,
        }
    }
}

/// Keeps track of only the region indices that the layouter directly assigned.
#[derive(Debug)]
pub struct SetTracker {
    regions: Vec<usize>,
}

impl SetTracker {
    /// The indices are kept sorted, each once.
    #[verifier::type_invariant]
    spec fn wf(&self) -> bool {
        strictly_sorted(self.regions@)
    }

    /// A tracker that has seen nothing.
    pub fn new() -> (r: Self)
        ensures
            forall|i: usize| !r.tracks(i),
    {
        SetTracker { regions: Vec::new() }
    }

    /// The position of the first tracked index not less than `i`.
    fn position(&self, i: usize) -> (r: usize)
        ensures
            r <= self.regions@.len(),
            forall|k: int| 0 <= k < r ==> self.regions@[k] < i,
            forall|k: int| r <= k < self.regions@.len() ==> self.regions@[k] >= i,
    {
        proof {
            use_type_invariant(self);
        }
        let mut lo: usize = 0;
        let mut hi: usize = self.regions.len();
        while lo < hi
            invariant
                lo <= hi <= self.regions@.len(),
                strictly_sorted(self.regions@),
                forall|k: int| 0 <= k < lo ==> self.regions@[k] < i,
                forall|k: int| hi <= k < self.regions@.len() ==> self.regions@[k] >= i,
            decreases hi - lo,
        {
            let mid = lo + (hi - lo) / 2;
            if self.regions[mid] < i {
                lo = mid + 1;
            } else {
                hi = mid;
            }
        }
        lo
    }
}

impl Default for SetTracker {
    fn default() -> (r: Self)
        ensures
            forall|i: usize| !r.tracks(i),
    {
        SetTracker::new()
    }
}

impl RegionIndexTracker for SetTracker {
    /// An index is tracked when the layouter assigned its region.
    closed spec fn tracks(&self, index: usize) -> bool {
        self.regions@.contains(index)
    }

    /// The index joins the indices seen, and nothing else does.
    fn update(&mut self, index: RegionIndex)
        ensures
            forall|i: usize| final(self).tracks(i) <==> old(self).tracks(i) || i == index.0,
    {
        proof {
            use_type_invariant(&*self);
        }
        let pos = self.position(index.0);
        if pos < self.regions.len() && self.regions[pos] == index.0 {
            return;
        }
        let mut regions = Vec::new();
        std::mem::swap(&mut regions, &mut self.regions);
        let ghost old_regions = regions@;
        regions.insert(pos, index.0);
        proof {
            assert forall|i: usize| old_regions.contains(i) implies regions@.contains(i) by {
                let k = choose|k: int| 0 <= k < old_regions.len() && old_regions[k] == i;
                if k < pos {
                    assert(regions@[k] == i);
                } else {
                    assert(regions@[k + 1] == i);
                }
            }
            assert(regions@[pos as int] == index.0);
            assert forall|i: usize| regions@.contains(i) implies old_regions.contains(i) || i == index.0 by {
                let k = choose|k: int| 0 <= k < regions@.len() && regions@[k] == i;
                if k < pos {
                    assert(old_regions[k] == i);
                } else if k > pos {
                    assert(old_regions[k - 1] == i);
                }
            }
        }
        *self = SetTracker { regions };
    }

    fn indices(self) -> (r: TrackerIter) {
        proof {
            use_type_invariant(&self);
        }
        let r = TrackerIter { items: self.regions, pos: 0 };
        proof {
            assert(r.remaining() =~= self.regions@);
        }
        r
    }

    fn contains(&self, index: RegionIndex) -> (r: bool) {
        proof {
            use_type_invariant(self);
        }
        let pos = self.position(index.0);
        let r = pos < self.regions.len() && self.regions[pos] == index.0;
        proof {
            if !r && self.regions@.contains(index.0) {
                let k = choose|k: int| 0 <= k < self.regions@.len() && self.regions@[k] == index.0;
                assert(k >= pos);
                if k > pos {
                    assert(self.regions@[pos as int] < self.regions@[k]);
                }
            }
        }
        r
    }
}

} // verus!
