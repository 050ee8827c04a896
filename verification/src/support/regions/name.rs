//! The name of a region, assigned automatically or by hand.
use vstd::prelude::*;

verus! {

/// How a region got its name.
#[derive(Clone, Copy, Debug, PartialEq, Eq, Structural)]
enum RegionNameStatus {
    Unassigned,
    Auto,
    Assigned,
}

/// The name of a region. A name given by hand overrides one given automatically; an
/// automatic name never overrides another name.
#[derive(Debug)]
pub struct RegionName {
    status: RegionNameStatus,
    name: Option<String>,
}

impl RegionName {
    /// The region has no name yet exactly when it was never given one.
    #[verifier::type_invariant]
    spec fn inv(self) -> bool {
        (self.status == RegionNameStatus::Unassigned) == (self.name is None)
    }

    /// Whether no name was given to the region.
    pub closed spec fn unassigned(&self) -> bool {
        self.status == RegionNameStatus::Unassigned
    }

    /// Whether the name was given by hand.
    pub closed spec fn assigned(&self) -> bool {
        self.status == RegionNameStatus::Assigned
    }

    /// The text of the name: the name given, or `<Unassigned>`.
    pub closed spec fn text(&self) -> Seq<char> {
        match self.name {
            Some(n) => n@,
            None => "<Unassigned>"@,
        }
    }

    /// A region without a name.
    pub fn new() -> (r: Self)
        ensures
            r.unassigned(),
            !r.assigned(),
    {
        RegionName { status: RegionNameStatus::Unassigned, name: None }
    }

    /// Whether no name was given to the region.
    pub fn is_unassigned(&self) -> (r: bool)
        ensures
            r == self.unassigned(),
    {
        self.status == RegionNameStatus::Unassigned
    }

    /// Whether the name was given by hand.
    pub fn is_assigned(&self) -> (r: bool)
        ensures
            r == self.assigned(),
    {
        self.status == RegionNameStatus::Assigned
    }

    /// Whether the region has a name.
    pub fn has_value(&self) -> (r: bool)
        ensures
            r == !self.unassigned(),
    {
        proof {
            use_type_invariant(self);
        }
        !self.is_unassigned() && self.name.is_some()
    }

    /// The text of the name, `<Unassigned>` when the region has none.
    pub fn as_str(&self) -> (r: &str)
        ensures
            r@ == self.text(),
    {
        proof {
            use_type_invariant(self);
        }
        match &self.name {
            Some(name) => name.as_str(),
            None => "<Unassigned>",
        }
    }

    /// Names the region with what `name` returns, only if it has no name yet.
    pub fn auto<N: Fn() -> String>(&mut self, name: &N)
        requires
            name.requires(()),
        ensures
            old(self).unassigned() ==> !final(self).unassigned() && !final(self).assigned()
                && exists|s: String| name.ensures((), s) && s@ == final(self).text(),
            !old(self).unassigned() ==> final(self).unassigned() == old(self).unassigned()
                && final(self).assigned() == old(self).assigned() && final(self).text() == old(self).text(),
    {
        if !self.is_unassigned() {
            return;
        }
        let n = name();
        let ghost text = n@;
        *self = RegionName { status: RegionNameStatus::Auto, name: Some(n) };
        assert(self.text() == text);
    }

    /// Assigns a name to the region. The name must not have been assigned by hand before; a
    /// name given automatically, or none, is overridden.
    pub fn assign_from_ref(&mut self, name: &str)
        requires
            !old(self).assigned(),
        ensures
            final(self).assigned(),
            !final(self).unassigned(),
            final(self).text() == name@,
    {
        *self = RegionName { status: RegionNameStatus::Assigned, name: Some(name.to_owned()) };
    }
}

impl Default for RegionName {
    fn default() -> (r: Self)
        ensures
            r.unassigned(),
            !r.assigned(),
    {
        RegionName::new()
    }
}

} // verus!
