//! The brand that ties handles and builders to one construction session.

use std::marker::PhantomData;
use vstd::prelude::*;

verus! {

/// A zero-sized marker with an invariant lifetime.
///
/// Two values of this type only unify when their lifetimes are exactly the
/// same, so a lifetime that is introduced afresh for every construction
/// session can never be confused with that of another session. The marker
/// carries no data: all its values are equal.
#[derive(Copy, Clone, Hash, PartialOrd, Ord, Debug)]
pub struct Id<'id> {
    _phantom: PhantomData<&'id mut &'id ()>,
}

impl<'id> Id<'id> {
    /// The one value of the brand.
    pub closed spec fn brand() -> Self {
        Id { _phantom: PhantomData }
    }

    /// The brand of whatever session the context asks for.
    pub(crate) fn new() -> (id: Self)
        ensures
            id == Self::brand(),
    {
        Id { _phantom: PhantomData }
    }
}

impl<'id> Default for Id<'id> {
    fn default() -> (id: Self) {
        Id::new()
    }
}

impl<'id> PartialEq for Id<'id> {
    fn eq(&self, other: &Self) -> (r: bool) {
        true
    }
}

impl<'id> Eq for Id<'id> {}

impl<'id> vstd::std_specs::cmp::PartialEqSpecImpl for Id<'id> {
    open spec fn obeys_eq_spec() -> bool {
        true
    }

    open spec fn eq_spec(&self, other: &Self) -> bool {
        true
    }
}

} // verus!
