//! The in-memory collection of available drivers that front ends query
//! to find out which connected peripherals are supported and to open
//! them.

use vstd::prelude::*;
use crate::device::Device;
use crate::driver::Driver;
use crate::error::Error;
use crate::identity::Identity;

verus! {

/// A collection of registered [`Driver`]s, queried in registration order
/// to find which one (if any) recognizes a given [`Identity`].
pub struct DriverRegistry {
    drivers: Vec<Box<dyn Driver>>,
}

/// The position of the first driver in `drivers` that recognizes
/// `identity`, if any.
pub open spec fn first_recognizing(drivers: Seq<Box<dyn Driver>>, identity: Identity) -> Option<int>
    decreases drivers.len(),
{
    if drivers.len() == 0 {
        None
    } else if drivers[0].recognizes(identity) {
        Some(0)
    } else {
        match first_recognizing(drivers.drop_first(), identity) {
            Some(i) => Some(i + 1),
            None => None,
        }
    }
}

/// `first_recognizing` finds the first recognizing driver, or `None`
/// when no driver recognizes the identity.
pub proof fn lemma_first_recognizing(drivers: Seq<Box<dyn Driver>>, identity: Identity)
    ensures
        match first_recognizing(drivers, identity) {
            Some(i) => 0 <= i < drivers.len() && drivers[i].recognizes(identity)
                && forall|j: int| 0 <= j < i ==> !(#[trigger] drivers[j]).recognizes(identity),
            None => forall|j: int| 0 <= j < drivers.len() ==> !(#[trigger] drivers[j]).recognizes(identity),
        },
    decreases drivers.len(),
{
    if drivers.len() > 0 && !drivers[0].recognizes(identity) {
        let rest = drivers.drop_first();
        lemma_first_recognizing(rest, identity);
        assert forall|j: int| 1 <= j < drivers.len() implies #[trigger] drivers[j] == rest[j - 1] by {}
    }
}

/// What opening `identity` through `drivers` gives: unsupported when
/// none recognizes it, otherwise an outcome of the first recognizing
/// driver's `open`.
pub open spec fn open_outcome(drivers: Seq<Box<dyn Driver>>, identity: Identity, r: Result<Box<dyn Device>, Error>) -> bool {
    match first_recognizing(drivers, identity) {
        None => r matches Err(Error::Unsupported),
        Some(i) => drivers[i].opens(identity, r),
    }
}

impl DriverRegistry {
    /// The registered drivers, in registration order.
    pub closed spec fn drivers(&self) -> Seq<Box<dyn Driver>> {
        self.drivers@
    }

    /// An empty registry with no drivers registered.
    pub fn new() -> (r: Self)
        ensures
            r.drivers() == Seq::<Box<dyn Driver>>::empty(),
    {
        DriverRegistry { drivers: Vec::new() }
    }

    /// Adds a driver to the registry, after every driver already there.
    pub fn register(&mut self, driver: Box<dyn Driver>)
        ensures
            final(self).drivers() == old(self).drivers().push(driver),
    {
        self.drivers.push(driver);
    }

    /// The position of the first registered driver whose probe
    /// recognizes `identity`, if any. No I/O.
    pub fn find_index(&self, identity: &Identity) -> (r: Option<usize>)
        ensures
            r is None <==> first_recognizing(self.drivers(), *identity) is None,
            r matches Some(j) ==> first_recognizing(self.drivers(), *identity) == Some(j as int),
    {
        proof {
            lemma_first_recognizing(self.drivers@, *identity);
        }
        let mut i: usize = 0;
        while i < self.drivers.len()
            invariant
                i <= self.drivers@.len(),
                forall|j: int| 0 <= j < i ==> !(#[trigger] self.drivers@[j]).recognizes(*identity),
                match first_recognizing(self.drivers@, *identity) {
                    Some(k) => 0 <= k < self.drivers@.len() && self.drivers@[k].recognizes(*identity)
                        && forall|j: int| 0 <= j < k ==> !(#[trigger] self.drivers@[j]).recognizes(*identity),
                    None => forall|j: int| 0 <= j < self.drivers@.len() ==> !(#[trigger] self.drivers@[j]).recognizes(*identity),
                },
            decreases self.drivers@.len() - i,
        {
            if self.drivers[i].probe(identity) {
                return Some(i);
            }
            i = i + 1;
        }
        None
    }

    /// The first registered driver whose probe recognizes `identity`, if
    /// any: the one at [`Self::find_index`]. No I/O.
    pub fn find(&self, identity: &Identity) -> (r: Option<&Box<dyn Driver>>)
        ensures
            r is Some <==> first_recognizing(self.drivers(), *identity) is Some,
            r matches Some(d) ==> *d == self.drivers()[first_recognizing(self.drivers(), *identity)->0],
    {
        proof {
            lemma_first_recognizing(self.drivers@, *identity);
        }
        match self.find_index(identity) {
            Some(i) => Some(&self.drivers[i]),
            None => None,
        }
    }

    /// Finds and opens a device in one call: [`Error::Unsupported`] when
    /// no registered driver recognizes `identity`, otherwise exactly what
    /// the first recognizing driver's `open` returns; no other driver is
    /// opened.
    pub fn open(&self, identity: &Identity) -> (r: Result<Box<dyn Device>, Error>)
        ensures
            open_outcome(self.drivers(), *identity, r),
    {
        proof {
            lemma_first_recognizing(self.drivers@, *identity);
        }
        match self.find_index(identity) {
            Some(i) => self.drivers[i].open(identity),
            None => Err(Error::Unsupported),
        }
    }
}

} // verus!
