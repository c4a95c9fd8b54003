//! The registry of pool contracts deployed by the factory. A pool is
//! registered at the position (block number, log ordinal) of its deployment
//! and stays registered; a lookup at a position sees only registrations made
//! strictly before it, in an earlier block or earlier in the same block.
use vstd::prelude::*;
use crate::store::str_equal;

verus! {

/// A position in the chain: block number, then ordinal within the block.
pub open spec fn before_position(p: (u64, u64), block_number: u64, ordinal: u64) -> bool {
    p.0 < block_number || (p.0 == block_number && p.1 < ordinal)
}

/// The registrations after recording an address at a position: a first
/// recording counts, a repeated one changes nothing.
pub open spec fn recorded(
    m: Map<Seq<char>, (u64, u64)>,
    address: Seq<char>,
    position: (u64, u64),
) -> Map<Seq<char>, (u64, u64)> {
    if m.contains_key(address) {
        m
    } else {
        m.insert(address, position)
    }
}

/// Recording an address twice is recording it once; it is registered after
/// either.
pub proof fn lemma_record_idempotent(
    m: Map<Seq<char>, (u64, u64)>,
    address: Seq<char>,
    first: (u64, u64),
    second: (u64, u64),
)
    ensures
        recorded(recorded(m, address, first), address, second) == recorded(m, address, first),
        recorded(m, address, first).contains_key(address),
        recorded(recorded(m, address, first), address, second).contains_key(address),
{
}

/// One registration.
pub struct Registration {
    pub address: String,
    pub block_number: u64,
    pub ordinal: u64,
}

/// Addresses of deployed pools, each with the position it was recorded at.
pub struct AddressRegistry {
    entries: Vec<Registration>,
    model: Ghost<Map<Seq<char>, (u64, u64)>>,
}

impl AddressRegistry {
    /// Each registered address with its position.
    pub closed spec fn registrations(&self) -> Map<Seq<char>, (u64, u64)> {
        self.model@
    }

    /// Entries and registrations agree.
    pub closed spec fn wf(&self) -> bool {
        &&& forall|i: int|
            0 <= i < self.entries@.len() ==> {
                &&& self.model@.contains_key(#[trigger] self.entries@[i].address@)
                &&& self.model@[self.entries@[i].address@] == (
                    self.entries@[i].block_number,
                    self.entries@[i].ordinal,
                )
            }
        &&& forall|k: Seq<char>|
            self.model@.contains_key(k) ==> exists|i: int|
                0 <= i < self.entries@.len() && (#[trigger] self.entries@[i]).address@ == k
    }

    /// A registry with nothing registered.
    pub fn new() -> (r: AddressRegistry)
        ensures
            r.wf(),
            r.registrations() == Map::<Seq<char>, (u64, u64)>::empty(),
    {
        AddressRegistry { entries: Vec::new(), model: Ghost(Map::empty()) }
    }

    fn find(&self, address: &str) -> (r: Option<usize>)
        requires
            self.wf(),
        ensures
            r matches Some(i) ==> i < self.entries@.len() && self.entries@[i as int].address@
                == address@,
            r is None <==> !self.model@.contains_key(address@),
    {
        let mut i: usize = 0;
        while i < self.entries.len()
            invariant
                self.wf(),
                i <= self.entries@.len(),
                forall|j: int| 0 <= j < i ==> self.entries@[j].address@ != address@,
            decreases self.entries@.len() - i,
        {
            if str_equal(self.entries[i].address.as_str(), address) {
                proof {
                    assert(self.model@.contains_key(self.entries@[i as int].address@));
                }
                return Some(i);
            }
            i = i + 1;
        }
        proof {
            if self.model@.contains_key(address@) {
                let k = choose|k: int|
                    0 <= k < self.entries@.len() && (#[trigger] self.entries@[k]).address@
                        == address@;
            }
        }
        None
    }

    /// Records an address as deployed at a position. Recording an address
    /// that is already registered changes nothing.
    pub fn record(&mut self, address: &str, block_number: u64, ordinal: u64)
        requires
            old(self).wf(),
        ensures
            final(self).wf(),
            final(self).registrations() == recorded(
                old(self).registrations(),
                address@,
                (block_number, ordinal),
            ),
    {
        if self.find(address).is_some() {
            return;
        }
        let ghost before = self.model@;
        self.entries.push(Registration { address: address.to_string(), block_number, ordinal });
        self.model = Ghost(before.insert(address@, (block_number, ordinal)));
        proof {
            let n = self.entries@.len();
            assert forall|k: Seq<char>| self.model@.contains_key(k) implies exists|i: int|
                0 <= i < self.entries@.len() && (#[trigger] self.entries@[i]).address@ == k by {
                if k == address@ {
                    assert(self.entries@[n - 1].address@ == k);
                } else {
                    let i = choose|i: int|
                        0 <= i < old(self).entries@.len() && (#[trigger] old(self).entries@[i]).address@
                            == k;
                    assert(self.entries@[i].address@ == k);
                }
            }
            assert forall|i: int| 0 <= i < self.entries@.len() implies {
                &&& self.model@.contains_key(#[trigger] self.entries@[i].address@)
                &&& self.model@[self.entries@[i].address@] == (
                    self.entries@[i].block_number,
                    self.entries@[i].ordinal,
                )
            } by {
                if i < n - 1 {
                    assert(self.entries@[i] == old(self).entries@[i]);
                    assert(old(self).model@.contains_key(old(self).entries@[i].address@));
                }
            }
        }
    }

    /// Whether an address is registered at all.
    pub fn is_registered(&self, address: &str) -> (r: bool)
        requires
            self.wf(),
        ensures
            r == self.registrations().contains_key(address@),
    {
        self.find(address).is_some()
    }

    /// Whether an address was registered strictly before a position.
    pub fn is_registered_at(&self, address: &str, block_number: u64, ordinal: u64) -> (r: bool)
        requires
            self.wf(),
        ensures
            r == (self.registrations().contains_key(address@) && before_position(
                self.registrations()[address@],
                block_number,
                ordinal,
            )),
    {
        match self.find(address) {
            Some(i) => {
                let e = &self.entries[i];
                e.block_number < block_number || (e.block_number == block_number && e.ordinal
                    < ordinal)
            },
            None => false,
        }
    }
}

} // verus!
