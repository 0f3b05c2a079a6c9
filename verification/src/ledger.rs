//! The store of records by address, and the two steps that every registry
//! operation is made of: placing a new record at a derived address, and
//! changing the record at a given address.
//!
//! An address holds at most one record. Placing a record at an address that
//! is taken fails and changes nothing, and no step removes a record. The
//! transition that initializes a record is handed what lives at the address,
//! and `claim` says what it makes of it.

use crate::address::Pubkey;
use vstd::prelude::*;

verus! {

/// Why a registry operation failed.
#[derive(Clone, Copy, Debug, PartialEq, Eq)]
pub enum LedgerError<E> {
    /// No address could be derived for the record.
    AddressNotDerivable,
    /// A record lives at the derived address already.
    AddressInUse,
    /// No record lives at the given address.
    AccountNotFound,
    /// The operation's own rules refused the call.
    Rejected(E),
}

/// What lives at an address, by its value: `None` while the address is free.
pub open spec fn slot_view<R: View>(slot: Option<R>) -> Option<R::V> {
    match slot {
        Some(record) => Some(record@),
        None => None,
    }
}

/// What initializing the record at one address gives, where `slot` is what
/// lives there and `outcome` the record's own rules. A taken address is
/// refused with `AddressInUse` and keeps its record. At a free one the rules
/// decide: their record moves in, or their error is reported and the address
/// stays free.
pub open spec fn claim<V, E>(slot: Option<V>, outcome: Result<V, E>) -> (
    Option<V>,
    Result<(), LedgerError<E>>,
) {
    match slot {
        Some(_) => (slot, Err(LedgerError::AddressInUse)),
        None => match outcome {
            Ok(record) => (Some(record), Ok(())),
            Err(error) => (None, Err(LedgerError::Rejected(error))),
        },
    }
}

/// What placing a new record gives. `derived` is the address derived for the
/// record, with its bump seed, and `outcome` the record's own rules, given
/// the bump seed. The address is looked at first: without one the step fails
/// with `AddressNotDerivable`, at a taken one with `AddressInUse`. Then the
/// rules decide. The ledger changes only on success, by the new record.
pub open spec fn place<V, E>(
    ledger: Map<Seq<u8>, V>,
    derived: Option<(Seq<u8>, u8)>,
    outcome: spec_fn(u8) -> Result<V, E>,
) -> (Map<Seq<u8>, V>, Result<(), LedgerError<E>>) {
    match derived {
        None => (ledger, Err(LedgerError::AddressNotDerivable)),
        Some((address, bump)) => {
            if ledger.dom().contains(address) {
                (ledger, Err(LedgerError::AddressInUse))
            } else {
                match outcome(bump) {
                    Ok(record) => (ledger.insert(address, record), Ok(())),
                    Err(error) => (ledger, Err(LedgerError::Rejected(error))),
                }
            }
        },
    }
}

/// What changing the record at `address` gives. Without a record there the
/// step fails with `AccountNotFound`. Else `outcome` decides, given the
/// record: on success its record replaces the old one, on failure the ledger
/// stays as it was.
pub open spec fn change<V, E>(
    ledger: Map<Seq<u8>, V>,
    address: Seq<u8>,
    outcome: spec_fn(V) -> Result<V, E>,
) -> (Map<Seq<u8>, V>, Result<(), LedgerError<E>>) {
    if !ledger.dom().contains(address) {
        (ledger, Err(LedgerError::AccountNotFound))
    } else {
        match outcome(ledger[address]) {
            Ok(record) => (ledger.insert(address, record), Ok(())),
            Err(error) => (ledger, Err(LedgerError::Rejected(error))),
        }
    }
}

/// What reading the record at `address` gives: `AccountNotFound` without a
/// record there, else what `outcome` says of the record.
pub open spec fn inspect<V, E>(
    ledger: Map<Seq<u8>, V>,
    address: Seq<u8>,
    outcome: spec_fn(V) -> Result<(), E>,
) -> Result<(), LedgerError<E>> {
    if !ledger.dom().contains(address) {
        Err(LedgerError::AccountNotFound)
    } else {
        match outcome(ledger[address]) {
            Ok(()) => Ok(()),
            Err(error) => Err(LedgerError::Rejected(error)),
        }
    }
}

/// Every address taken in `before` is taken in `after`.
pub open spec fn keeps_addresses<V>(before: Map<Seq<u8>, V>, after: Map<Seq<u8>, V>) -> bool {
    forall|address: Seq<u8>| #[trigger]
        before.dom().contains(address) ==> after.dom().contains(address)
}

/// Initializing never replaces a record: what lives at a taken address is
/// there afterwards, whatever the rules would have said, and a record moves
/// in only where the address was free.
pub proof fn claim_keeps_what_is_there<V, E>(slot: Option<V>, outcome: Result<V, E>)
    ensures
        slot is Some ==> claim(slot, outcome) == (
            slot,
            Err::<(), LedgerError<E>>(LedgerError::AddressInUse),
        ),
        claim(slot, outcome).1 is Ok ==> slot is None && outcome is Ok && claim(slot, outcome).0
            == Some(outcome->Ok_0),
        claim(slot, outcome).1 is Err ==> claim(slot, outcome).0 == slot,
{
}

/// Neither step removes a record: an address that is taken stays taken.
pub proof fn steps_keep_addresses<V, E>(
    ledger: Map<Seq<u8>, V>,
    derived: Option<(Seq<u8>, u8)>,
    fresh: spec_fn(u8) -> Result<V, E>,
    address: Seq<u8>,
    outcome: spec_fn(V) -> Result<V, E>,
)
    ensures
        keeps_addresses(ledger, place(ledger, derived, fresh).0),
        keeps_addresses(ledger, change(ledger, address, outcome).0),
{
}

/// A step that fails changes nothing, and a successful `place` leaves a
/// record at the derived address.
pub proof fn steps_are_all_or_nothing<V, E>(
    ledger: Map<Seq<u8>, V>,
    derived: Option<(Seq<u8>, u8)>,
    fresh: spec_fn(u8) -> Result<V, E>,
    address: Seq<u8>,
    outcome: spec_fn(V) -> Result<V, E>,
)
    ensures
        place(ledger, derived, fresh).1 is Err ==> place(ledger, derived, fresh).0 == ledger,
        change(ledger, address, outcome).1 is Err ==> change(ledger, address, outcome).0 == ledger,
        place(ledger, derived, fresh).1 is Ok ==> derived is Some && place(
            ledger,
            derived,
            fresh,
        ).0.dom().contains(derived->Some_0.0),
{
}

/// Once a record was placed at a derived address, every later `place` at
/// that address fails with `AddressInUse`, whatever record it brings and
/// whatever steps were taken in between.
pub proof fn second_place_is_refused<V, E>(
    ledger: Map<Seq<u8>, V>,
    derived: Option<(Seq<u8>, u8)>,
    first: spec_fn(u8) -> Result<V, E>,
    later: Map<Seq<u8>, V>,
    second: spec_fn(u8) -> Result<V, E>,
)
    requires
        place(ledger, derived, first).1 is Ok,
        keeps_addresses(place(ledger, derived, first).0, later),
    ensures
        place(later, derived, second) == (
            later,
            Err::<(), LedgerError<E>>(LedgerError::AddressInUse),
        ),
{
    let address = derived->Some_0.0;
    assert(place(ledger, derived, first).0.dom().contains(address));
}

/// Every record of `before` that has `flag` is still there in `after`,
/// and still has it.
pub open spec fn keeps<V>(
    before: Map<Seq<u8>, V>,
    after: Map<Seq<u8>, V>,
    flag: spec_fn(V) -> bool,
) -> bool {
    forall|address: Seq<u8>|
        #![trigger after.dom().contains(address)]
        before.dom().contains(address) && flag(before[address]) ==> after.dom().contains(
            address,
        ) && flag(after[address])
}

/// Where no change of a record can take `flag` from it, no step takes
/// it from any record of the ledger.
pub proof fn steps_keep<V, E>(
    ledger: Map<Seq<u8>, V>,
    derived: Option<(Seq<u8>, u8)>,
    fresh: spec_fn(u8) -> Result<V, E>,
    address: Seq<u8>,
    outcome: spec_fn(V) -> Result<V, E>,
    flag: spec_fn(V) -> bool,
)
    requires
        forall|record: V|
            flag(record) ==> (#[trigger] outcome(record) matches Ok(changed) ==> flag(
                changed,
            )),
    ensures
        keeps(ledger, place(ledger, derived, fresh).0, flag),
        keeps(ledger, change(ledger, address, outcome).0, flag),
{
    if ledger.dom().contains(address) {
        let record = ledger[address];
        assert(flag(record) ==> (outcome(record) matches Ok(changed) ==> flag(changed)));
    }
}

/// What is kept from one ledger to a second and from the second to a third
/// is kept from the first to the third; and a ledger keeps what it has.
pub proof fn keeps_is_a_preorder<V>(
    first: Map<Seq<u8>, V>,
    second: Map<Seq<u8>, V>,
    third: Map<Seq<u8>, V>,
    flag: spec_fn(V) -> bool,
)
    ensures
        keeps(first, first, flag),
        keeps_addresses(first, first),
        keeps(first, second, flag) && keeps(second, third, flag) ==> keeps(
            first,
            third,
            flag,
        ),
        keeps_addresses(first, second) && keeps_addresses(second, third) ==> keeps_addresses(
            first,
            third,
        ),
{
    if keeps(first, second, flag) && keeps(second, third, flag) {
        assert forall|address: Seq<u8>|
            first.dom().contains(address) && flag(first[address]) implies third.dom().contains(
            address,
        ) && flag(third[address]) by {
            assert(second.dom().contains(address));
        }
    }
    if keeps_addresses(first, second) && keeps_addresses(second, third) {
        assert forall|address: Seq<u8>| first.dom().contains(address) implies third.dom().contains(
            address,
        ) by {
            assert(second.dom().contains(address));
        }
    }
}

/// One record and the address it lives at.
struct Entry<R> {
    address: Pubkey,
    record: R,
}

/// A store of records, at most one per address.
pub struct Ledger<R> {
    entries: Vec<Entry<R>>,
}

impl<R: View> Ledger<R> {
    /// No two entries share an address.
    pub closed spec fn wf(self) -> bool {
        forall|i: int, j: int|
            0 <= i < j < self.entries@.len() ==> self.entries@[i].address@
                != self.entries@[j].address@
    }

    /// Whether the entry at position `i` lives at `address`.
    spec fn lives_at(self, i: int, address: Seq<u8>) -> bool {
        0 <= i < self.entries@.len() && self.entries@[i].address@ == address
    }

    /// Whether some entry lives at `address`.
    spec fn holds(self, address: Seq<u8>) -> bool {
        exists|i: int| self.lives_at(i, address)
    }

    /// The position of an entry at `address`.
    spec fn position_of(self, address: Seq<u8>) -> int {
        choose|i: int| self.lives_at(i, address)
    }

    /// The records by address.
    pub closed spec fn view(&self) -> Map<Seq<u8>, R::V> {
        Map::new(
            |address: Seq<u8>| self.holds(address),
            |address: Seq<u8>| self.entries@[self.position_of(address)].record@,
        )
    }

    /// The addresses of the first `n` entries.
    spec fn addresses_before(self, n: int) -> Set<Seq<u8>> {
        Set::new(|address: Seq<u8>| exists|i: int| i < n && self.lives_at(i, address))
    }

    /// The entry at position `i` is the one that the view shows at its
    /// address.
    proof fn lemma_entry_is_viewed(self, i: int)
        requires
            self.wf(),
            0 <= i < self.entries@.len(),
        ensures
            self@.dom().contains(self.entries@[i].address@),
            self@[self.entries@[i].address@] == self.entries@[i].record@,
            self.position_of(self.entries@[i].address@) == i,
    {
        let address = self.entries@[i].address@;
        assert(self.lives_at(i, address));
        let k = self.position_of(address);
        assert(self.lives_at(k, address));
        if k < i {
            assert(self.entries@[k].address@ != self.entries@[i].address@);
        } else if i < k {
            assert(self.entries@[i].address@ != self.entries@[k].address@);
        }
    }

    /// The first `n` entries hold `n` addresses.
    proof fn lemma_count(self, n: int)
        requires
            self.wf(),
            0 <= n <= self.entries@.len(),
        ensures
            self.addresses_before(n).finite(),
            self.addresses_before(n).len() == n,
        decreases n,
    {
        if n == 0 {
            assert(self.addresses_before(0) =~= Set::<Seq<u8>>::empty());
        } else {
            self.lemma_count(n - 1);
            let last = self.entries@[n - 1].address@;
            let before = self.addresses_before(n - 1);
            if before.contains(last) {
                let i = choose|i: int| i < n - 1 && self.lives_at(i, last);
                assert(self.entries@[i].address@ != self.entries@[n - 1].address@);
            }
            assert forall|address: Seq<u8>| before.insert(last).contains(address)
                implies self.addresses_before(n).contains(address) by {
                if address == last {
                    assert(self.lives_at(n - 1, address));
                } else {
                    let i = choose|i: int| i < n - 1 && self.lives_at(i, address);
                    assert(self.lives_at(i, address));
                }
            }
            assert(self.addresses_before(n) =~= before.insert(last));
        }
    }

    /// A ledger with one more entry, at an address that was free, shows the
    /// records of the old one and the new record.
    proof fn lemma_pushed(self, after: Ledger<R>, address: Pubkey, record: R)
        requires
            self.wf(),
            !self@.dom().contains(address@),
            after.entries@ == self.entries@.push(Entry { address, record }),
        ensures
            after.wf(),
            after@ == self@.insert(address@, record@),
    {
        let n = self.entries@.len() as int;
        assert forall|i: int, j: int| 0 <= i < j < after.entries@.len()
            implies after.entries@[i].address@ != after.entries@[j].address@ by {
            if j == n && after.entries@[i].address@ == address@ {
                assert(self.lives_at(i, address@));
            }
        }
        assert forall|a: Seq<u8>| after.holds(a) <==> (a == address@ || self.holds(a)) by {
            if after.holds(a) {
                let k = after.position_of(a);
                if k < n {
                    assert(self.lives_at(k, a));
                }
            }
            if a == address@ {
                assert(after.lives_at(n, a));
            }
            if self.holds(a) {
                assert(after.lives_at(self.position_of(a), a));
            }
        }
        assert forall|a: Seq<u8>| after.holds(a)
            implies #[trigger] after@[a] == self@.insert(address@, record@)[a] by {
            let k = after.position_of(a);
            after.lemma_entry_is_viewed(k);
            if k < n {
                self.lemma_entry_is_viewed(k);
            }
        }
        assert(after@ =~= self@.insert(address@, record@));
    }

    /// A ledger without the entry at position `at` shows the records of the
    /// old one but the one at that entry's address.
    proof fn lemma_removed(self, after: Ledger<R>, at: int)
        requires
            self.wf(),
            0 <= at < self.entries@.len(),
            after.entries@ == self.entries@.remove(at),
        ensures
            after.wf(),
            after@ == self@.remove(self.entries@[at].address@),
    {
        let n = after.entries@.len() as int;
        let address = self.entries@[at].address@;
        assert forall|i: int, j: int| 0 <= i < j < n
            implies after.entries@[i].address@ != after.entries@[j].address@ by {
            let i0 = if i < at { i } else { i + 1 };
            let j0 = if j < at { j } else { j + 1 };
            assert(self.entries@[i0].address@ != self.entries@[j0].address@);
        }
        assert forall|a: Seq<u8>| after.holds(a) <==> (a != address && self.holds(a)) by {
            if after.holds(a) {
                let k = after.position_of(a);
                let k0 = if k < at { k } else { k + 1 };
                assert(self.lives_at(k0, a));
                if k0 < at {
                    assert(self.entries@[k0].address@ != self.entries@[at].address@);
                } else {
                    assert(self.entries@[at].address@ != self.entries@[k0].address@);
                }
            }
            if a != address && self.holds(a) {
                let k = self.position_of(a);
                let k1 = if k < at { k } else { k - 1 };
                assert(after.lives_at(k1, a));
            }
        }
        assert forall|a: Seq<u8>| after.holds(a)
            implies #[trigger] after@[a] == self@.remove(address)[a] by {
            let k = after.position_of(a);
            after.lemma_entry_is_viewed(k);
            self.lemma_entry_is_viewed(if k < at { k } else { k + 1 });
        }
        assert(after@ =~= self@.remove(address));
    }

    /// An empty ledger.
    pub fn new() -> (ledger: Ledger<R>)
        ensures
            ledger.wf(),
            ledger@ == Map::<Seq<u8>, R::V>::empty(),
    {
        let ledger = Ledger { entries: Vec::new() };
        assert(ledger@ =~= Map::<Seq<u8>, R::V>::empty());
        ledger
    }

    /// The position of the entry at `address`, if there is one.
    fn position(&self, address: &Pubkey) -> (found: Option<usize>)
        requires
            self.wf(),
        ensures
            match found {
                Some(i) => self.lives_at(i as int, address@),
                None => !self@.dom().contains(address@),
            },
    {
        let mut i: usize = 0;
        while i < self.entries.len()
            invariant
                i <= self.entries@.len(),
                forall|j: int| j < i ==> !self.lives_at(j, address@),
            decreases self.entries@.len() - i,
        {
            if self.entries[i].address.equals(address) {
                return Some(i);
            }
            i += 1;
        }
        None
    }

    /// Whether a record lives at `address`.
    pub fn contains(&self, address: &Pubkey) -> (found: bool)
        requires
            self.wf(),
        ensures
            found == self@.dom().contains(address@),
    {
        match self.position(address) {
            Some(i) => {
                proof {
                    self.lemma_entry_is_viewed(i as int);
                }
                true
            },
            None => false,
        }
    }

    /// The record at `address`, if there is one.
    pub fn get(&self, address: &Pubkey) -> (found: Option<&R>)
        requires
            self.wf(),
        ensures
            match found {
                Some(record) => self@.dom().contains(address@) && record@ == self@[address@],
                None => !self@.dom().contains(address@),
            },
    {
        match self.position(address) {
            Some(i) => {
                proof {
                    self.lemma_entry_is_viewed(i as int);
                }
                Some(&self.entries[i].record)
            },
            None => None,
        }
    }

    /// The number of records.
    pub fn len(&self) -> (n: usize)
        requires
            self.wf(),
        ensures
            self@.dom().finite(),
            n == self@.dom().len(),
    {
        proof {
            self.lemma_count(self.entries@.len() as int);
            assert(self.addresses_before(self.entries@.len() as int) =~= self@.dom());
        }
        self.entries.len()
    }

    /// Adds `record` at `address`, where no record lives yet.
    pub fn insert(&mut self, address: Pubkey, record: R)
        requires
            old(self).wf(),
            !old(self)@.dom().contains(address@),
        ensures
            final(self).wf(),
            final(self)@ == old(self)@.insert(address@, record@),
    {
        self.entries.push(Entry { address, record });
        proof {
            old(self).lemma_pushed(*self, address, record);
        }
    }

    /// Takes the record at `address` out of the ledger, if there is one, for
    /// the caller to put it back changed.
    pub fn remove(&mut self, address: &Pubkey) -> (taken: Option<R>)
        requires
            old(self).wf(),
        ensures
            final(self).wf(),
            match taken {
                Some(record) => {
                    &&& old(self)@.dom().contains(address@)
                    &&& record@ == old(self)@[address@]
                    &&& final(self)@ == old(self)@.remove(address@)
                },
                None => !old(self)@.dom().contains(address@) && final(self)@ == old(self)@,
            },
    {
        match self.position(address) {
            None => None,
            Some(at) => {
                let entry = self.entries.remove(at);
                proof {
                    old(self).lemma_entry_is_viewed(at as int);
                    old(self).lemma_removed(*self, at as int);
                }
                Some(entry.record)
            },
        }
    }
}

} // verus!
