//! What an execution leaves to be applied when its transaction is finalized.

use crate::hash::{Address, H256};
use crate::uint::U256;
use vstd::prelude::*;

verus! {

/// A set of addresses, kept as a list in which none occurs twice.
pub struct AddressSet {
    items: Vec<Address>,
}

/// The addresses in a list.
spec fn members(items: Seq<Address>) -> Set<Seq<u8>> {
    address_views(items).to_set()
}

/// No address occurs twice.
spec fn distinct(items: Seq<Address>) -> bool {
    forall|i: int, j: int|
        0 <= i < j < items.len() ==> #[trigger] items[i]@ != #[trigger] items[j]@
}

impl View for AddressSet {
    type V = Set<Seq<u8>>;

    closed spec fn view(&self) -> Set<Seq<u8>> {
        members(self.items@)
    }
}

impl AddressSet {
    #[verifier::type_invariant]
    spec fn no_repetition(self) -> bool {
        distinct(self.items@)
    }

    /// The empty set.
    pub fn new() -> (set: AddressSet)
        ensures
            set@ == Set::<Seq<u8>>::empty(),
    {
        let set: AddressSet = AddressSet { items: Vec::new() };
        assert(set@ =~= Set::<Seq<u8>>::empty());
        set
    }

    /// How many addresses are in the set.
    pub fn len(&self) -> (len: usize)
        ensures
            self@.finite(),
            len == self@.len(),
    {
        proof {
            use_type_invariant(self);
            let keys = address_views(self.items@);
            assert(keys.no_duplicates());
            keys.unique_seq_to_set();
            vstd::seq_lib::seq_to_set_is_finite(keys);
        }
        self.items.len()
    }

    /// Whether the address is in the set.
    pub fn contains(&self, a: &Address) -> (found: bool)
        ensures
            found == self@.contains(a@),
    {
        let mut i: usize = 0;
        let ghost keys = address_views(self.items@);
        while i < self.items.len()
            invariant
                i <= self.items@.len(),
                keys == address_views(self.items@),
                forall|j: int| 0 <= j < i ==> keys[j] != a@,
            decreases self.items@.len() - i,
        {
            if self.items[i].same(a) {
                assert(keys[i as int] == a@);
                return true;
            }
            i = i + 1;
        }
        assert(!keys.contains(a@));
        false
    }

    /// Puts an address into the set.
    pub fn insert(&mut self, a: &Address)
        ensures
            final(self)@ == old(self)@.insert(a@),
    {
        if self.contains(a) {
            assert(self@ =~= old(self)@.insert(a@));
            return;
        }
        proof {
            use_type_invariant(&*self);
        }
        let mut items: Vec<Address> = Vec::new();
        std::mem::swap(&mut items, &mut self.items);
        let ghost before = items@;
        items.push(*a);
        proof {
            let keys = address_views(before);
            let more = address_views(items@);
            assert(!keys.contains(a@));
            assert forall|i: int| 0 <= i < before.len() implies #[trigger] before[i]@ != a@ by {
                assert(keys[i] == before[i]@);
            }
            assert(more =~= keys.push(a@));
            assert(keys.push(a@).to_set() =~= keys.to_set().insert(a@)) by {
                keys.lemma_push_to_set_commute(a@);
            }
        }
        self.items = items;
    }

    /// The addresses in the set, each once.
    pub fn items(&self) -> (items: &Vec<Address>)
        ensures
            self@ == address_views(items@).to_set(),
            address_views(items@).no_duplicates(),
    {
        proof {
            use_type_invariant(self);
        }
        &self.items
    }
}

/// An entry in a transaction's log.
#[derive(Debug)]
pub struct LogEntry {
    /// The account that made the entry.
    pub address: Address,
    /// What the entry can be found by.
    pub topics: Vec<H256>,
    /// What it says.
    pub data: Vec<u8>,
}

/// What a log entry holds.
#[verifier::ext_equal]
pub ghost struct LogView {
    pub address: Seq<u8>,
    pub topics: Seq<Seq<u8>>,
    pub data: Seq<u8>,
}

impl View for LogEntry {
    type V = LogView;

    open spec fn view(&self) -> LogView {
        LogView {
            address: self.address@,
            topics: self.topics@.map_values(|topic: H256| topic@),
            data: self.data@,
        }
    }
}

/// The entries of a log.
pub open spec fn log_views(logs: Seq<LogEntry>) -> Seq<LogView> {
    logs.map_values(|entry: LogEntry| entry@)
}

/// The bytes of each address in a list.
pub open spec fn address_views(addresses: Seq<Address>) -> Seq<Seq<u8>> {
    addresses.map_values(|address: Address| address@)
}

/// State changes which should be applied in finalize,
/// after transaction is fully executed.
pub struct Substate {
    /// Any accounts that have suicided.
    pub suicides: AddressSet,
    /// Any logs.
    pub logs: Vec<LogEntry>,
    /// Refund counter of SSTORE nonzero->zero.
    pub refunds_count: U256,
    /// True if transaction, or one of its subcalls runs out of gas.
    pub out_of_gas: bool,
    /// Created contracts.
    pub contracts_created: Vec<Address>,
}

/// What a substate holds.
#[verifier::ext_equal]
pub ghost struct SubstateView {
    pub suicides: Set<Seq<u8>>,
    pub logs: Seq<LogView>,
    pub refunds_count: nat,
    pub out_of_gas: bool,
    pub contracts_created: Seq<Seq<u8>>,
}

impl View for Substate {
    type V = SubstateView;

    open spec fn view(&self) -> SubstateView {
        SubstateView {
            suicides: self.suicides@,
            logs: log_views(self.logs@),
            refunds_count: self.refunds_count@,
            out_of_gas: self.out_of_gas,
            contracts_created: address_views(self.contracts_created@),
        }
    }
}

impl SubstateView {
    /// The substate of an execution that nothing has happened in.
    pub open spec fn empty() -> SubstateView {
        SubstateView {
            suicides: Set::empty(),
            logs: Seq::empty(),
            refunds_count: 0,
            out_of_gas: false,
            contracts_created: Seq::empty(),
        }
    }
}

impl Substate {
    /// Creates new substate.
    pub fn new() -> (substate: Substate)
        ensures
            substate@ == SubstateView::empty(),
    {
        let substate: Substate = Substate {
            suicides: AddressSet::new(),
            logs: Vec::new(),
            refunds_count: U256::zero(),
            out_of_gas: false,
            contracts_created: Vec::new(),
        };
        assert(substate@ =~= SubstateView::empty());
        substate
    }

    /// Whether the transaction, or one of its subcalls, ran out of gas.
    pub fn out_of_gas(&self) -> (out_of_gas: bool)
        ensures
            out_of_gas == self@.out_of_gas,
    {
        self.out_of_gas
    }
}

} // verus!
