//! The registry of native contracts.

use crate::address::Address;
use crate::contract::{derived_from, Contract};
use vstd::prelude::*;

verus! {

/// What `registry` becomes when the registrations in `entries` are made on
/// top of it, in order: a later entry replaces an earlier one at the same
/// address.
pub open spec fn registered_onto<C>(
    registry: Map<Seq<u8>, C>,
    entries: Seq<(Address, C)>,
) -> Map<Seq<u8>, C>
    decreases entries.len(),
{
    if entries.len() == 0 {
        registry
    } else {
        registered_onto(registry, entries.drop_last()).insert(
            entries.last().0@,
            entries.last().1,
        )
    }
}

/// The registry that the registrations in `entries` build from nothing.
pub open spec fn registered<C>(entries: Seq<(Address, C)>) -> Map<Seq<u8>, C> {
    registered_onto(Map::empty(), entries)
}

/// What resolving `address` in `registry` may give: nothing where no
/// prototype is registered, else an instance of the prototype found there.
pub open spec fn resolves_to<C: Contract>(
    registry: Map<Seq<u8>, C>,
    address: Seq<u8>,
    outcome: Option<C>,
) -> bool {
    match outcome {
        Some(instance) => registry.dom().contains(address) && derived_from(
            registry[address],
            instance,
        ),
        None => !registry.dom().contains(address),
    }
}

/// No address occurs twice in `entries`.
spec fn distinct<C>(entries: Seq<(Address, C)>) -> bool {
    forall|i: int, j: int|
        0 <= i < j < entries.len() ==> (#[trigger] entries[i]).0@ != (#[trigger] entries[j]).0@
}

/// `address` occurs nowhere in `entries`.
spec fn absent<C>(entries: Seq<(Address, C)>, address: Seq<u8>) -> bool {
    forall|i: int| 0 <= i < entries.len() ==> (#[trigger] entries[i]).0@ != address
}

proof fn lemma_absent<C>(entries: Seq<(Address, C)>, address: Seq<u8>)
    requires
        absent(entries, address),
    ensures
        !registered(entries).dom().contains(address),
    decreases entries.len(),
{
    if entries.len() > 0 {
        assert(entries.last() == entries[entries.len() - 1]);
        assert forall|i: int| 0 <= i < entries.drop_last().len() implies (
        #[trigger] entries.drop_last()[i]).0@ != address by {
            assert(entries.drop_last()[i] == entries[i]);
        }
        lemma_absent(entries.drop_last(), address);
    }
}

proof fn lemma_distinct_prefix<C>(entries: Seq<(Address, C)>)
    requires
        distinct(entries),
        entries.len() > 0,
    ensures
        distinct(entries.drop_last()),
        absent(entries.drop_last(), entries.last().0@),
{
    let prefix = entries.drop_last();
    assert forall|i: int, j: int| 0 <= i < j < prefix.len() implies (#[trigger] prefix[i]).0@ != (
    #[trigger] prefix[j]).0@ by {
        assert(prefix[i] == entries[i] && prefix[j] == entries[j]);
    }
    assert forall|i: int| 0 <= i < prefix.len() implies (#[trigger] prefix[i]).0@
        != entries.last().0@ by {
        assert(prefix[i] == entries[i]);
        assert(entries.last() == entries[entries.len() - 1]);
    }
}

proof fn lemma_present<C>(entries: Seq<(Address, C)>, at: int)
    requires
        distinct(entries),
        0 <= at < entries.len(),
    ensures
        registered(entries).dom().contains(entries[at].0@),
        registered(entries)[entries[at].0@] == entries[at].1,
    decreases entries.len(),
{
    if at < entries.len() - 1 {
        lemma_distinct_prefix(entries);
        assert(entries.drop_last()[at] == entries[at]);
        lemma_present(entries.drop_last(), at);
    }
}

proof fn lemma_pushed<C>(entries: Seq<(Address, C)>, entry: (Address, C))
    ensures
        registered(entries.push(entry)) == registered(entries).insert(entry.0@, entry.1),
{
    assert(entries.push(entry).drop_last() =~= entries);
}

proof fn lemma_replaced<C>(entries: Seq<(Address, C)>, at: int, entry: (Address, C))
    requires
        distinct(entries),
        0 <= at < entries.len(),
        entry.0@ == entries[at].0@,
    ensures
        distinct(entries.update(at, entry)),
        registered(entries.update(at, entry)) == registered(entries).insert(entry.0@, entry.1),
    decreases entries.len(),
{
    let after = entries.update(at, entry);
    assert forall|i: int, j: int| 0 <= i < j < after.len() implies (#[trigger] after[i]).0@ != (
    #[trigger] after[j]).0@ by {
        assert(after[i].0@ == entries[i].0@ && after[j].0@ == entries[j].0@);
    }
    let prefix = entries.drop_last();
    lemma_distinct_prefix(entries);
    if at == entries.len() - 1 {
        assert(after.drop_last() =~= prefix);
        assert(registered(after) =~= registered(entries).insert(entry.0@, entry.1));
    } else {
        assert(after.drop_last() =~= prefix.update(at, entry));
        assert(prefix[at] == entries[at]);
        lemma_replaced(prefix, at, entry);
        assert(after.last() == entries.last());
        assert(entries[at].0@ != entries[entries.len() - 1].0@);
        assert(registered(after) =~= registered(entries).insert(entry.0@, entry.1));
    }
}

proof fn lemma_removed<C>(entries: Seq<(Address, C)>, at: int)
    requires
        distinct(entries),
        0 <= at < entries.len(),
    ensures
        distinct(entries.remove(at)),
        registered(entries.remove(at)) == registered(entries).remove(entries[at].0@),
    decreases entries.len(),
{
    let after = entries.remove(at);
    assert forall|i: int, j: int| 0 <= i < j < after.len() implies (#[trigger] after[i]).0@ != (
    #[trigger] after[j]).0@ by {
        let from_i = if i < at {
            i
        } else {
            i + 1
        };
        let from_j = if j < at {
            j
        } else {
            j + 1
        };
        assert(after[i] == entries[from_i] && after[j] == entries[from_j]);
    }
    let prefix = entries.drop_last();
    lemma_distinct_prefix(entries);
    if at == entries.len() - 1 {
        assert(after =~= prefix);
        lemma_absent(prefix, entries[at].0@);
        assert(registered(after) =~= registered(entries).remove(entries[at].0@));
    } else {
        assert(after.drop_last() =~= prefix.remove(at));
        assert(prefix[at] == entries[at]);
        lemma_removed(prefix, at);
        assert(after.last() == entries.last());
        assert(entries[at].0@ != entries[entries.len() - 1].0@);
        assert(registered(after) =~= registered(entries).remove(entries[at].0@));
    }
}

proof fn lemma_appended<C>(
    registry: Map<Seq<u8>, C>,
    first: Seq<(Address, C)>,
    then: Seq<(Address, C)>,
)
    ensures
        registered_onto(registered_onto(registry, first), then) == registered_onto(
            registry,
            first + then,
        ),
    decreases then.len(),
{
    if then.len() == 0 {
        assert(first + then =~= first);
    } else {
        lemma_appended(registry, first, then.drop_last());
        assert((first + then).drop_last() =~= first + then.drop_last());
        assert((first + then).last() == then.last());
    }
}

proof fn lemma_same_addresses<C>(entries: Seq<(Address, C)>, copies: Seq<(Address, C)>)
    requires
        distinct(entries),
        copies.len() == entries.len(),
        forall|i: int| 0 <= i < entries.len() ==> (#[trigger] copies[i]).0@ == entries[i].0@,
    ensures
        distinct(copies),
        registered(copies).dom() == registered(entries).dom(),
        forall|address: Seq<u8>| #[trigger]
            registered(entries).dom().contains(address) ==> exists|i: int|
                0 <= i < entries.len() && entries[i].0@ == address && registered(entries)[address]
                    == entries[i].1 && registered(copies)[address] == (#[trigger] copies[i]).1,
{
    assert forall|i: int, j: int| 0 <= i < j < copies.len() implies (#[trigger] copies[i]).0@ != (
    #[trigger] copies[j]).0@ by {
        assert(copies[i].0@ == entries[i].0@ && copies[j].0@ == entries[j].0@);
    }
    assert forall|address: Seq<u8>|
        registered(copies).dom().contains(address) == registered(entries).dom().contains(
            address,
        ) by {
        if exists|i: int| 0 <= i < entries.len() && (#[trigger] entries[i]).0@ == address {
            let i = choose|i: int| 0 <= i < entries.len() && (#[trigger] entries[i]).0@ == address;
            lemma_present(entries, i);
            lemma_present(copies, i);
        } else {
            assert forall|i: int| 0 <= i < copies.len() implies (#[trigger] copies[i]).0@
                != address by {
                assert(copies[i].0@ == entries[i].0@);
            }
            lemma_absent(entries, address);
            lemma_absent(copies, address);
        }
    }
    assert(registered(copies).dom() =~= registered(entries).dom());
    assert forall|address: Seq<u8>| #[trigger]
        registered(entries).dom().contains(address) implies exists|i: int|
        0 <= i < entries.len() && entries[i].0@ == address && registered(entries)[address]
            == entries[i].1 && registered(copies)[address] == (#[trigger] copies[i]).1 by {
        if absent(entries, address) {
            lemma_absent(entries, address);
        }
        let i = choose|i: int| 0 <= i < entries.len() && (#[trigger] entries[i]).0@ == address;
        lemma_present(entries, i);
        lemma_present(copies, i);
        assert(copies[i].1 == registered(copies)[address]);
    }
}

/// The registry of native contracts: for each registered address the
/// prototype from which the instances that serve calls to it are made.
pub struct Factory<C: Contract> {
    contracts: Vec<(Address, C)>,
}

impl<C: Contract> View for Factory<C> {
    type V = Map<Seq<u8>, C>;

    /// The prototype registered under each address.
    closed spec fn view(&self) -> Map<Seq<u8>, C> {
        registered(self.contracts@)
    }
}

impl<C: Contract> Factory<C> {
    #[verifier::type_invariant]
    spec fn well_formed(self) -> bool {
        distinct(self.contracts@)
    }

    /// A registry with nothing registered.
    pub fn new() -> (factory: Factory<C>)
        ensures
            factory@ == Map::<Seq<u8>, C>::empty(),
    {
        Factory { contracts: Vec::new() }
    }

    /// Where `address` stands among the entries, if it does.
    fn position(&self, address: &Address) -> (found: Option<usize>)
        ensures
            match found {
                Some(at) => at < self.contracts@.len() && self.contracts@[at as int].0@
                    == address@,
                None => absent(self.contracts@, address@),
            },
    {
        let mut at: usize = 0;
        while at < self.contracts.len()
            invariant
                at <= self.contracts@.len(),
                forall|i: int| 0 <= i < at ==> (#[trigger] self.contracts@[i]).0@ != address@,
            decreases self.contracts@.len() - at,
        {
            if self.contracts[at].0 == *address {
                return Some(at);
            }
            at += 1;
        }
        None
    }

    /// A fresh instance of the contract registered under `address`, or
    /// `None` where nothing is registered there. The registry itself is
    /// left as it was.
    pub fn new_contract(&self, address: Address) -> (instance: Option<C>)
        ensures
            resolves_to(self@, address@, instance),
    {
        proof {
            use_type_invariant(self);
        }
        match self.position(&address) {
            Some(at) => {
                proof {
                    lemma_present(self.contracts@, at as int);
                }
                Some(self.contracts[at].1.create())
            },
            None => {
                proof {
                    lemma_absent(self.contracts@, address@);
                }
                None
            },
        }
    }

    /// Binds `address` to the prototype `contract`. An earlier binding of
    /// the address is replaced; all others stay.
    pub fn register(&mut self, address: Address, contract: C)
        ensures
            final(self)@ == old(self)@.insert(address@, contract),
    {
        proof {
            use_type_invariant(&*self);
        }
        match self.position(&address) {
            Some(at) => {
                proof {
                    lemma_replaced(self.contracts@, at as int, (address, contract));
                }
                let mut contracts: Vec<(Address, C)> = Vec::new();
                std::mem::swap(&mut self.contracts, &mut contracts);
                contracts.set(at, (address, contract));
                self.contracts = contracts;
            },
            None => {
                proof {
                    lemma_pushed(self.contracts@, (address, contract));
                    assert(distinct(self.contracts@.push((address, contract))));
                }
                let mut contracts: Vec<(Address, C)> = Vec::new();
                std::mem::swap(&mut self.contracts, &mut contracts);
                contracts.push((address, contract));
                self.contracts = contracts;
            },
        }
    }

    /// Makes the registrations in `entries`, in order.
    fn register_all(&mut self, entries: Vec<(Address, C)>)
        ensures
            final(self)@ == registered_onto(old(self)@, entries@),
    {
        for entry in it: entries
            invariant
                it.seq() == entries@,
                self@ == registered_onto(old(self)@, entries@.take(it.index() as int)),
        {
            proof {
                let done = entries@.take(it.index() as int);
                let next = entries@.take(it.index() + 1);
                assert(next.drop_last() =~= done);
                assert(next.last() == entry);
            }
            let (address, contract) = entry;
            self.register(address, contract);
        }
        assert(entries@.take(entries@.len() as int) =~= entries@);
    }

    /// The registry a node starts with. The entries of `core` are
    /// registered in order; where `with_extensions` is set, those of
    /// `extensions` follow, in order. Among entries with one address the
    /// last one made stands.
    pub fn bootstrap(
        core: Vec<(Address, C)>,
        extensions: Vec<(Address, C)>,
        with_extensions: bool,
    ) -> (factory: Factory<C>)
        ensures
            factory@ == registered(
                if with_extensions {
                    core@ + extensions@
                } else {
                    core@
                },
            ),
    {
        let mut factory: Factory<C> = Factory::new();
        factory.register_all(core);
        if with_extensions {
            factory.register_all(extensions);
            proof {
                lemma_appended(Map::empty(), core@, extensions@);
            }
        }
        factory
    }

    /// Removes the binding of `address`, if there is one; all others stay.
    pub fn unregister(&mut self, address: Address)
        ensures
            final(self)@ == old(self)@.remove(address@),
    {
        proof {
            use_type_invariant(&*self);
        }
        match self.position(&address) {
            Some(at) => {
                proof {
                    lemma_removed(self.contracts@, at as int);
                }
                let mut contracts: Vec<(Address, C)> = Vec::new();
                std::mem::swap(&mut self.contracts, &mut contracts);
                contracts.remove(at);
                self.contracts = contracts;
            },
            None => {
                proof {
                    lemma_absent(self.contracts@, address@);
                    assert(self@ =~= self@.remove(address@));
                }
            },
        }
    }
}

impl<C: Contract> Clone for Factory<C> {
    /// An independent registry with the same addresses, each bound to a
    /// clone of its prototype.
    fn clone(&self) -> (copy: Factory<C>)
        ensures
            copy@.dom() == self@.dom(),
            forall|address: Seq<u8>| #[trigger]
                self@.dom().contains(address) ==> cloned::<C>(self@[address], copy@[address]),
    {
        proof {
            use_type_invariant(self);
        }
        let mut contracts: Vec<(Address, C)> = Vec::new();
        let mut at: usize = 0;
        while at < self.contracts.len()
            invariant
                at <= self.contracts@.len(),
                contracts@.len() == at,
                forall|i: int|
                    0 <= i < at ==> (#[trigger] contracts@[i]).0@ == self.contracts@[i].0@
                        && cloned::<C>(self.contracts@[i].1, contracts@[i].1),
            decreases self.contracts@.len() - at,
        {
            let prototype = self.contracts[at].1.clone_box();
            contracts.push((self.contracts[at].0, *prototype));
            at += 1;
        }
        proof {
            lemma_same_addresses(self.contracts@, contracts@);
        }
        Factory { contracts }
    }
}

} // verus!
