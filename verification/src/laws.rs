//! What holds of resolving, registering and unregistering taken together.
//!
//! Each statement is made over the view of the registry and over
//! `resolves_to`, the relation that `Factory::new_contract` promises
//! between the registry, the address asked for and what it returns.

use crate::address::Address;
use crate::contract::{derived_from, Contract};
use crate::factory::{resolves_to, Factory};
use vstd::prelude::*;

verus! {

/// Resolving is repeatable. Resolving borrows the registry without changing
/// it, and an instance is owned by whoever resolved it. So at a registered
/// address every resolution succeeds, and the instance it gives is derived
/// from the prototype registered there and from nothing that happened to an
/// instance resolved earlier.
pub proof fn lemma_resolve_is_repeatable<C: Contract>(
    factory: Factory<C>,
    address: Address,
    earlier: Option<C>,
    later: Option<C>,
)
    requires
        factory@.dom().contains(address@),
        resolves_to(factory@, address@, earlier),
        resolves_to(factory@, address@, later),
    ensures
        earlier is Some,
        later is Some,
        derived_from(factory@[address@], earlier->0),
        derived_from(factory@[address@], later->0),
{
}

/// Resolving an address under which nothing is registered gives nothing:
/// there is no instance on which native logic could be run.
pub proof fn lemma_unregistered_resolves_to_none<C: Contract>(
    factory: Factory<C>,
    address: Address,
    outcome: Option<C>,
)
    requires
        !factory@.dom().contains(address@),
        resolves_to(factory@, address@, outcome),
    ensures
        outcome is None,
{
}

/// Registering a prototype under an address and then resolving that
/// address gives an instance of that prototype, whatever was registered
/// there before.
pub proof fn lemma_register_then_resolve<C: Contract>(
    before: Factory<C>,
    after: Factory<C>,
    address: Address,
    prototype: C,
    outcome: Option<C>,
)
    requires
        after@ == before@.insert(address@, prototype),
        resolves_to(after@, address@, outcome),
    ensures
        outcome is Some,
        derived_from(prototype, outcome->0),
{
}

/// Unregistering an address and then resolving it gives nothing.
pub proof fn lemma_unregister_then_resolve<C: Contract>(
    before: Factory<C>,
    after: Factory<C>,
    address: Address,
    outcome: Option<C>,
)
    requires
        after@ == before@.remove(address@),
        resolves_to(after@, address@, outcome),
    ensures
        outcome is None,
{
}

/// Registering or unregistering one address changes what no other address
/// resolves to.
pub proof fn lemma_other_addresses_untouched<C: Contract>(
    before: Factory<C>,
    after: Factory<C>,
    address: Address,
    prototype: C,
    other: Address,
    outcome: Option<C>,
)
    requires
        after@ == before@.insert(address@, prototype) || after@ == before@.remove(address@),
        other@ != address@,
    ensures
        resolves_to(after@, other@, outcome) == resolves_to(before@, other@, outcome),
{
}

} // verus!
