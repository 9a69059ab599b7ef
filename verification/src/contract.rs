//! What every native contract offers to the layer that dispatches calls.

use crate::error::NativeError;
use cita_vm::evm::InterpreterResult;
use vstd::prelude::*;

verus! {

/// `cita_vm::evm::InterpreterResult`, the outcome that the interpreter folds
/// into a transaction: output bytes, remaining gas and the logs or the
/// revert signal. Declared opaque: it is carried through as it is, and
/// nothing is claimed of what it holds.
#[verifier::external_type_specification]
#[verifier::external_body]
pub struct ExInterpreterResult(InterpreterResult);

/// Duplication of a contract into a box of its own. Every contract that is
/// `Clone` has it.
pub trait ContractClone: Clone {
    /// A boxed copy of the contract, made by its `clone`.
    fn clone_box(&self) -> (copy: Box<Self>)
        ensures
            cloned::<Self>(*self, *copy),
    ;
}

impl<T> ContractClone for T where T: 'static + Contract + Clone {
    fn clone_box(&self) -> (copy: Box<T>) {
        Box::new(self.clone())
    }
}

/// A native contract: host logic that is called like a deployed contract.
///
/// A value of an implementing type plays two parts. Registered under an
/// address it is a prototype: a template that is never run. What runs is an
/// instance, made from the prototype by `create` for one call and dropped
/// after it.
pub trait Contract: Sync + Send + ContractClone {
    /// The input of one call, as the interpreter hands it over.
    type Params;

    /// The account and storage view of the transaction in flight. The
    /// contract holds it for the length of one `exec` only.
    type Ext: ?Sized;

    /// Runs the contract once. Malformed input is reported as an error.
    fn exec(&mut self, params: &Self::Params, ext: &mut Self::Ext) -> (outcome: Result<
        InterpreterResult,
        NativeError,
    >);

    /// A fresh instance in the contract's pristine configuration, whatever
    /// calls `self` has served.
    fn create(&self) -> (instance: Self);
}

/// `instance` is what `create` returned, or could have returned, on
/// `prototype`.
pub open spec fn derived_from<C: Contract>(prototype: C, instance: C) -> bool {
    call_ensures(C::create, (&prototype,), instance)
}

} // verus!
