use cita_vm::evm::InterpreterResult;
use native_contracts::{Address, Contract, ContractClone, Factory, NativeError};

/// A contract that counts the calls it has served. Each call appends the
/// contract's label to the state context and returns the label and the
/// count; a call whose gas budget is below the fixed cost runs out of gas.
#[derive(Clone, Debug, PartialEq)]
struct Counter {
    label: u8,
    calls: u64,
}

struct Call {
    gas: u64,
    data: Vec<u8>,
}

const COST: u64 = 100;

impl Counter {
    fn labelled(label: u8) -> Counter {
        Counter { label, calls: 0 }
    }
}

impl Contract for Counter {
    type Params = Call;
    type Ext = Vec<u8>;

    fn exec(&mut self, params: &Call, ext: &mut Vec<u8>) -> Result<InterpreterResult, NativeError> {
        if params.gas < COST {
            return Err(NativeError::OutOfGas);
        }
        if params.data.is_empty() {
            return Err(NativeError::Internal("empty input".to_string()));
        }
        self.calls += 1;
        ext.push(self.label);
        Ok(InterpreterResult::Normal(
            vec![self.label, self.calls as u8],
            params.gas - COST,
            vec![],
        ))
    }

    fn create(&self) -> Counter {
        Counter::labelled(self.label)
    }
}

fn address(last: u8) -> Address {
    let mut bytes = [0xffu8; 20];
    bytes[19] = last;
    Address::new(bytes)
}

fn call(gas: u64) -> Call {
    Call { gas, data: vec![1, 2, 3] }
}

fn output(outcome: Result<InterpreterResult, NativeError>) -> (Vec<u8>, u64) {
    match outcome {
        Ok(InterpreterResult::Normal(data, gas_left, logs)) => {
            assert!(logs.is_empty());
            (data, gas_left)
        }
        other => panic!("unexpected outcome {:?}", other),
    }
}

#[test]
fn empty_registry_resolves_nothing() {
    let factory: Factory<Counter> = Factory::new();
    assert!(factory.new_contract(address(1)).is_none());
    assert!(factory.new_contract(Address::new([0u8; 20])).is_none());
}

#[test]
fn resolve_of_unregistered_address_is_absent() {
    let mut factory = Factory::new();
    factory.register(address(1), Counter::labelled(7));
    assert!(factory.new_contract(address(2)).is_none());
    let mut near = [0xffu8; 20];
    near[0] = 0xfe;
    near[19] = 1;
    assert!(factory.new_contract(Address::new(near)).is_none());
}

#[test]
fn register_then_resolve_gives_instance_of_that_prototype() {
    let mut factory = Factory::new();
    factory.register(address(1), Counter::labelled(7));
    factory.register(address(2), Counter::labelled(9));
    assert_eq!(factory.new_contract(address(1)), Some(Counter::labelled(7)));
    assert_eq!(factory.new_contract(address(2)), Some(Counter::labelled(9)));
    assert!(factory.new_contract(address(3)).is_none());
}

#[test]
fn register_replaces_the_earlier_prototype() {
    let mut factory = Factory::new();
    factory.register(address(1), Counter::labelled(7));
    factory.register(address(2), Counter::labelled(8));
    factory.register(address(1), Counter::labelled(9));
    assert_eq!(factory.new_contract(address(1)), Some(Counter::labelled(9)));
    assert_eq!(factory.new_contract(address(2)), Some(Counter::labelled(8)));
}

#[test]
fn instance_is_made_by_create_not_copied() {
    let mut factory = Factory::new();
    factory.register(address(1), Counter { label: 7, calls: 41 });
    assert_eq!(factory.new_contract(address(1)), Some(Counter { label: 7, calls: 0 }));
}

#[test]
fn unregister_then_resolve_is_absent() {
    let mut factory = Factory::new();
    factory.register(address(1), Counter::labelled(7));
    factory.register(address(2), Counter::labelled(8));
    factory.register(address(3), Counter::labelled(9));
    factory.unregister(address(2));
    assert!(factory.new_contract(address(2)).is_none());
    assert_eq!(factory.new_contract(address(1)), Some(Counter::labelled(7)));
    assert_eq!(factory.new_contract(address(3)), Some(Counter::labelled(9)));
}

#[test]
fn unregister_of_unregistered_address_changes_nothing() {
    let mut factory = Factory::new();
    factory.register(address(1), Counter::labelled(7));
    factory.unregister(address(2));
    assert_eq!(factory.new_contract(address(1)), Some(Counter::labelled(7)));
    assert!(factory.new_contract(address(2)).is_none());
}

#[test]
fn register_after_unregister_binds_again() {
    let mut factory = Factory::new();
    factory.register(address(1), Counter::labelled(7));
    factory.unregister(address(1));
    factory.unregister(address(1));
    assert!(factory.new_contract(address(1)).is_none());
    factory.register(address(1), Counter::labelled(8));
    assert_eq!(factory.new_contract(address(1)), Some(Counter::labelled(8)));
}

#[test]
fn first_call_of_each_instance_behaves_alike() {
    let mut factory = Factory::new();
    factory.register(address(1), Counter::labelled(7));

    let mut first = factory.new_contract(address(1)).unwrap();
    let mut state = Vec::new();
    let first_outcome = output(first.exec(&call(1000), &mut state));
    let second_outcome = output(first.exec(&call(1000), &mut state));
    assert_eq!(first_outcome, (vec![7, 1], 900));
    assert_eq!(second_outcome, (vec![7, 2], 900));

    let mut later = factory.new_contract(address(1)).unwrap();
    let mut other_state = Vec::new();
    assert_eq!(output(later.exec(&call(1000), &mut other_state)), first_outcome);
    assert_eq!(state, vec![7, 7]);
    assert_eq!(other_state, vec![7]);
}

#[test]
fn instances_of_one_prototype_are_independent() {
    let prototype = Counter::labelled(5);
    let mut one = prototype.create();
    let mut two = prototype.create();
    let mut state = Vec::new();
    output(one.exec(&call(100), &mut state));
    output(one.exec(&call(100), &mut state));
    output(one.exec(&call(100), &mut state));
    assert_eq!(one.calls, 3);
    assert_eq!(two.calls, 0);
    assert_eq!(output(two.exec(&call(100), &mut state)), (vec![5, 1], 0));
    assert_eq!(one.calls, 3);
    assert_eq!(prototype, Counter::labelled(5));
}

#[test]
fn call_below_cost_runs_out_of_gas() {
    let mut factory = Factory::new();
    factory.register(address(1), Counter::labelled(7));
    let mut instance = factory.new_contract(address(1)).unwrap();
    let mut state = Vec::new();
    let outcome = instance.exec(&call(99), &mut state);
    assert!(matches!(outcome, Err(NativeError::OutOfGas)));
    assert!(state.is_empty());
    assert_eq!(instance, Counter::labelled(7));
}

#[test]
fn malformed_input_is_an_internal_error() {
    let mut factory = Factory::new();
    factory.register(address(1), Counter::labelled(7));
    let mut instance = factory.new_contract(address(1)).unwrap();
    let mut state = Vec::new();
    let outcome = instance.exec(&Call { gas: 1000, data: vec![] }, &mut state);
    match outcome {
        Err(NativeError::Internal(detail)) => assert_eq!(detail, "empty input"),
        other => panic!("unexpected outcome {:?}", other),
    }
    assert!(state.is_empty());
}

#[test]
fn same_call_on_same_state_gives_same_outcome() {
    let mut factory = Factory::new();
    factory.register(address(1), Counter::labelled(7));
    let mut left = factory.new_contract(address(1)).unwrap();
    let mut right = factory.new_contract(address(1)).unwrap();
    let mut left_state = vec![1, 2];
    let mut right_state = vec![1, 2];
    let left_outcome = output(left.exec(&call(350), &mut left_state));
    let right_outcome = output(right.exec(&call(350), &mut right_state));
    assert_eq!(left_outcome, (vec![7, 1], 250));
    assert_eq!(left_outcome, right_outcome);
    assert_eq!(left_state, right_state);
}

#[test]
fn bootstrap_registers_core_entries() {
    let core = vec![(address(2), Counter::labelled(2)), (address(0), Counter::labelled(10))];
    let extensions = vec![(address(1), Counter::labelled(1))];
    let factory = Factory::bootstrap(core, extensions, false);
    assert_eq!(factory.new_contract(address(2)), Some(Counter::labelled(2)));
    assert_eq!(factory.new_contract(address(0)), Some(Counter::labelled(10)));
    assert!(factory.new_contract(address(1)).is_none());
}

#[test]
fn bootstrap_with_extensions_registers_them_too() {
    let core = vec![(address(2), Counter::labelled(2)), (address(0), Counter::labelled(10))];
    let extensions = vec![(address(1), Counter::labelled(1))];
    let factory = Factory::bootstrap(core, extensions, true);
    assert_eq!(factory.new_contract(address(2)), Some(Counter::labelled(2)));
    assert_eq!(factory.new_contract(address(0)), Some(Counter::labelled(10)));
    assert_eq!(factory.new_contract(address(1)), Some(Counter::labelled(1)));
    assert!(factory.new_contract(address(3)).is_none());
}

#[test]
fn bootstrap_lets_the_last_entry_of_an_address_stand() {
    let core = vec![
        (address(1), Counter::labelled(1)),
        (address(2), Counter::labelled(2)),
        (address(1), Counter::labelled(3)),
    ];
    let extensions = vec![(address(2), Counter::labelled(4))];
    let plain = Factory::bootstrap(core.clone(), extensions.clone(), false);
    assert_eq!(plain.new_contract(address(1)), Some(Counter::labelled(3)));
    assert_eq!(plain.new_contract(address(2)), Some(Counter::labelled(2)));
    let extended = Factory::bootstrap(core, extensions, true);
    assert_eq!(extended.new_contract(address(1)), Some(Counter::labelled(3)));
    assert_eq!(extended.new_contract(address(2)), Some(Counter::labelled(4)));
}

#[test]
fn bootstrap_of_nothing_is_empty() {
    let factory: Factory<Counter> = Factory::bootstrap(vec![], vec![(address(1), Counter::labelled(1))], false);
    assert!(factory.new_contract(address(1)).is_none());
}

#[test]
fn cloned_registry_is_independent() {
    let mut factory = Factory::new();
    factory.register(address(1), Counter::labelled(7));
    factory.register(address(2), Counter::labelled(8));
    let mut copy = factory.clone();
    assert_eq!(copy.new_contract(address(1)), Some(Counter::labelled(7)));
    assert_eq!(copy.new_contract(address(2)), Some(Counter::labelled(8)));
    copy.unregister(address(1));
    copy.register(address(3), Counter::labelled(9));
    assert!(copy.new_contract(address(1)).is_none());
    assert_eq!(factory.new_contract(address(1)), Some(Counter::labelled(7)));
    assert!(factory.new_contract(address(3)).is_none());
}

#[test]
fn clone_box_copies_the_contract() {
    let contract = Counter { label: 3, calls: 12 };
    let copy: Box<Counter> = contract.clone_box();
    assert_eq!(*copy, Counter { label: 3, calls: 12 });
}
