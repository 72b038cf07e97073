use fuel_vm::error::{BugVariant, PanicOrBug, PanicReason};
use fuel_vm::gas::{dependent_gas_charge, dependent_gas_charge_without_base, gas_charge_inner, DependentCost};

#[test]
fn test_gas_charges_ggas_on_out_of_gas() {
    let mut cgas = 10;
    let mut ggas = 15;
    let gas = 20;
    let _ = gas_charge_inner(&mut cgas, &mut ggas, gas).expect_err("Gas charge should fail");
    assert_eq!(ggas, 5);
    assert_eq!(cgas, 0);
}

fn charge(cgas: u64, ggas: u64, amount: u64) -> Result<(u64, u64), PanicOrBug> {
    let (mut c, mut g) = (cgas, ggas);
    gas_charge_inner(&mut c, &mut g, amount).map(|_| (c, g))
}

#[test]
fn gas_charge_cases() {
    assert_eq!(charge(0, 0, 0), Ok((0, 0)));
    assert_eq!(charge(0, 0, 1), Err(PanicOrBug::Panic(PanicReason::OutOfGas)));
    assert_eq!(charge(2, 0, 1), Err(PanicOrBug::Bug(BugVariant::GlobalGasLessThanContext)));
    assert_eq!(charge(0, 2, 1), Err(PanicOrBug::Panic(PanicReason::OutOfGas)));
    assert_eq!(charge(1, 1, 1), Ok((0, 0)));
    assert_eq!(charge(10, 15, 1), Ok((9, 14)));
}

fn dep(cgas: u64, ggas: u64, units: u64, cost: DependentCost) -> Result<(u64, u64), PanicOrBug> {
    let (mut c, mut g) = (cgas, ggas);
    dependent_gas_charge(&mut c, &mut g, cost, units).map(|_| (c, g))
}

fn dep_no_base(cgas: u64, ggas: u64, units: u64, cost: DependentCost) -> Result<(u64, u64), PanicOrBug> {
    let (mut c, mut g) = (cgas, ggas);
    dependent_gas_charge_without_base(&mut c, &mut g, cost, units).map(|_| (c, g))
}

#[test]
fn dependent_gas_charge_cases() {
    let cost = DependentCost::from_units_per_gas;
    assert_eq!(dep(0, 0, 0, cost(0, 1)), Ok((0, 0)));
    assert_eq!(dep(1, 1, 0, cost(1, 1)), Ok((0, 0)));
    assert_eq!(dep(1, 1, 1, cost(1, 2)), Ok((0, 0)));
    assert_eq!(dep(3, 3, 8, cost(1, 4)), Ok((0, 0)));
    assert_eq!(dep(3, 3, 5, cost(0, 4)), Ok((2, 2)));
    assert_eq!(dep(0, 1, 0, cost(1, 1)), Err(PanicOrBug::Panic(PanicReason::OutOfGas)));
    assert_eq!(dep(5, 10, 25, cost(1, 5)), Err(PanicOrBug::Panic(PanicReason::OutOfGas)));
}

#[test]
fn dependent_gas_charge_without_base_cases() {
    let cost = DependentCost::from_units_per_gas;
    assert_eq!(dep_no_base(0, 0, 0, cost(0, 1)), Ok((0, 0)));
    assert_eq!(dep_no_base(1, 1, 0, cost(1, 1)), Ok((1, 1)));
    assert_eq!(dep_no_base(1, 1, 1, cost(1, 2)), Ok((1, 1)));
    assert_eq!(dep_no_base(3, 3, 8, cost(1, 4)), Ok((1, 1)));
    assert_eq!(dep_no_base(3, 3, 5, cost(0, 4)), Ok((2, 2)));
    assert_eq!(dep_no_base(0, 1, 0, cost(1, 1)), Ok((0, 1)));
    assert_eq!(dep_no_base(5, 10, 25, cost(1, 4)), Err(PanicOrBug::Panic(PanicReason::OutOfGas)));
}

#[test]
fn heavy_operation_costs_per_unit_and_saturates() {
    let heavy = DependentCost::from_gas_per_unit(2, 3);
    assert_eq!(heavy.base(), 2);
    assert_eq!(heavy.resolve_without_base(5), 15);
    assert_eq!(heavy.resolve(5), 17);
    let huge = DependentCost::from_gas_per_unit(u64::MAX, u64::MAX);
    assert_eq!(huge.resolve_without_base(2), u64::MAX);
    assert_eq!(huge.resolve(2), u64::MAX);
}

#[test]
fn gas_charge_keeps_context_below_global() {
    for (c, g, a) in [(5u64, 9u64, 3u64), (5, 9, 7), (0, 4, 1), (4, 4, 4)] {
        let (mut cc, mut gg) = (c, g);
        let _ = gas_charge_inner(&mut cc, &mut gg, a);
        assert!(cc <= gg);
        assert_eq!(c - cc, g - gg);
    }
}

#[test]
fn out_of_gas_with_inconsistent_registers_saturates_the_global_gas() {
    let (mut c, mut g) = (2u64, 0u64);
    assert_eq!(gas_charge_inner(&mut c, &mut g, 3), Err(PanicOrBug::Panic(PanicReason::OutOfGas)));
    assert_eq!((c, g), (0, 0));
}
