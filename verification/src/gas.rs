use crate::error::{BugVariant, PanicOrBug, PanicReason, SimpleResult};
use vstd::prelude::*;

verus! {

/// A gas cost that depends on the number of units an operation handles.
#[derive(Debug, Clone, Copy, PartialEq, Eq, Structural)]
pub enum DependentCost {
    /// An operation that handles `units_per_gas` units for each unit of gas.
    LightOperation {
        /// Cost charged whatever the number of units.
        base: u64,
        /// Units handled per unit of gas.
        units_per_gas: u64,
    },
    /// An operation that costs `gas_per_unit` gas for each unit.
    HeavyOperation {
        /// Cost charged whatever the number of units.
        base: u64,
        /// Gas per unit handled.
        gas_per_unit: u64,
    },
}

/// `a + b`, or `u64::MAX` if that overflows.
pub open spec fn sat_add(a: int, b: int) -> int {
    if a + b > u64::MAX { u64::MAX as int } else { a + b }
}

/// `a * b`, or `u64::MAX` if that overflows.
pub open spec fn sat_mul(a: int, b: int) -> int {
    if a * b > u64::MAX { u64::MAX as int } else { a * b }
}

/// `a * b` for words, saturating at `u64::MAX`.
pub fn saturating_mul(a: u64, b: u64) -> (r: u64)
    ensures
        r == sat_mul(a as int, b as int),
{
    match a.checked_mul(b) {
        Some(x) => x,
        None => u64::MAX,
    }
}

impl DependentCost {
    /// A light operation must handle at least one unit per unit of gas.
    pub open spec fn well_formed(&self) -> bool {
        match *self {
            DependentCost::LightOperation { units_per_gas, .. } => units_per_gas > 0,
            DependentCost::HeavyOperation { .. } => true,
        }
    }

    /// The base cost.
    pub open spec fn spec_base(&self) -> u64 {
        match *self {
            DependentCost::LightOperation { base, .. } => base,
            DependentCost::HeavyOperation { base, .. } => base,
        }
    }

    /// The cost of `units` units, without the base cost.
    pub open spec fn spec_resolve_without_base(&self, units: u64) -> int {
        match *self {
            DependentCost::LightOperation { units_per_gas, .. } => units as int / units_per_gas as int,
            DependentCost::HeavyOperation { gas_per_unit, .. } => sat_mul(units as int, gas_per_unit as int),
        }
    }

    /// The cost of `units` units, base cost included, saturating.
    pub open spec fn spec_resolve(&self, units: u64) -> int {
        sat_add(self.spec_base() as int, self.spec_resolve_without_base(units))
    }

    /// A light operation costing `base` plus one unit of gas per `units_per_gas` units.
    pub fn from_units_per_gas(base: u64, units_per_gas: u64) -> (r: Self)
        requires
            units_per_gas > 0,
        ensures
            r == (DependentCost::LightOperation { base, units_per_gas }),
    {
        DependentCost::LightOperation { base, units_per_gas }
    }

    /// A heavy operation costing `base` plus `gas_per_unit` gas per unit.
    pub fn from_gas_per_unit(base: u64, gas_per_unit: u64) -> (r: Self)
        ensures
            r == (DependentCost::HeavyOperation { base, gas_per_unit }),
    {
        DependentCost::HeavyOperation { base, gas_per_unit }
    }

    /// The base cost.
    pub fn base(&self) -> (r: u64)
        ensures
            r == self.spec_base(),
    {
        match *self {
            DependentCost::LightOperation { base, .. } => base,
            DependentCost::HeavyOperation { base, .. } => base,
        }
    }

    /// The cost of `units` units, without the base cost.
    pub fn resolve_without_base(&self, units: u64) -> (r: u64)
        requires
            self.well_formed(),
        ensures
            r == self.spec_resolve_without_base(units),
    {
        match *self {
            DependentCost::LightOperation { units_per_gas, .. } => units / units_per_gas,
            DependentCost::HeavyOperation { gas_per_unit, .. } => saturating_mul(units, gas_per_unit),
        }
    }

    /// The cost of `units` units, base cost included.
    pub fn resolve(&self, units: u64) -> (r: u64)
        requires
            self.well_formed(),
        ensures
            r == self.spec_resolve(units),
    {
        let base = self.base();
        let dependent_value = self.resolve_without_base(units);
        base.saturating_add(dependent_value)
    }
}

/// The gas schedule: what each instruction charges.
#[derive(Debug, Clone, Copy)]
pub struct GasCosts {
    pub add: u64,
    pub addi: u64,
    pub sub: u64,
    pub subi: u64,
    pub and_op: u64,
    pub andi: u64,
    pub or_op: u64,
    pub ori: u64,
    pub xor: u64,
    pub xori: u64,
    pub not_op: u64,
    pub move_op: u64,
    pub movi: u64,
    pub eq_op: u64,
    pub lt: u64,
    pub gt: u64,
    pub sll: u64,
    pub slli: u64,
    pub srl: u64,
    pub srli: u64,
    pub noop: u64,
    pub flag: u64,
    pub lb: u64,
    pub lw: u64,
    pub sb: u64,
    pub sw: u64,
    pub ji: u64,
    pub jmp: u64,
    pub jne: u64,
    pub jnei: u64,
    pub jnzi: u64,
    pub jmpf: u64,
    pub jmpb: u64,
    pub jnzf: u64,
    pub jnzb: u64,
    pub jnef: u64,
    pub jneb: u64,
    pub cfsi: u64,
    pub pshl: u64,
    pub pshh: u64,
    pub popl: u64,
    pub poph: u64,
    pub aloc: DependentCost,
    pub cfe: DependentCost,
    pub cfei: DependentCost,
    pub mcl: DependentCost,
    pub mcli: DependentCost,
    pub mcp: DependentCost,
    pub mcpi: DependentCost,
    pub meq: DependentCost,
    pub mul: u64,
    pub muli: u64,
    pub div: u64,
    pub divi: u64,
    pub mod_op: u64,
    pub modi: u64,
    pub ret: u64,
    pub rvrt: u64,
    pub gtf: u64,
}

impl GasCosts {
    /// Every dependent cost can be resolved.
    pub open spec fn well_formed(&self) -> bool {
        &&& self.aloc.well_formed()
        &&& self.cfe.well_formed()
        &&& self.cfei.well_formed()
        &&& self.mcl.well_formed()
        &&& self.mcli.well_formed()
        &&& self.mcp.well_formed()
        &&& self.mcpi.well_formed()
        &&& self.meq.well_formed()
    }
}

/// Charges `amount` gas from both the context gas `cgas` and the global gas `ggas`.
/// When the context does not have enough gas, its gas is used up, the global gas
/// drops by what the context had (stopping at zero), and the charge fails with
/// `OutOfGas`. The global gas is never less than the context gas in a consistent VM;
/// a charge that the context covers but the global gas does not fails with a bug.
pub fn gas_charge_inner(cgas: &mut u64, ggas: &mut u64, amount: u64) -> (r: SimpleResult<()>)
    ensures
        if amount > *old(cgas) {
            &&& r == Err::<(), PanicOrBug>(PanicOrBug::Panic(PanicReason::OutOfGas))
            &&& *final(cgas) == 0
            &&& *final(ggas) == if *old(ggas) < *old(cgas) { 0 } else { *old(ggas) - *old(cgas) }
        } else {
            &&& *final(cgas) == *old(cgas) - amount
            &&& if *old(ggas) < amount {
                r == Err::<(), PanicOrBug>(PanicOrBug::Bug(BugVariant::GlobalGasLessThanContext))
                    && *final(ggas) == *old(ggas)
            } else {
                r == Ok::<(), PanicOrBug>(()) && *final(ggas) == *old(ggas) - amount
            }
        },
{
    if amount > *cgas {
        *ggas = ggas.saturating_sub(*cgas);
        *cgas = 0;
        Err(PanicOrBug::Panic(PanicReason::OutOfGas))
    } else {
        *cgas = *cgas - amount;
        *ggas = match ggas.checked_sub(amount) {
            Some(g) => g,
            None => return Err(PanicOrBug::Bug(BugVariant::GlobalGasLessThanContext)),
        };
        Ok(())
    }
}

/// Charging gas keeps the context gas at or below the global gas, and the global
/// gas drops by exactly what the context gas drops.
pub proof fn law_gas_charge_keeps_order(cgas: u64, ggas: u64, amount: u64)
    requires
        cgas <= ggas,
    ensures
        ({
            let (c2, g2) = if amount > cgas { (0int, ggas - cgas) } else { (cgas - amount, ggas - amount) };
            0 <= c2 <= g2 && cgas - c2 == ggas - g2
        }),
{
}

/// Charges the cost of `arg` units of `gas_cost`, base included.
pub fn dependent_gas_charge(cgas: &mut u64, ggas: &mut u64, gas_cost: DependentCost, arg: u64) -> (r: SimpleResult<()>)
    requires
        gas_cost.well_formed(),
    ensures
        ({
            let amount = gas_cost.spec_resolve(arg);
            if amount > *old(cgas) {
                &&& r == Err::<(), PanicOrBug>(PanicOrBug::Panic(PanicReason::OutOfGas))
                &&& *final(cgas) == 0
                &&& *final(ggas) == if *old(ggas) < *old(cgas) { 0 } else { *old(ggas) - *old(cgas) }
            } else {
                &&& *final(cgas) == *old(cgas) - amount
                &&& if *old(ggas) < amount {
                    r == Err::<(), PanicOrBug>(PanicOrBug::Bug(BugVariant::GlobalGasLessThanContext))
                        && *final(ggas) == *old(ggas)
                } else {
                    r == Ok::<(), PanicOrBug>(()) && *final(ggas) == *old(ggas) - amount
                }
            }
        }),
{
    let cost = gas_cost.resolve(arg);
    gas_charge_inner(cgas, ggas, cost)
}

/// Charges the cost of `arg` units of `gas_cost`, base excluded.
pub fn dependent_gas_charge_without_base(cgas: &mut u64, ggas: &mut u64, gas_cost: DependentCost, arg: u64) -> (r: SimpleResult<()>)
    requires
        gas_cost.well_formed(),
    ensures
        ({
            let amount = gas_cost.spec_resolve_without_base(arg);
            if amount > *old(cgas) {
                &&& r == Err::<(), PanicOrBug>(PanicOrBug::Panic(PanicReason::OutOfGas))
                &&& *final(cgas) == 0
                &&& *final(ggas) == if *old(ggas) < *old(cgas) { 0 } else { *old(ggas) - *old(cgas) }
            } else {
                &&& *final(cgas) == *old(cgas) - amount
                &&& if *old(ggas) < amount {
                    r == Err::<(), PanicOrBug>(PanicOrBug::Bug(BugVariant::GlobalGasLessThanContext))
                        && *final(ggas) == *old(ggas)
                } else {
                    r == Ok::<(), PanicOrBug>(()) && *final(ggas) == *old(ggas) - amount
                }
            }
        }),
{
    let cost = gas_cost.resolve_without_base(arg);
    gas_charge_inner(cgas, ggas, cost)
}

} // verus!
