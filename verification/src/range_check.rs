//! The range-membership circuit: one advice column and one selector enforce
//! that the assigned value is a root of the product
//! `v * (1 - v) * (2 - v) * ... * (RANGE-1 - v)`, i.e. that its integer
//! representative lies in `[0, RANGE)`.

use vstd::prelude::*;
use crate::field::{Felt, modulus, mul_mod, sub_mod, FIELD_MODULUS};
use crate::model::{
    Assignment, Column, ColumnKind, ConstraintSystem, Gate, GatePoly, Region, must_enable,
    replace_at,
};
use crate::checker::{gate_violated, poly_eval, range_poly, satisfied};

verus! {

/// The column and selector handles of the range-membership circuit.
#[derive(Clone, Copy, Debug, PartialEq, Eq, Structural)]
pub struct RangeConfig {
    pub value: usize,
    pub q_check: usize,
}

/// The config's handles name a declared, equality-enabled advice column and
/// a declared selector of the constraint system.
pub open spec fn range_columns_ok(cs: ConstraintSystem, cfg: RangeConfig) -> bool {
    &&& cfg.value < cs.num_advice
    &&& cfg.q_check < cs.num_selectors
    &&& cs.advice_equality@[cfg.value as int]
}

/// A constraint system holding exactly the range-membership circuit: the
/// columns above and one gate whose polynomial is the vanishing product with
/// `range` factors.
pub open spec fn is_range_cs(cs: ConstraintSystem, cfg: RangeConfig, range: u64) -> bool {
    &&& cs.wf()
    &&& range_columns_ok(cs, cfg)
    &&& 1 <= range < FIELD_MODULUS
    &&& cs.gates@.len() == 1
    &&& cs.gates@[0].selector == cfg.q_check
    &&& cs.gates@[0].poly == (GatePoly::RangeProduct { col: cfg.value, range })
}

/// The witness table the range circuit produces: one row holding the checked
/// value, the selector on, one region, and no copies or bindings.
pub open spec fn is_range_assignment(asg: Assignment, cfg: RangeConfig, v: Felt) -> bool {
    &&& asg.num_rows == 1
    &&& cfg.value < asg.advice@.len()
    &&& cfg.q_check < asg.selectors@.len()
    &&& asg.advice@[cfg.value as int]@[0] == v
    &&& asg.selectors@[cfg.q_check as int]@[0]
    &&& asg.copies@.len() == 0
    &&& asg.bindings@.len() == 0
    &&& asg.regions@.len() == 1
    &&& asg.regions@[0].start == 0
    &&& asg.regions@[0].rows == 1
    &&& asg.regions@[0].name@ == "range check region"@
}

/// The chip wiring the range membership check into a constraint system. The
/// bound is the const parameter `RANGE`.
pub struct RangeChip<const RANGE: usize> {
    pub config: RangeConfig,
}

impl<const RANGE: usize> RangeChip<RANGE> {
    /// Wraps a configuration in a chip.
    pub fn construct(config: RangeConfig) -> (r: RangeChip<RANGE>)
        ensures
            r.config == config,
    {
        RangeChip { config }
    }

    /// Declares the circuit's shape on a constraint system: one advice
    /// column with equality enabled, one selector, and a gate reading
    /// `q_check * v * (1 - v) * ... * (RANGE-1 - v)`.
    pub fn configure(meta: &mut ConstraintSystem) -> (cfg: RangeConfig)
        requires
            old(meta).wf(),
            old(meta).num_advice < usize::MAX,
            old(meta).num_selectors < usize::MAX,
            1 <= RANGE,
            (RANGE as int) < FIELD_MODULUS as int,
        ensures
            final(meta).wf(),
            range_columns_ok(*final(meta), cfg),
            final(meta).num_advice == old(meta).num_advice + 1,
            final(meta).num_selectors == old(meta).num_selectors + 1,
            final(meta).num_instance == old(meta).num_instance,
            cfg.value == old(meta).num_advice,
            cfg.q_check == old(meta).num_selectors,
            final(meta).gates@.len() == old(meta).gates@.len() + 1,
            forall|i: int| 0 <= i < old(meta).gates@.len() ==>
                #[trigger] final(meta).gates@[i] == old(meta).gates@[i],
            final(meta).gates@[old(meta).gates@.len() as int].selector == cfg.q_check,
            final(meta).gates@[old(meta).gates@.len() as int].poly == (GatePoly::RangeProduct {
                col: cfg.value,
                range: RANGE as u64,
            }),
            final(meta).gates@[old(meta).gates@.len() as int].name@ == "range_check_gate"@,
            final(meta).gates@[old(meta).gates@.len() as int].constraint_name@
                == "range check constraint"@,
    {
        let value = meta.advice_column();
        let q_check = meta.selector();

        must_enable(meta, Column { kind: ColumnKind::Advice, index: value });

        proof {
            assert(meta.equality_enabled(Column { kind: ColumnKind::Advice, index: value }));
        }

        meta.create_gate(
            Gate {
                name: String::from_str("range_check_gate"),
                constraint_name: String::from_str("range check constraint"),
                selector: q_check,
                poly: GatePoly::RangeProduct { col: value, range: RANGE as u64 },
            },
        );

        RangeConfig { value, q_check }
    }

    /// Assigns the checked value to row 0 of a fresh one-row witness table
    /// and enables the selector there.
    pub fn assign(&self, cs: &ConstraintSystem, asg: &mut Assignment, value: Felt)
        requires
            cs.wf(),
            old(asg).wf(*cs),
            range_columns_ok(*cs, self.config),
            value.valid(),
            old(asg).num_rows == 1,
            old(asg).regions@.len() == 0,
            old(asg).copies@.len() == 0,
            old(asg).bindings@.len() == 0,
            forall|s: int, row: int|
                0 <= s < old(asg).selectors@.len() && 0 <= row < 1 ==> !(
                #[trigger] old(asg).selectors@[s]@[row]),
        ensures
            final(asg).wf(*cs),
            is_range_assignment(*final(asg), self.config, value),
            forall|s: int, row: int|
                0 <= s < final(asg).selectors@.len() && 0 <= row < 1 && s != self.config.q_check
                    ==> !(#[trigger] final(asg).selectors@[s]@[row]),
    {
        let mut vcol: Vec<Felt> = Vec::new();
        vcol.push(value);
        let mut scol: Vec<bool> = Vec::new();
        scol.push(true);
        replace_at(&mut asg.advice, self.config.value, vcol);
        replace_at(&mut asg.selectors, self.config.q_check, scol);
        asg.regions.push(
            Region { name: String::from_str("range check region"), start: 0, rows: 1 },
        );
    }
}

/// The range-membership circuit as a whole: the checked value, compiled and
/// witnessed in one step with the bound `RANGE`.
pub struct RangeCircuit<const RANGE: usize> {
    pub assigned_value: Felt,
}

impl<const RANGE: usize> RangeCircuit<RANGE> {
    /// Configures a fresh constraint system and assigns the checked value.
    pub fn synthesize(&self) -> (r: (ConstraintSystem, RangeConfig, Assignment))
        requires
            self.assigned_value.valid(),
            1 <= RANGE,
            (RANGE as int) < FIELD_MODULUS as int,
        ensures
            r.0.wf(),
            r.2.wf(r.0),
            is_range_cs(r.0, r.1, RANGE as u64),
            is_range_assignment(r.2, r.1, self.assigned_value),
    {
        let mut meta = ConstraintSystem::new();
        let cfg = RangeChip::<RANGE>::configure(&mut meta);
        let chip = RangeChip::<RANGE>::construct(cfg);
        let mut asg = Assignment::new(&meta, 1);
        chip.assign(&meta, &mut asg, self.assigned_value);
        (meta, cfg, asg)
    }
}

/// The vanishing product with `k` factors is zero at every integer in
/// `[0, k)`: the factor at the value itself vanishes and zero propagates
/// through the remaining multiplications.
pub proof fn lemma_range_poly_vanishes(v: int, k: int)
    requires
        1 <= k,
        0 <= v < k,
    ensures
        range_poly(v, k) == 0,
    decreases k,
{
    if k == 1 {
        assert(v == 0);
    } else if v == k - 1 {
        assert(modulus() > 1);
        assert(k - 1 - v == 0);
        vstd::arithmetic::div_mod::lemma_small_mod(0 as nat, modulus() as nat);
        assert(sub_mod(k - 1, v) == 0);
        assert(mul_mod(range_poly(v, k - 1), 0) == 0);
    } else {
        lemma_range_poly_vanishes(v, k - 1);
        vstd::arithmetic::div_mod::lemma_small_mod(0 as nat, modulus() as nat);
        assert(mul_mod(0, sub_mod(k - 1, v)) == 0);
    }
}

/// Membership satisfies the circuit: any value whose integer representative
/// lies in `[0, range)` — in particular any of `1, ..., range-1` — makes the
/// gate's product vanish, and the witness has no other constraint to break.
pub proof fn lemma_range_membership_satisfied(
    cs: ConstraintSystem,
    cfg: RangeConfig,
    asg: Assignment,
    v: Felt,
    range: u64,
    inst: Seq<Vec<Felt>>,
)
    requires
        is_range_cs(cs, cfg, range),
        is_range_assignment(asg, cfg, v),
        0 <= v.as_int() < range,
    ensures
        satisfied(cs, asg, inst),
{
    lemma_range_poly_vanishes(v.as_int(), range as int);
    assert forall|r: int, g: int|
        0 <= r < asg.num_rows && 0 <= g < cs.gates@.len() implies !gate_violated(
        cs,
        asg,
        r,
        g,
    ) by {
        assert(r == 0 && g == 0);
        assert(poly_eval(asg, cs.gates@[0].poly, 0) == range_poly(v.as_int(), range as int));
    }
}

} // verus!
