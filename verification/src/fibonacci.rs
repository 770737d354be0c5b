//! The sequence-relation circuit: three advice columns gated by one selector
//! enforce `a + b = c` on every row, rows are chained by copy constraints so
//! that each row's pair `(a, b)` is the previous row's `(b, c)`, and the final
//! value is exposed through a public-input binding.

use vstd::prelude::*;
use crate::field::{add_mod, Felt, modulus};
use crate::model::{
    Assignment, Cell, CircuitError, Column, ColumnKind, ConstraintSystem, CopyConstraint, Gate,
    GatePoly, InstanceBinding, Region, must_enable, replace_at,
};
use crate::checker::{
    binding_violated, copy_violated, gate_violated, bindings_ok, copies_ok, gates_ok, satisfied,
};

verus! {

/// The `k`-th term of the linear recurrence `t_k = t_{k-2} + t_{k-1}` in the
/// field, seeded by `t_0 = a0`, `t_1 = b0`.
pub open spec fn fib_term(a0: int, b0: int, k: int) -> int
    decreases k,
{
    if k <= 0 {
        a0
    } else if k == 1 {
        b0
    } else {
        add_mod(fib_term(a0, b0, k - 2), fib_term(a0, b0, k - 1))
    }
}

/// Every term of the recurrence is a reduced field element when its seeds
/// are.
pub proof fn lemma_fib_term_valid(a0: int, b0: int, k: int)
    requires
        0 <= a0 < modulus(),
        0 <= b0 < modulus(),
    ensures
        0 <= fib_term(a0, b0, k) < modulus(),
    decreases k,
{
    if k > 1 {
        lemma_fib_term_valid(a0, b0, k - 2);
        lemma_fib_term_valid(a0, b0, k - 1);
    }
}

/// The column and selector handles of the sequence-relation circuit.
#[derive(Clone, Copy, Debug, PartialEq, Eq, Structural)]
pub struct FibonacciConfig {
    pub col_a: usize,
    pub col_b: usize,
    pub col_c: usize,
    pub selector: usize,
    pub instance: usize,
}

/// The config's handles name distinct, declared, equality-enabled columns of
/// the constraint system.
pub open spec fn fib_columns_ok(cs: ConstraintSystem, cfg: FibonacciConfig) -> bool {
    &&& cfg.col_a < cs.num_advice
    &&& cfg.col_b < cs.num_advice
    &&& cfg.col_c < cs.num_advice
    &&& cfg.col_a != cfg.col_b
    &&& cfg.col_a != cfg.col_c
    &&& cfg.col_b != cfg.col_c
    &&& cfg.selector < cs.num_selectors
    &&& cfg.instance < cs.num_instance
    &&& cs.advice_equality@[cfg.col_a as int]
    &&& cs.advice_equality@[cfg.col_b as int]
    &&& cs.advice_equality@[cfg.col_c as int]
    &&& cs.instance_equality@[cfg.instance as int]
}

/// A constraint system holding exactly the sequence-relation circuit: the
/// columns above and one gate `selector * (a + b - c)`.
pub open spec fn is_fib_cs(cs: ConstraintSystem, cfg: FibonacciConfig) -> bool {
    &&& cs.wf()
    &&& fib_columns_ok(cs, cfg)
    &&& cs.gates@.len() == 1
    &&& cs.gates@[0].selector == cfg.selector
    &&& cs.gates@[0].poly == (GatePoly::Add { a: cfg.col_a, b: cfg.col_b, c: cfg.col_c })
}

/// The copy constraint chaining step `j` of the witness: even entries copy
/// `b` of one row into `a` of the next, odd entries copy `c` into `b`.
pub open spec fn fib_copy(cfg: FibonacciConfig, j: int) -> CopyConstraint {
    if j % 2 == 0 {
        CopyConstraint {
            a: Cell { col: cfg.col_b, row: (j / 2) as usize },
            b: Cell { col: cfg.col_a, row: (j / 2 + 1) as usize },
        }
    } else {
        CopyConstraint {
            a: Cell { col: cfg.col_c, row: (j / 2) as usize },
            b: Cell { col: cfg.col_b, row: (j / 2 + 1) as usize },
        }
    }
}

/// The witness table the sequence circuit produces from seeds `(a0, b0)`
/// over `n` rows: row `i` holds terms `(t_i, t_{i+1}, t_{i+2})`, the selector
/// is on everywhere, and consecutive rows are chained by copy constraints.
pub open spec fn is_fib_assignment(
    asg: Assignment,
    cfg: FibonacciConfig,
    a0: Felt,
    b0: Felt,
    n: int,
) -> bool {
    &&& asg.num_rows == n
    &&& cfg.col_a < asg.advice@.len()
    &&& cfg.col_b < asg.advice@.len()
    &&& cfg.col_c < asg.advice@.len()
    &&& cfg.selector < asg.selectors@.len()
    &&& forall|i: int|
        0 <= i < n ==> (#[trigger] asg.advice@[cfg.col_a as int]@[i]).as_int() == fib_term(
            a0.as_int(),
            b0.as_int(),
            i,
        )
    &&& forall|i: int|
        0 <= i < n ==> (#[trigger] asg.advice@[cfg.col_b as int]@[i]).as_int() == fib_term(
            a0.as_int(),
            b0.as_int(),
            i + 1,
        )
    &&& forall|i: int|
        0 <= i < n ==> (#[trigger] asg.advice@[cfg.col_c as int]@[i]).as_int() == fib_term(
            a0.as_int(),
            b0.as_int(),
            i + 2,
        )
    &&& forall|i: int| 0 <= i < n ==> (#[trigger] asg.selectors@[cfg.selector as int]@[i])
    &&& asg.copies@.len() == 2 * (n - 1)
    &&& forall|j: int| 0 <= j < 2 * (n - 1) ==> #[trigger] asg.copies@[j] == fib_copy(cfg, j)
    &&& asg.regions@.len() == 1
    &&& asg.regions@[0].start == 0
    &&& asg.regions@[0].rows == n
    &&& asg.regions@[0].name@ == "fibo table"@
}

/// The chip wiring the sequence relation into a constraint system.
pub struct FibonacciChip {
    pub config: FibonacciConfig,
}

impl FibonacciChip {
    /// Wraps a configuration in a chip.
    pub fn construct(config: FibonacciConfig) -> (r: FibonacciChip)
        ensures
            r.config == config,
    {
        FibonacciChip { config }
    }

    /// Declares the circuit's shape on a constraint system: three advice
    /// columns, a selector and an instance column, equality on all three
    /// advice columns and the instance column, and a gate reading
    /// `selector * (a + b - c)`.
    pub fn configure(meta: &mut ConstraintSystem) -> (cfg: FibonacciConfig)
        requires
            old(meta).wf(),
            old(meta).num_advice + 3 <= usize::MAX,
            old(meta).num_selectors < usize::MAX,
            old(meta).num_instance < usize::MAX,
        ensures
            final(meta).wf(),
            fib_columns_ok(*final(meta), cfg),
            final(meta).num_advice == old(meta).num_advice + 3,
            final(meta).num_selectors == old(meta).num_selectors + 1,
            final(meta).num_instance == old(meta).num_instance + 1,
            cfg.col_a == old(meta).num_advice,
            cfg.col_b == old(meta).num_advice + 1,
            cfg.col_c == old(meta).num_advice + 2,
            cfg.selector == old(meta).num_selectors,
            cfg.instance == old(meta).num_instance,
            final(meta).gates@.len() == old(meta).gates@.len() + 1,
            forall|i: int| 0 <= i < old(meta).gates@.len() ==>
                #[trigger] final(meta).gates@[i] == old(meta).gates@[i],
            final(meta).gates@[old(meta).gates@.len() as int].selector == cfg.selector,
            final(meta).gates@[old(meta).gates@.len() as int].poly == (GatePoly::Add {
                a: cfg.col_a,
                b: cfg.col_b,
                c: cfg.col_c,
            }),
            final(meta).gates@[old(meta).gates@.len() as int].name@ == "add"@,
    {
        let col_a = meta.advice_column();
        let col_b = meta.advice_column();
        let col_c = meta.advice_column();
        let selector = meta.selector();
        let instance = meta.instance_column();

        must_enable(meta, Column { kind: ColumnKind::Advice, index: col_a });
        must_enable(meta, Column { kind: ColumnKind::Advice, index: col_b });
        must_enable(meta, Column { kind: ColumnKind::Advice, index: col_c });
        must_enable(meta, Column { kind: ColumnKind::Instance, index: instance });

        proof {
            assert(meta.equality_enabled(Column { kind: ColumnKind::Advice, index: col_a }));
            assert(meta.equality_enabled(Column { kind: ColumnKind::Advice, index: col_b }));
            assert(meta.equality_enabled(Column { kind: ColumnKind::Advice, index: col_c }));
            assert(meta.equality_enabled(Column { kind: ColumnKind::Instance, index: instance }));
        }

        meta.create_gate(
            Gate {
                name: String::from_str("add"),
                constraint_name: String::from_str("add"),
                selector,
                poly: GatePoly::Add { a: col_a, b: col_b, c: col_c },
            },
        );

        FibonacciConfig { col_a, col_b, col_c, selector, instance }
    }

    /// Fills a fresh witness table with the sequence region: `nrows` rows of
    /// consecutive recurrence terms, the selector on everywhere, and the copy
    /// constraints chaining each row into the next. Returns the cell holding
    /// the `nrows`-th term, `t_{nrows-1}`; with `nrows = 2` no addition is
    /// needed for it and the returned cell holds the seed `b0` itself.
    pub fn assign_row(
        &self,
        cs: &ConstraintSystem,
        asg: &mut Assignment,
        a0: Felt,
        b0: Felt,
        nrows: usize,
    ) -> (out: Cell)
        requires
            cs.wf(),
            old(asg).wf(*cs),
            fib_columns_ok(*cs, self.config),
            nrows >= 2,
            a0.valid(),
            b0.valid(),
            old(asg).num_rows == nrows,
            forall|c: int, row: int|
                0 <= c < old(asg).advice@.len() && 0 <= row < nrows ==> (
                #[trigger] old(asg).advice@[c]@[row]).as_int() == 0,
            forall|s: int, row: int|
                0 <= s < old(asg).selectors@.len() && 0 <= row < nrows ==> !(
                #[trigger] old(asg).selectors@[s]@[row]),
            old(asg).regions@.len() == 0,
            old(asg).copies@.len() == 0,
            old(asg).bindings@.len() == 0,
        ensures
            final(asg).wf(*cs),
            is_fib_assignment(*final(asg), self.config, a0, b0, nrows as int),
            final(asg).bindings@.len() == 0,
            out == (Cell { col: self.config.col_b, row: (nrows - 2) as usize }),
            final(asg).cell_in_bounds(out),
            final(asg).value_at(out).as_int() == fib_term(a0.as_int(), b0.as_int(), nrows - 1),
            forall|c: int, row: int|
                0 <= c < final(asg).advice@.len() && 0 <= row < nrows && c != self.config.col_a
                    && c != self.config.col_b && c != self.config.col_c ==> (
                #[trigger] final(asg).advice@[c]@[row]).as_int() == 0,
            forall|s: int, row: int|
                0 <= s < final(asg).selectors@.len() && 0 <= row < nrows && s
                    != self.config.selector ==> !(#[trigger] final(asg).selectors@[s]@[row]),
    {
        let ghost a0i: int = a0.as_int();
        let ghost b0i: int = b0.as_int();
        let n: usize = nrows;
        let mut acol: Vec<Felt> = Vec::new();
        let mut bcol: Vec<Felt> = Vec::new();
        let mut ccol: Vec<Felt> = Vec::new();
        let mut ta: Felt = a0;
        let mut tb: Felt = b0;
        let mut i: usize = 0;
        while i < n
            invariant
                i <= n,
                acol@.len() == i,
                bcol@.len() == i,
                ccol@.len() == i,
                ta.valid(),
                tb.valid(),
                ta.as_int() == fib_term(a0i, b0i, i as int),
                tb.as_int() == fib_term(a0i, b0i, i + 1),
                a0.valid(),
                b0.valid(),
                a0i == a0.as_int(),
                b0i == b0.as_int(),
                forall|j: int| 0 <= j < i ==> (#[trigger] acol@[j]).valid(),
                forall|j: int| 0 <= j < i ==> (#[trigger] bcol@[j]).valid(),
                forall|j: int| 0 <= j < i ==> (#[trigger] ccol@[j]).valid(),
                forall|j: int|
                    0 <= j < i ==> (#[trigger] acol@[j]).as_int() == fib_term(a0i, b0i, j),
                forall|j: int|
                    0 <= j < i ==> (#[trigger] bcol@[j]).as_int() == fib_term(a0i, b0i, j + 1),
                forall|j: int|
                    0 <= j < i ==> (#[trigger] ccol@[j]).as_int() == fib_term(a0i, b0i, j + 2),
            decreases n - i,
        {
            let tc: Felt = ta.add(tb);
            acol.push(ta);
            bcol.push(tb);
            ccol.push(tc);
            ta = tb;
            tb = tc;
            i = i + 1;
        }
        let scol: Vec<bool> = on_column(n);
        replace_at(&mut asg.advice, self.config.col_a, acol);
        replace_at(&mut asg.advice, self.config.col_b, bcol);
        replace_at(&mut asg.advice, self.config.col_c, ccol);
        replace_at(&mut asg.selectors, self.config.selector, scol);
        let mut k: usize = 0;
        while k < n - 1
            invariant
                k <= n - 1,
                n == asg.num_rows,
                asg.copies@.len() == 2 * k,
                forall|j: int| 0 <= j < 2 * k ==> #[trigger] asg.copies@[j] == fib_copy(
                    self.config,
                    j,
                ),
                asg.advice@ == old(asg).advice@.update(
                    self.config.col_a as int,
                    acol,
                ).update(self.config.col_b as int, bcol).update(self.config.col_c as int, ccol),
                asg.selectors@ == old(asg).selectors@.update(self.config.selector as int, scol),
                asg.regions@.len() == 0,
                asg.bindings@.len() == 0,
            decreases n - 1 - k,
        {
            asg.copies.push(
                CopyConstraint {
                    a: Cell { col: self.config.col_b, row: k },
                    b: Cell { col: self.config.col_a, row: k + 1 },
                },
            );
            asg.copies.push(
                CopyConstraint {
                    a: Cell { col: self.config.col_c, row: k },
                    b: Cell { col: self.config.col_b, row: k + 1 },
                },
            );
            k = k + 1;
        }
        asg.regions.push(Region { name: String::from_str("fibo table"), start: 0, rows: n });
        Cell { col: self.config.col_b, row: n - 2 }
    }

    /// Binds a computed cell to a row of the instance column by a copy
    /// constraint. Fails, leaving the witness unchanged, exactly when the
    /// cell is already bound to a different public-input position.
    pub fn expose_public(
        &self,
        cs: &ConstraintSystem,
        asg: &mut Assignment,
        cell: Cell,
        row: usize,
    ) -> (r: Result<(), CircuitError>)
        requires
            cs.wf(),
            old(asg).wf(*cs),
            old(asg).cell_in_bounds(cell),
            cs.advice_equality@[cell.col as int],
            self.config.instance < cs.num_instance,
            cs.instance_equality@[self.config.instance as int],
        ensures
            final(asg).wf(*cs),
            r is Ok <==> (forall|i: int|
                0 <= i < old(asg).bindings@.len() ==> ((#[trigger] old(asg).bindings@[i]).cell
                    == cell ==> old(asg).bindings@[i].instance_col == self.config.instance
                    && old(asg).bindings@[i].row == row)),
            r is Ok ==> final(asg).bindings@ == old(asg).bindings@.push(
                InstanceBinding { cell, instance_col: self.config.instance, row },
            ),
            r is Err ==> *final(asg) == *old(asg) && r == Result::<(), CircuitError>::Err(
                CircuitError::ConflictingBinding,
            ),
            final(asg).num_rows == old(asg).num_rows,
            final(asg).advice@ == old(asg).advice@,
            final(asg).selectors@ == old(asg).selectors@,
            final(asg).copies@ == old(asg).copies@,
            final(asg).regions@ == old(asg).regions@,
    {
        let nbind: usize = asg.bindings.len();
        let mut i: usize = 0;
        while i < nbind
            invariant
                *asg == *old(asg),
                cs.wf(),
                asg.wf(*cs),
                self.config.instance < cs.num_instance,
                nbind == asg.bindings@.len(),
                i <= nbind,
                forall|j: int|
                    0 <= j < i ==> ((#[trigger] asg.bindings@[j]).cell == cell
                        ==> asg.bindings@[j].instance_col == self.config.instance
                        && asg.bindings@[j].row == row),
            decreases nbind - i,
        {
            let b = asg.bindings[i];
            if b.cell == cell && (b.instance_col != self.config.instance || b.row != row) {
                return Err(CircuitError::ConflictingBinding);
            }
            i = i + 1;
        }
        asg.bindings.push(InstanceBinding { cell, instance_col: self.config.instance, row });
        Ok(())
    }
}

/// The sequence-relation circuit as a whole: seeds and a row count, compiled
/// and witnessed in one step.
pub struct FiboCircuit {
    pub nrows: usize,
    pub a0: Felt,
    pub b0: Felt,
}

impl FiboCircuit {
    /// Configures a fresh constraint system, fills the witness table from the
    /// seeds, and binds the final computed cell to row 2 of the instance
    /// column.
    pub fn synthesize(&self) -> (r: (ConstraintSystem, FibonacciConfig, Assignment))
        requires
            self.nrows >= 2,
            self.a0.valid(),
            self.b0.valid(),
        ensures
            r.0.wf(),
            r.2.wf(r.0),
            is_fib_cs(r.0, r.1),
            is_fib_assignment(r.2, r.1, self.a0, self.b0, self.nrows as int),
            r.2.bindings@ =~= seq![
                InstanceBinding {
                    cell: Cell { col: r.1.col_b, row: (self.nrows - 2) as usize },
                    instance_col: r.1.instance,
                    row: 2,
                },
            ],
    {
        let mut meta = ConstraintSystem::new();
        let cfg = FibonacciChip::configure(&mut meta);
        let chip = FibonacciChip::construct(cfg);
        let mut asg = Assignment::new(&meta, self.nrows);
        let out = chip.assign_row(&meta, &mut asg, self.a0, self.b0, self.nrows);
        // The fresh witness holds no binding yet, so the exposure cannot
        // conflict with one.
        let bound = chip.expose_public(&meta, &mut asg, out, 2);
        match bound {
            Ok(u) => {},
            Err(e) => {},
        }
        (meta, cfg, asg)
    }
}

/// The exposed public value of the sequence circuit is pinned by the
/// recurrence: a witness built from seeds `(a0, b0)` over `n` rows satisfies
/// the circuit exactly when the supplied public input holds the `n`-th
/// recurrence term `t_{n-1}` at row 2 of the instance column.
pub proof fn lemma_fib_exposed_value(
    cs: ConstraintSystem,
    cfg: FibonacciConfig,
    asg: Assignment,
    a0: Felt,
    b0: Felt,
    n: int,
    inst: Seq<Vec<Felt>>,
)
    requires
        is_fib_cs(cs, cfg),
        is_fib_assignment(asg, cfg, a0, b0, n),
        asg.bindings@ =~= seq![
            InstanceBinding {
                cell: Cell { col: cfg.col_b, row: (n - 2) as usize },
                instance_col: cfg.instance,
                row: 2,
            },
        ],
        n >= 2,
        a0.valid(),
        b0.valid(),
    ensures
        satisfied(cs, asg, inst) <==> (cfg.instance < inst.len()
            && 2 < inst[cfg.instance as int]@.len()
            && inst[cfg.instance as int]@[2].as_int() == fib_term(
            a0.as_int(),
            b0.as_int(),
            n - 1,
        )),
{
    let a0i = a0.as_int();
    let b0i = b0.as_int();
    assert forall|r: int, g: int|
        0 <= r < asg.num_rows && 0 <= g < cs.gates@.len() implies !gate_violated(
        cs,
        asg,
        r,
        g,
    ) by {
        assert(asg.advice@[cfg.col_a as int]@[r].as_int() == fib_term(a0i, b0i, r));
        assert(asg.advice@[cfg.col_b as int]@[r].as_int() == fib_term(a0i, b0i, r + 1));
        assert(asg.advice@[cfg.col_c as int]@[r].as_int() == fib_term(a0i, b0i, r + 2));
        assert(fib_term(a0i, b0i, r + 2) == add_mod(
            fib_term(a0i, b0i, r),
            fib_term(a0i, b0i, r + 1),
        ));
    }
    assert(gates_ok(cs, asg));
    assert forall|i: int| 0 <= i < asg.copies@.len() implies !copy_violated(asg, i) by {
        assert(asg.copies@[i] == fib_copy(cfg, i));
        let h = i / 2;
        assert(0 <= h < n - 1);
        assert(asg.advice@[cfg.col_a as int]@[h + 1].as_int() == fib_term(a0i, b0i, h + 1));
        assert(asg.advice@[cfg.col_b as int]@[h].as_int() == fib_term(a0i, b0i, h + 1));
        assert(asg.advice@[cfg.col_b as int]@[h + 1].as_int() == fib_term(a0i, b0i, h + 2));
        assert(asg.advice@[cfg.col_c as int]@[h].as_int() == fib_term(a0i, b0i, h + 2));
    }
    assert(copies_ok(asg));
    let b = asg.bindings@[0];
    assert(asg.value_at(b.cell).as_int() == fib_term(a0i, b0i, n - 1));
    assert(bindings_ok(asg, inst) <==> !binding_violated(asg, inst, 0));
}

/// Perturbing the exposed public input by one leaves every gate and copy
/// constraint of the sequence circuit satisfied — the checker still runs
/// over the whole witness — but the instance binding mismatches, so the
/// check as a whole fails.
pub proof fn lemma_fib_perturbed_public_input(
    cs: ConstraintSystem,
    cfg: FibonacciConfig,
    asg: Assignment,
    a0: Felt,
    b0: Felt,
    n: int,
    good: Seq<Vec<Felt>>,
    bad: Seq<Vec<Felt>>,
)
    requires
        is_fib_cs(cs, cfg),
        is_fib_assignment(asg, cfg, a0, b0, n),
        asg.bindings@ =~= seq![
            InstanceBinding {
                cell: Cell { col: cfg.col_b, row: (n - 2) as usize },
                instance_col: cfg.instance,
                row: 2,
            },
        ],
        n >= 2,
        a0.valid(),
        b0.valid(),
        cfg.instance < good.len(),
        2 < good[cfg.instance as int]@.len(),
        good[cfg.instance as int]@[2].as_int() == fib_term(a0.as_int(), b0.as_int(), n - 1),
        cfg.instance < bad.len(),
        2 < bad[cfg.instance as int]@.len(),
        bad[cfg.instance as int]@[2].as_int() == add_mod(
            fib_term(a0.as_int(), b0.as_int(), n - 1),
            1,
        ),
    ensures
        satisfied(cs, asg, good),
        gates_ok(cs, asg),
        copies_ok(asg),
        !satisfied(cs, asg, bad),
{
    let t = fib_term(a0.as_int(), b0.as_int(), n - 1);
    lemma_fib_term_valid(a0.as_int(), b0.as_int(), n - 1);
    if t + 1 < modulus() {
        vstd::arithmetic::div_mod::lemma_small_mod((t + 1) as nat, modulus() as nat);
    } else {
        vstd::arithmetic::div_mod::lemma_mod_self_0(modulus());
    }
    assert(add_mod(t, 1) != t);
    lemma_fib_exposed_value(cs, cfg, asg, a0, b0, n, good);
    lemma_fib_exposed_value(cs, cfg, asg, a0, b0, n, bad);
}

/// A column of `n` enabled selector bits.
fn on_column(n: usize) -> (r: Vec<bool>)
    ensures
        r@.len() == n,
        forall|i: int| 0 <= i < n ==> (#[trigger] r@[i]),
{
    let mut col: Vec<bool> = Vec::new();
    let mut i: usize = 0;
    while i < n
        invariant
            i <= n,
            col@.len() == i,
            forall|j: int| 0 <= j < i ==> (#[trigger] col@[j]),
        decreases n - i,
    {
        col.push(true);
        i = i + 1;
    }
    col
}

} // verus!
