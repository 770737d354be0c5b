//! The constraint checker: evaluates every selector-gated polynomial on every
//! row of a witness table, checks copy constraints and public-input bindings,
//! and either declares the circuit satisfied or reports every violation.

use vstd::prelude::*;
use crate::field::{add_mod, sub_mod, mul_mod, Felt};
use crate::model::{
    Assignment, Cell, CellValue, ConstraintSystem, GateCells, GatePoly, Region, Violation,
};

verus! {

/// The value of `v * (1 - v) * (2 - v) * ... * (k-1 - v)` in the field, for
/// `k >= 1` factors (`v` itself being the first).
pub open spec fn range_poly(v: int, k: int) -> int
    decreases k,
{
    if k <= 1 {
        v
    } else {
        mul_mod(range_poly(v, k - 1), sub_mod(k - 1, v))
    }
}

/// The value of a gate's polynomial at a row of the witness table.
pub open spec fn poly_eval(asg: Assignment, poly: GatePoly, r: int) -> int {
    match poly {
        GatePoly::Add { a, b, c } => sub_mod(
            add_mod(asg.advice@[a as int]@[r].as_int(), asg.advice@[b as int]@[r].as_int()),
            asg.advice@[c as int]@[r].as_int(),
        ),
        GatePoly::RangeProduct { col, range } => range_poly(
            asg.advice@[col as int]@[r].as_int(),
            range as int,
        ),
    }
}

/// The cells a gate's polynomial reads at a row, with their table values.
pub open spec fn gate_cells(asg: Assignment, poly: GatePoly, r: int) -> GateCells {
    match poly {
        GatePoly::Add { a, b, c } => GateCells::Add {
            a: CellValue {
                cell: Cell { col: a, row: r as usize },
                value: asg.advice@[a as int]@[r],
            },
            b: CellValue {
                cell: Cell { col: b, row: r as usize },
                value: asg.advice@[b as int]@[r],
            },
            c: CellValue {
                cell: Cell { col: c, row: r as usize },
                value: asg.advice@[c as int]@[r],
            },
        },
        GatePoly::RangeProduct { col, range } => GateCells::Range {
            value: CellValue {
                cell: Cell { col: col, row: r as usize },
                value: asg.advice@[col as int]@[r],
            },
        },
    }
}

/// Whether a region's row span contains a row.
pub open spec fn region_contains(reg: Region, row: int) -> bool {
    reg.start <= row < reg.start + reg.rows
}

/// The first index at or after `i` of a region containing `row`, or the
/// number of regions when none does.
pub open spec fn find_region_from(regions: Seq<Region>, row: int, i: int) -> int
    decreases regions.len() - i,
{
    if i < 0 || i >= regions.len() {
        regions.len() as int
    } else if region_contains(regions[i], row) {
        i
    } else {
        find_region_from(regions, row, i + 1)
    }
}

/// The index of the first region of the witness containing `row`, or the
/// number of regions when none does.
pub open spec fn region_index_of(asg: Assignment, row: int) -> int {
    find_region_from(asg.regions@, row, 0)
}

/// The row offset reported for a failure at `row`: the offset inside the
/// containing region, or the absolute row when no region contains it.
pub open spec fn region_offset_of(asg: Assignment, row: int) -> int {
    let ri = region_index_of(asg, row);
    if ri < asg.regions@.len() {
        row - asg.regions@[ri].start
    } else {
        row
    }
}

/// Whether gate `g` is violated at row `r`: its selector is on there and its
/// polynomial does not vanish.
pub open spec fn gate_violated(cs: ConstraintSystem, asg: Assignment, r: int, g: int) -> bool {
    let gate = cs.gates@[g];
    asg.selectors@[gate.selector as int]@[r] && poly_eval(asg, gate.poly, r) != 0
}

/// The violation reported for gate `g` at row `r`.
pub open spec fn gate_violation(cs: ConstraintSystem, asg: Assignment, r: int, g: int) -> Violation {
    Violation::ConstraintNotSatisfied {
        gate: g as usize,
        region: region_index_of(asg, r) as usize,
        offset: region_offset_of(asg, r) as usize,
        cells: gate_cells(asg, cs.gates@[g].poly, r),
    }
}

/// The violations of gates `[0, g)` at row `r`, in gate order.
pub open spec fn row_violations(cs: ConstraintSystem, asg: Assignment, r: int, g: int) -> Seq<
    Violation,
>
    decreases g,
{
    if g <= 0 {
        Seq::empty()
    } else {
        row_violations(cs, asg, r, g - 1) + if gate_violated(cs, asg, r, g - 1) {
            seq![gate_violation(cs, asg, r, g - 1)]
        } else {
            Seq::empty()
        }
    }
}

/// Gate violations over rows `[0, r)`, row-major.
pub open spec fn gate_violations_upto(cs: ConstraintSystem, asg: Assignment, r: int) -> Seq<
    Violation,
>
    decreases r,
{
    if r <= 0 {
        Seq::empty()
    } else {
        gate_violations_upto(cs, asg, r - 1) + row_violations(
            cs,
            asg,
            r - 1,
            cs.gates@.len() as int,
        )
    }
}

/// Whether copy constraint `i` is violated: its two cells hold different
/// values.
pub open spec fn copy_violated(asg: Assignment, i: int) -> bool {
    asg.value_at(asg.copies@[i].a) != asg.value_at(asg.copies@[i].b)
}

/// The violation reported for copy constraint `i`.
pub open spec fn copy_violation(asg: Assignment, i: int) -> Violation {
    Violation::CopyMismatch {
        a: CellValue { cell: asg.copies@[i].a, value: asg.value_at(asg.copies@[i].a) },
        b: CellValue { cell: asg.copies@[i].b, value: asg.value_at(asg.copies@[i].b) },
    }
}

/// The violations of copy constraints `[0, i)`, in declaration order.
pub open spec fn copy_violations_upto(asg: Assignment, i: int) -> Seq<Violation>
    decreases i,
{
    if i <= 0 {
        Seq::empty()
    } else {
        copy_violations_upto(asg, i - 1) + if copy_violated(asg, i - 1) {
            seq![copy_violation(asg, i - 1)]
        } else {
            Seq::empty()
        }
    }
}

/// Whether public-input binding `i` is violated: the bound position is
/// missing from the supplied public inputs, or holds a different value than
/// the bound cell.
pub open spec fn binding_violated(asg: Assignment, inst: Seq<Vec<Felt>>, i: int) -> bool {
    let b = asg.bindings@[i];
    ||| b.instance_col >= inst.len()
    ||| b.row >= inst[b.instance_col as int]@.len()
    ||| asg.value_at(b.cell) != inst[b.instance_col as int]@[b.row as int]
}

/// The violation reported for public-input binding `i`.
pub open spec fn binding_violation(asg: Assignment, i: int) -> Violation {
    let b = asg.bindings@[i];
    Violation::InstanceMismatch {
        cell: CellValue { cell: b.cell, value: asg.value_at(b.cell) },
        instance_col: b.instance_col,
        row: b.row,
    }
}

/// The violations of bindings `[0, i)`, in declaration order.
pub open spec fn binding_violations_upto(asg: Assignment, inst: Seq<Vec<Felt>>, i: int) -> Seq<
    Violation,
>
    decreases i,
{
    if i <= 0 {
        Seq::empty()
    } else {
        binding_violations_upto(asg, inst, i - 1) + if binding_violated(asg, inst, i - 1) {
            seq![binding_violation(asg, i - 1)]
        } else {
            Seq::empty()
        }
    }
}

/// Every violation of the circuit on this witness and these public inputs:
/// gate failures row-major, then copy failures, then binding failures.
pub open spec fn violations_of(
    cs: ConstraintSystem,
    asg: Assignment,
    inst: Seq<Vec<Felt>>,
) -> Seq<Violation> {
    gate_violations_upto(cs, asg, asg.num_rows as int) + copy_violations_upto(
        asg,
        asg.copies@.len() as int,
    ) + binding_violations_upto(asg, inst, asg.bindings@.len() as int)
}

/// Every enabled gate's polynomial vanishes on every row.
pub open spec fn gates_ok(cs: ConstraintSystem, asg: Assignment) -> bool {
    forall|r: int, g: int|
        0 <= r < asg.num_rows && 0 <= g < cs.gates@.len() ==> !gate_violated(cs, asg, r, g)
}

/// Every pair of copy-constrained cells holds equal values.
pub open spec fn copies_ok(asg: Assignment) -> bool {
    forall|i: int| 0 <= i < asg.copies@.len() ==> !copy_violated(asg, i)
}

/// Every bound cell matches its supplied public-input value.
pub open spec fn bindings_ok(asg: Assignment, inst: Seq<Vec<Felt>>) -> bool {
    forall|i: int| 0 <= i < asg.bindings@.len() ==> !binding_violated(asg, inst, i)
}

/// The circuit is satisfied on this witness and these public inputs.
pub open spec fn satisfied(cs: ConstraintSystem, asg: Assignment, inst: Seq<Vec<Felt>>) -> bool {
    gates_ok(cs, asg) && copies_ok(asg) && bindings_ok(asg, inst)
}

proof fn lemma_row_violations_empty(cs: ConstraintSystem, asg: Assignment, r: int, g: int)
    requires
        g >= 0,
    ensures
        row_violations(cs, asg, r, g).len() == 0 <==> (forall|j: int|
            0 <= j < g ==> !gate_violated(cs, asg, r, j)),
    decreases g,
{
    if g > 0 {
        lemma_row_violations_empty(cs, asg, r, g - 1);
    }
}

proof fn lemma_gate_violations_empty(cs: ConstraintSystem, asg: Assignment, r: int)
    requires
        r >= 0,
    ensures
        gate_violations_upto(cs, asg, r).len() == 0 <==> (forall|rr: int, g: int|
            0 <= rr < r && 0 <= g < cs.gates@.len() ==> !gate_violated(cs, asg, rr, g)),
    decreases r,
{
    if r > 0 {
        lemma_gate_violations_empty(cs, asg, r - 1);
        lemma_row_violations_empty(cs, asg, r - 1, cs.gates@.len() as int);
    }
}

proof fn lemma_copy_violations_empty(asg: Assignment, i: int)
    requires
        i >= 0,
    ensures
        copy_violations_upto(asg, i).len() == 0 <==> (forall|j: int|
            0 <= j < i ==> !copy_violated(asg, j)),
    decreases i,
{
    if i > 0 {
        lemma_copy_violations_empty(asg, i - 1);
    }
}

proof fn lemma_binding_violations_empty(asg: Assignment, inst: Seq<Vec<Felt>>, i: int)
    requires
        i >= 0,
    ensures
        binding_violations_upto(asg, inst, i).len() == 0 <==> (forall|j: int|
            0 <= j < i ==> !binding_violated(asg, inst, j)),
    decreases i,
{
    if i > 0 {
        lemma_binding_violations_empty(asg, inst, i - 1);
    }
}

/// The circuit is satisfied exactly when the checker's violation list is
/// empty.
pub proof fn lemma_satisfied_iff_no_violations(
    cs: ConstraintSystem,
    asg: Assignment,
    inst: Seq<Vec<Felt>>,
)
    ensures
        satisfied(cs, asg, inst) <==> violations_of(cs, asg, inst).len() == 0,
{
    lemma_gate_violations_empty(cs, asg, asg.num_rows as int);
    lemma_copy_violations_empty(asg, asg.copies@.len() as int);
    lemma_binding_violations_empty(asg, inst, asg.bindings@.len() as int);
}

/// What `run` promises of its result: satisfaction exactly when it returns
/// `Ok`, and on failure the complete, deterministically ordered violation
/// list.
pub open spec fn run_post(
    cs: ConstraintSystem,
    asg: Assignment,
    inst: Seq<Vec<Felt>>,
    r: Result<(), Vec<Violation>>,
) -> bool {
    match r {
        Ok(u) => satisfied(cs, asg, inst),
        Err(vs) => {
            &&& vs@ == violations_of(cs, asg, inst)
            &&& vs@.len() > 0
            &&& !satisfied(cs, asg, inst)
        },
    }
}

/// Evaluates a gate polynomial at a row of the witness table.
fn poly_eval_exec(asg: &Assignment, poly: GatePoly, r: usize) -> (res: Felt)
    requires
        r < asg.num_rows,
        match poly {
            GatePoly::Add { a, b, c } => a < asg.advice@.len() && b < asg.advice@.len() && c
                < asg.advice@.len(),
            GatePoly::RangeProduct { col, range } => col < asg.advice@.len() && 1 <= range
                < crate::field::FIELD_MODULUS,
        },
        forall|c: int| 0 <= c < asg.advice@.len() ==> (#[trigger] asg.advice@[c])@.len()
            == asg.num_rows,
        forall|c: int, row: int|
            0 <= c < asg.advice@.len() && 0 <= row < asg.num_rows ==> (
            #[trigger] asg.advice@[c]@[row]).valid(),
    ensures
        res.valid(),
        res.as_int() == poly_eval(*asg, poly, r as int),
{
    match poly {
        GatePoly::Add { a, b, c } => {
            let va: Felt = asg.advice[a][r];
            let vb: Felt = asg.advice[b][r];
            let vc: Felt = asg.advice[c][r];
            va.add(vb).sub(vc)
        },
        GatePoly::RangeProduct { col, range } => {
            let v: Felt = asg.advice[col][r];
            let mut acc: Felt = v;
            let mut i: u64 = 1;
            while i < range
                invariant
                    1 <= i <= range,
                    v.valid(),
                    acc.valid(),
                    range < crate::field::FIELD_MODULUS,
                    acc.as_int() == range_poly(v.as_int(), i as int),
                decreases range - i,
            {
                proof {
                    vstd::arithmetic::div_mod::lemma_small_mod(i as nat, crate::field::FIELD_MODULUS as nat);
                }
                let factor: Felt = Felt::from_u64(i).sub(v);
                acc = acc.mul(factor);
                i = i + 1;
            }
            acc
        },
    }
}

/// Finds the first region containing a row; returns the region index and the
/// offset of the row inside it, or the region count and the absolute row when
/// no region contains it.
fn find_region(asg: &Assignment, row: usize) -> (r: (usize, usize))
    ensures
        r.0 == region_index_of(*asg, row as int),
        r.1 == region_offset_of(*asg, row as int),
{
    let n: usize = asg.regions.len();
    let mut i: usize = 0;
    while i < n
        invariant
            n == asg.regions@.len(),
            0 <= i <= n,
            find_region_from(asg.regions@, row as int, 0) == find_region_from(
                asg.regions@,
                row as int,
                i as int,
            ),
        decreases n - i,
    {
        let reg = &asg.regions[i];
        if row >= reg.start && row - reg.start < reg.rows {
            return (i, row - reg.start);
        }
        i = i + 1;
    }
    (n, row)
}

/// Compiles nothing and checks everything: evaluates every gate on every row
/// where its selector is on, then every copy constraint, then every
/// public-input binding. Returns `Ok` exactly when the witness satisfies the
/// circuit; otherwise returns the complete list of violations, in checking
/// order, so one call reports every failure at once. The result is a
/// function of the three arguments alone.
pub fn run(cs: &ConstraintSystem, asg: &Assignment, instances: &Vec<Vec<Felt>>) -> (r: Result<
    (),
    Vec<Violation>,
>)
    requires
        cs.wf(),
        asg.wf(*cs),
    ensures
        run_post(*cs, *asg, instances@, r),
{
    let mut vs: Vec<Violation> = Vec::new();
    let nrows: usize = asg.num_rows;
    let ngates: usize = cs.gates.len();
    let mut row: usize = 0;
    while row < nrows
        invariant
            cs.wf(),
            asg.wf(*cs),
            nrows == asg.num_rows,
            ngates == cs.gates@.len(),
            0 <= row <= nrows,
            vs@ == gate_violations_upto(*cs, *asg, row as int),
        decreases nrows - row,
    {
        let mut g: usize = 0;
        while g < ngates
            invariant
                cs.wf(),
                asg.wf(*cs),
                nrows == asg.num_rows,
                ngates == cs.gates@.len(),
                row < nrows,
                0 <= g <= ngates,
                vs@ == gate_violations_upto(*cs, *asg, row as int) + row_violations(
                    *cs,
                    *asg,
                    row as int,
                    g as int,
                ),
            decreases ngates - g,
        {
            let gate = &cs.gates[g];
            if asg.selectors[gate.selector][row] {
                let val: Felt = poly_eval_exec(asg, gate.poly, row);
                if val.repr != 0 {
                    let (ri, off) = find_region(asg, row);
                    let cells: GateCells = match gate.poly {
                        GatePoly::Add { a, b, c } => GateCells::Add {
                            a: CellValue {
                                cell: Cell { col: a, row },
                                value: asg.advice[a][row],
                            },
                            b: CellValue {
                                cell: Cell { col: b, row },
                                value: asg.advice[b][row],
                            },
                            c: CellValue {
                                cell: Cell { col: c, row },
                                value: asg.advice[c][row],
                            },
                        },
                        GatePoly::RangeProduct { col, range } => GateCells::Range {
                            value: CellValue {
                                cell: Cell { col, row },
                                value: asg.advice[col][row],
                            },
                        },
                    };
                    vs.push(
                        Violation::ConstraintNotSatisfied { gate: g, region: ri, offset: off, cells },
                    );
                }
            }
            proof {
                assert(vs@ =~= gate_violations_upto(*cs, *asg, row as int) + row_violations(
                    *cs,
                    *asg,
                    row as int,
                    g + 1,
                ));
            }
            g = g + 1;
        }
        row = row + 1;
    }
    let ncopies: usize = asg.copies.len();
    let mut i: usize = 0;
    while i < ncopies
        invariant
            cs.wf(),
            asg.wf(*cs),
            ncopies == asg.copies@.len(),
            0 <= i <= ncopies,
            vs@ == gate_violations_upto(*cs, *asg, asg.num_rows as int) + copy_violations_upto(
                *asg,
                i as int,
            ),
        decreases ncopies - i,
    {
        let cc = asg.copies[i];
        let va: Felt = asg.advice[cc.a.col][cc.a.row];
        let vb: Felt = asg.advice[cc.b.col][cc.b.row];
        if va != vb {
            vs.push(
                Violation::CopyMismatch {
                    a: CellValue { cell: cc.a, value: va },
                    b: CellValue { cell: cc.b, value: vb },
                },
            );
        }
        proof {
            assert(vs@ =~= gate_violations_upto(*cs, *asg, asg.num_rows as int)
                + copy_violations_upto(*asg, i + 1));
        }
        i = i + 1;
    }
    let nbind: usize = asg.bindings.len();
    let mut j: usize = 0;
    while j < nbind
        invariant
            cs.wf(),
            asg.wf(*cs),
            nbind == asg.bindings@.len(),
            0 <= j <= nbind,
            vs@ == gate_violations_upto(*cs, *asg, asg.num_rows as int) + copy_violations_upto(
                *asg,
                asg.copies@.len() as int,
            ) + binding_violations_upto(*asg, instances@, j as int),
        decreases nbind - j,
    {
        let b = asg.bindings[j];
        let val: Felt = asg.advice[b.cell.col][b.cell.row];
        let matches_public: bool = if b.instance_col < instances.len() {
            let column = &instances[b.instance_col];
            if b.row < column.len() {
                val == column[b.row]
            } else {
                false
            }
        } else {
            false
        };
        if !matches_public {
            vs.push(
                Violation::InstanceMismatch {
                    cell: CellValue { cell: b.cell, value: val },
                    instance_col: b.instance_col,
                    row: b.row,
                },
            );
        }
        proof {
            assert(vs@ =~= gate_violations_upto(*cs, *asg, asg.num_rows as int)
                + copy_violations_upto(*asg, asg.copies@.len() as int) + binding_violations_upto(
                *asg,
                instances@,
                j + 1,
            ));
        }
        j = j + 1;
    }
    proof {
        lemma_satisfied_iff_no_violations(*cs, *asg, instances@);
    }
    if vs.len() == 0 {
        proof {
            assert(violations_of(*cs, *asg, instances@).len() == 0);
        }
        Ok(())
    } else {
        Err(vs)
    }
}

/// Checking is deterministic: any two results that `run` may return for the
/// same circuit, witness and public inputs agree — both satisfied, or both
/// the same violation list.
pub proof fn lemma_run_deterministic(
    cs: ConstraintSystem,
    asg: Assignment,
    inst: Seq<Vec<Felt>>,
    r1: Result<(), Vec<Violation>>,
    r2: Result<(), Vec<Violation>>,
)
    requires
        run_post(cs, asg, inst, r1),
        run_post(cs, asg, inst, r2),
    ensures
        r1 is Ok <==> r2 is Ok,
        r1 is Err && r2 is Err ==> r1->Err_0@ == r2->Err_0@,
{
}

} // verus!
