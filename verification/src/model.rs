//! The data model of a circuit: columns, selectors, gates, the constraint
//! system collected at configuration time, and the witness table produced at
//! synthesis time.

use vstd::prelude::*;
use crate::field::{Felt, FIELD_MODULUS};

verus! {

/// The kind of a table column: private witness or public input.
#[derive(Clone, Copy, Debug, PartialEq, Eq, Structural)]
pub enum ColumnKind {
    Advice,
    Instance,
}

/// A column handle: a kind together with an index in that kind's namespace.
#[derive(Clone, Copy, Debug, PartialEq, Eq, Structural)]
pub struct Column {
    pub kind: ColumnKind,
    pub index: usize,
}

/// A cell coordinate in the advice table.
#[derive(Clone, Copy, Debug, PartialEq, Eq, Structural)]
pub struct Cell {
    pub col: usize,
    pub row: usize,
}

/// A cell coordinate together with the value the table holds there.
#[derive(Clone, Copy, Debug, PartialEq, Eq, Structural)]
pub struct CellValue {
    pub cell: Cell,
    pub value: Felt,
}

/// The polynomial of a gate, as a tagged descriptor over column indices.
#[derive(Clone, Copy, Debug, PartialEq, Eq, Structural)]
pub enum GatePoly {
    /// `a + b - c`, each name an advice column read at the constrained row.
    Add { a: usize, b: usize, c: usize },
    /// `v * (1 - v) * (2 - v) * ... * (range-1 - v)` where `v` is the value
    /// of the named advice column at the constrained row.
    RangeProduct { col: usize, range: u64 },
}

/// The cells a gate reads at one row, with their values; reported when the
/// gate's polynomial fails to vanish there.
#[derive(Clone, Copy, Debug, PartialEq, Eq, Structural)]
pub enum GateCells {
    Add { a: CellValue, b: CellValue, c: CellValue },
    Range { value: CellValue },
}

/// A named, selector-gated polynomial constraint.
pub struct Gate {
    pub name: String,
    pub constraint_name: String,
    pub selector: usize,
    pub poly: GatePoly,
}

/// An error raised while building a circuit, before any checking runs.
#[derive(Clone, Copy, Debug, PartialEq, Eq, Structural)]
pub enum CircuitError {
    /// Equality was enabled twice on the same column.
    DuplicateEquality,
    /// A cell was bound to two different public-input positions.
    ConflictingBinding,
}

/// One constraint failure found by the checker.
#[derive(Clone, Copy, Debug, PartialEq, Eq, Structural)]
pub enum Violation {
    /// A gate's polynomial was nonzero on a row where its selector is on.
    /// `region` indexes the witness's region list (its length when no region
    /// contains the row) and `offset` is the row offset inside that region
    /// (the absolute row when no region contains it).
    ConstraintNotSatisfied { gate: usize, region: usize, offset: usize, cells: GateCells },
    /// Two copy-constrained cells hold different values.
    CopyMismatch { a: CellValue, b: CellValue },
    /// A cell bound to a public-input position differs from the supplied
    /// public value, or the position does not exist in the supplied values.
    InstanceMismatch { cell: CellValue, instance_col: usize, row: usize },
}

/// The static shape of a circuit: columns, selectors, equality flags, gates.
pub struct ConstraintSystem {
    pub num_advice: usize,
    pub num_selectors: usize,
    pub num_instance: usize,
    pub advice_equality: Vec<bool>,
    pub instance_equality: Vec<bool>,
    pub gates: Vec<Gate>,
}

impl ConstraintSystem {
    /// A gate is well formed when it names a declared selector and declared
    /// advice columns, and a range product has between 1 and modulus-1
    /// factors.
    pub open spec fn gate_wf(self, g: Gate) -> bool {
        &&& g.selector < self.num_selectors
        &&& match g.poly {
            GatePoly::Add { a, b, c } => {
                a < self.num_advice && b < self.num_advice && c < self.num_advice
            },
            GatePoly::RangeProduct { col, range } => {
                col < self.num_advice && 1 <= range < FIELD_MODULUS
            },
        }
    }

    /// The equality-flag lists track one flag per declared column, and every
    /// gate is well formed.
    pub open spec fn wf(self) -> bool {
        &&& self.advice_equality@.len() == self.num_advice
        &&& self.instance_equality@.len() == self.num_instance
        &&& forall|i: int| 0 <= i < self.gates@.len() ==> self.gate_wf(#[trigger] self.gates@[i])
    }

    /// An empty constraint system: no columns, no selectors, no gates.
    pub fn new() -> (r: ConstraintSystem)
        ensures
            r.wf(),
            r.num_advice == 0,
            r.num_selectors == 0,
            r.num_instance == 0,
            r.gates@.len() == 0,
    {
        ConstraintSystem {
            num_advice: 0,
            num_selectors: 0,
            num_instance: 0,
            advice_equality: Vec::new(),
            instance_equality: Vec::new(),
            gates: Vec::new(),
        }
    }

    /// Declares a fresh advice column and returns its index.
    pub fn advice_column(&mut self) -> (r: usize)
        requires
            old(self).wf(),
            old(self).num_advice < usize::MAX,
        ensures
            final(self).wf(),
            r == old(self).num_advice,
            final(self).num_advice == old(self).num_advice + 1,
            final(self).num_selectors == old(self).num_selectors,
            final(self).num_instance == old(self).num_instance,
            final(self).advice_equality@ == old(self).advice_equality@.push(false),
            final(self).instance_equality@ == old(self).instance_equality@,
            final(self).gates@ == old(self).gates@,
    {
        let i: usize = self.num_advice;
        self.num_advice = self.num_advice + 1;
        self.advice_equality.push(false);
        i
    }

    /// Declares a fresh instance column and returns its index.
    pub fn instance_column(&mut self) -> (r: usize)
        requires
            old(self).wf(),
            old(self).num_instance < usize::MAX,
        ensures
            final(self).wf(),
            r == old(self).num_instance,
            final(self).num_instance == old(self).num_instance + 1,
            final(self).num_advice == old(self).num_advice,
            final(self).num_selectors == old(self).num_selectors,
            final(self).instance_equality@ == old(self).instance_equality@.push(false),
            final(self).advice_equality@ == old(self).advice_equality@,
            final(self).gates@ == old(self).gates@,
    {
        let i: usize = self.num_instance;
        self.num_instance = self.num_instance + 1;
        self.instance_equality.push(false);
        i
    }

    /// Declares a fresh selector and returns its index.
    pub fn selector(&mut self) -> (r: usize)
        requires
            old(self).wf(),
            old(self).num_selectors < usize::MAX,
        ensures
            final(self).wf(),
            r == old(self).num_selectors,
            final(self).num_selectors == old(self).num_selectors + 1,
            final(self).num_advice == old(self).num_advice,
            final(self).num_instance == old(self).num_instance,
            final(self).advice_equality@ == old(self).advice_equality@,
            final(self).instance_equality@ == old(self).instance_equality@,
            final(self).gates@ == old(self).gates@,
    {
        let i: usize = self.num_selectors;
        self.num_selectors = self.num_selectors + 1;
        i
    }

    /// Whether equality is already enabled on a declared column.
    pub open spec fn equality_enabled(self, col: Column) -> bool {
        match col.kind {
            ColumnKind::Advice => self.advice_equality@[col.index as int],
            ColumnKind::Instance => self.instance_equality@[col.index as int],
        }
    }

    /// Whether a column handle names a declared column.
    pub open spec fn column_declared(self, col: Column) -> bool {
        match col.kind {
            ColumnKind::Advice => col.index < self.num_advice,
            ColumnKind::Instance => col.index < self.num_instance,
        }
    }

    /// Enables copy constraints on a column. Enabling a column twice is a
    /// configuration error and leaves the system unchanged.
    pub fn enable_equality(&mut self, col: Column) -> (r: Result<(), CircuitError>)
        requires
            old(self).wf(),
            old(self).column_declared(col),
        ensures
            final(self).wf(),
            r is Ok <==> !old(self).equality_enabled(col),
            r is Err ==> *final(self) == *old(self)
                && r == Result::<(), CircuitError>::Err(CircuitError::DuplicateEquality),
            r is Ok ==> {
                &&& final(self).equality_enabled(col)
                &&& forall|c: Column| c != col && old(self).column_declared(c) ==> (
                    #[trigger] final(self).equality_enabled(c)
                        == old(self).equality_enabled(c))
                &&& final(self).num_advice == old(self).num_advice
                &&& final(self).num_selectors == old(self).num_selectors
                &&& final(self).num_instance == old(self).num_instance
                &&& final(self).gates@ == old(self).gates@
                &&& final(self).column_declared(col)
            },
    {
        match col.kind {
            ColumnKind::Advice => {
                if self.advice_equality[col.index] {
                    Err(CircuitError::DuplicateEquality)
                } else {
                    replace_at(&mut self.advice_equality, col.index, true);
                    Ok(())
                }
            },
            ColumnKind::Instance => {
                if self.instance_equality[col.index] {
                    Err(CircuitError::DuplicateEquality)
                } else {
                    replace_at(&mut self.instance_equality, col.index, true);
                    Ok(())
                }
            },
        }
    }

    /// Registers a gate.
    pub fn create_gate(&mut self, gate: Gate)
        requires
            old(self).wf(),
            old(self).gate_wf(gate),
        ensures
            final(self).wf(),
            final(self).gates@.len() == old(self).gates@.len() + 1,
            forall|i: int| 0 <= i < old(self).gates@.len() ==>
                #[trigger] final(self).gates@[i] == old(self).gates@[i],
            final(self).gates@[old(self).gates@.len() as int] == gate,
            final(self).num_advice == old(self).num_advice,
            final(self).num_selectors == old(self).num_selectors,
            final(self).num_instance == old(self).num_instance,
            final(self).advice_equality@ == old(self).advice_equality@,
            final(self).instance_equality@ == old(self).instance_equality@,
    {
        self.gates.push(gate);
    }
}

/// Replaces the element at an index of a vector.
pub fn replace_at<T>(v: &mut Vec<T>, i: usize, x: T)
    requires
        i < old(v)@.len(),
    ensures
        final(v)@ =~= old(v)@.update(i as int, x),
{
    v.remove(i);
    v.insert(i, x);
}

/// Enables equality on a column known not to have it enabled yet, so the
/// configuration error of a duplicate enablement cannot arise.
pub(crate) fn must_enable(meta: &mut ConstraintSystem, col: Column)
    requires
        old(meta).wf(),
        old(meta).column_declared(col),
        !old(meta).equality_enabled(col),
    ensures
        final(meta).wf(),
        final(meta).equality_enabled(col),
        forall|c: Column| c != col && old(meta).column_declared(c) ==> (
        #[trigger] final(meta).equality_enabled(c) == old(meta).equality_enabled(c)),
        final(meta).num_advice == old(meta).num_advice,
        final(meta).num_selectors == old(meta).num_selectors,
        final(meta).num_instance == old(meta).num_instance,
        final(meta).gates@ == old(meta).gates@,
{
    let r = meta.enable_equality(col);
    match r {
        Ok(u) => {},
        Err(e) => {},
    }
}

/// A named span of rows grouping the assignments of one structural unit.
pub struct Region {
    pub name: String,
    pub start: usize,
    pub rows: usize,
}

/// A copy constraint: the two cells must hold equal values.
#[derive(Clone, Copy, Debug, PartialEq, Eq, Structural)]
pub struct CopyConstraint {
    pub a: Cell,
    pub b: Cell,
}

/// A binding of an advice cell to a position of a public-input column.
#[derive(Clone, Copy, Debug, PartialEq, Eq, Structural)]
pub struct InstanceBinding {
    pub cell: Cell,
    pub instance_col: usize,
    pub row: usize,
}

/// The witness table of one circuit execution: every advice value, every
/// selector bit, the regions assignments were grouped in, and the declared
/// copy constraints and public-input bindings.
pub struct Assignment {
    pub num_rows: usize,
    pub advice: Vec<Vec<Felt>>,
    pub selectors: Vec<Vec<bool>>,
    pub regions: Vec<Region>,
    pub copies: Vec<CopyConstraint>,
    pub bindings: Vec<InstanceBinding>,
}

impl Assignment {
    /// A cell coordinate lies inside the table.
    pub open spec fn cell_in_bounds(self, c: Cell) -> bool {
        c.col < self.advice@.len() && c.row < self.num_rows
    }

    /// The value the table holds at a cell.
    pub open spec fn value_at(self, c: Cell) -> Felt {
        self.advice@[c.col as int]@[c.row as int]
    }

    /// The table matches the shape of a constraint system: one column of
    /// `num_rows` reduced values per advice column, one bit row per selector,
    /// and every copy constraint and binding in bounds and on
    /// equality-enabled columns.
    pub open spec fn wf(self, cs: ConstraintSystem) -> bool {
        &&& self.advice@.len() == cs.num_advice
        &&& forall|c: int| 0 <= c < self.advice@.len() ==>
            (#[trigger] self.advice@[c])@.len() == self.num_rows
        &&& forall|c: int, r: int|
            0 <= c < self.advice@.len() && 0 <= r < self.num_rows ==>
                (#[trigger] self.advice@[c]@[r]).valid()
        &&& self.selectors@.len() == cs.num_selectors
        &&& forall|s: int| 0 <= s < self.selectors@.len() ==>
            (#[trigger] self.selectors@[s])@.len() == self.num_rows
        &&& forall|i: int| 0 <= i < self.copies@.len() ==> {
            let cc = #[trigger] self.copies@[i];
            &&& self.cell_in_bounds(cc.a)
            &&& self.cell_in_bounds(cc.b)
            &&& cs.advice_equality@[cc.a.col as int]
            &&& cs.advice_equality@[cc.b.col as int]
        }
        &&& forall|i: int| 0 <= i < self.bindings@.len() ==> {
            let b = #[trigger] self.bindings@[i];
            &&& self.cell_in_bounds(b.cell)
            &&& b.instance_col < cs.num_instance
            &&& cs.advice_equality@[b.cell.col as int]
            &&& cs.instance_equality@[b.instance_col as int]
        }
    }

    /// An all-zero table for a constraint system: every advice cell zero,
    /// every selector off, no regions, copies or bindings yet.
    pub fn new(cs: &ConstraintSystem, num_rows: usize) -> (r: Assignment)
        requires
            cs.wf(),
        ensures
            r.wf(*cs),
            r.num_rows == num_rows,
            forall|c: int, row: int|
                0 <= c < r.advice@.len() && 0 <= row < num_rows ==>
                    (#[trigger] r.advice@[c]@[row]).as_int() == 0,
            forall|s: int, row: int|
                0 <= s < r.selectors@.len() && 0 <= row < num_rows ==>
                    (#[trigger] r.selectors@[s]@[row]) == false,
            r.regions@.len() == 0,
            r.copies@.len() == 0,
            r.bindings@.len() == 0,
    {
        let mut advice: Vec<Vec<Felt>> = Vec::new();
        let mut c: usize = 0;
        while c < cs.num_advice
            invariant
                c <= cs.num_advice,
                advice@.len() == c,
                forall|i: int| 0 <= i < c ==> (#[trigger] advice@[i])@.len() == num_rows,
                forall|i: int, row: int| 0 <= i < c && 0 <= row < num_rows ==> {
                    &&& (#[trigger] advice@[i]@[row]).valid()
                    &&& advice@[i]@[row].as_int() == 0
                },
            decreases cs.num_advice - c,
        {
            advice.push(zero_column(num_rows));
            c = c + 1;
        }
        let mut selectors: Vec<Vec<bool>> = Vec::new();
        let mut s: usize = 0;
        while s < cs.num_selectors
            invariant
                s <= cs.num_selectors,
                selectors@.len() == s,
                forall|i: int| 0 <= i < s ==> (#[trigger] selectors@[i])@.len() == num_rows,
                forall|i: int, row: int| 0 <= i < s && 0 <= row < num_rows ==>
                    (#[trigger] selectors@[i]@[row]) == false,
            decreases cs.num_selectors - s,
        {
            selectors.push(off_column(num_rows));
            s = s + 1;
        }
        Assignment {
            num_rows,
            advice,
            selectors,
            regions: Vec::new(),
            copies: Vec::new(),
            bindings: Vec::new(),
        }
    }
}

/// A column of `n` zero field elements.
fn zero_column(n: usize) -> (r: Vec<Felt>)
    ensures
        r@.len() == n,
        forall|i: int| 0 <= i < n ==> {
            &&& (#[trigger] r@[i]).valid()
            &&& r@[i].as_int() == 0
        },
{
    let mut col: Vec<Felt> = Vec::new();
    let mut i: usize = 0;
    while i < n
        invariant
            i <= n,
            col@.len() == i,
            forall|j: int| 0 <= j < i ==> {
                &&& (#[trigger] col@[j]).valid()
                &&& col@[j].as_int() == 0
            },
        decreases n - i,
    {
        col.push(Felt::zero());
        i = i + 1;
    }
    col
}

/// A column of `n` disabled selector bits.
fn off_column(n: usize) -> (r: Vec<bool>)
    ensures
        r@.len() == n,
        forall|i: int| 0 <= i < n ==> (#[trigger] r@[i]) == false,
{
    let mut col: Vec<bool> = Vec::new();
    let mut i: usize = 0;
    while i < n
        invariant
            i <= n,
            col@.len() == i,
            forall|j: int| 0 <= j < i ==> (#[trigger] col@[j]) == false,
        decreases n - i,
    {
        col.push(false);
        i = i + 1;
    }
    col
}

} // verus!
