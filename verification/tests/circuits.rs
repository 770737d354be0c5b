use arith_circuits::checker::run;
use arith_circuits::field::{Felt, FIELD_MODULUS};
use arith_circuits::fibonacci::{FiboCircuit, FibonacciChip};
use arith_circuits::model::{
    Assignment, Cell, CellValue, CircuitError, Column, ColumnKind, ConstraintSystem,
    CopyConstraint, GateCells, Violation,
};
use arith_circuits::range_check::RangeCircuit;

#[test]
fn fibonacci_example1() {
    let a = Felt::from_u64(1); // F[0]
    let b = Felt::from_u64(1); // F[1]
    let out = Felt::from_u64(55); // F[9]

    let circuit = FiboCircuit { nrows: 10, a0: a, b0: b };
    let (cs, _cfg, asg) = circuit.synthesize();

    let mut public_input = vec![a, b, out];

    let prover = run(&cs, &asg, &vec![public_input.clone()]);
    assert!(prover.is_ok());

    public_input[2] = public_input[2].add(Felt::one());
    let prover = run(&cs, &asg, &vec![public_input]);
    assert!(prover.is_err());
}

#[test]
fn test_range_check_1() {
    const RANGE: usize = 8;

    // Successful cases
    for i in 0..RANGE {
        let circuit = RangeCircuit::<RANGE> { assigned_value: Felt::from_u64(i as u64) };
        let (cs, _cfg, asg) = circuit.synthesize();

        let instances: Vec<Vec<Felt>> = Vec::new();
        let prover = run(&cs, &asg, &instances);
        assert!(prover.is_ok());
    }
}

#[test]
fn test_range_check_fail() {
    const RANGE: usize = 8;
    let testvalue: u64 = 22;

    // Out-of-range `value = 22`
    let circuit = RangeCircuit::<RANGE> { assigned_value: Felt::from_u64(testvalue) };
    let (cs, cfg, asg) = circuit.synthesize();

    let instances: Vec<Vec<Felt>> = Vec::new();
    let errs = run(&cs, &asg, &instances).unwrap_err();
    let expected = vec![Violation::ConstraintNotSatisfied {
        gate: 0,
        region: 0,
        offset: 0,
        cells: GateCells::Range {
            value: CellValue {
                cell: Cell { col: cfg.value, row: 0 },
                value: Felt::from_u64(0x16),
            },
        },
    }];
    assert_eq!(errs, expected);
    assert_eq!(cs.gates[0].name, "range_check_gate");
    assert_eq!(cs.gates[0].constraint_name, "range check constraint");
    assert_eq!(asg.regions[0].name, "range check region");
}

#[test]
fn fibonacci_classic_seeds() {
    // Seeds (0, 1) over 10 rows end at the tenth term, 34.
    let a = Felt::from_u64(0);
    let b = Felt::from_u64(1);
    let circuit = FiboCircuit { nrows: 10, a0: a, b0: b };
    let (cs, _cfg, asg) = circuit.synthesize();

    let good = vec![vec![a, b, Felt::from_u64(34)]];
    assert!(run(&cs, &asg, &good).is_ok());

    let bad = vec![vec![a, b, Felt::from_u64(55)]];
    assert!(run(&cs, &asg, &bad).is_err());
}

#[test]
fn fibonacci_two_rows_returns_seed() {
    // With two rows no addition feeds the exposed cell: it holds the seed b.
    let a = Felt::from_u64(3);
    let b = Felt::from_u64(9);
    let circuit = FiboCircuit { nrows: 2, a0: a, b0: b };
    let (cs, _cfg, asg) = circuit.synthesize();

    let good = vec![vec![a, b, Felt::from_u64(9)]];
    assert!(run(&cs, &asg, &good).is_ok());

    let bad = vec![vec![a, b, Felt::from_u64(12)]];
    assert!(run(&cs, &asg, &bad).is_err());
}

#[test]
fn run_is_deterministic() {
    let a = Felt::from_u64(1);
    let b = Felt::from_u64(1);
    let circuit = FiboCircuit { nrows: 10, a0: a, b0: b };
    let (cs, _cfg, asg) = circuit.synthesize();

    let good = vec![vec![a, b, Felt::from_u64(55)]];
    assert_eq!(run(&cs, &asg, &good), run(&cs, &asg, &good));

    let bad = vec![vec![a, b, Felt::from_u64(56)]];
    assert_eq!(run(&cs, &asg, &bad), run(&cs, &asg, &bad));
}

#[test]
fn duplicate_equality_is_an_error() {
    let mut meta = ConstraintSystem::new();
    let col = meta.advice_column();
    let handle = Column { kind: ColumnKind::Advice, index: col };
    assert_eq!(meta.enable_equality(handle), Ok(()));
    assert_eq!(meta.enable_equality(handle), Err(CircuitError::DuplicateEquality));
}

#[test]
fn conflicting_binding_is_an_error() {
    let a = Felt::from_u64(1);
    let b = Felt::from_u64(1);
    let mut meta = ConstraintSystem::new();
    let cfg = FibonacciChip::configure(&mut meta);
    let chip = FibonacciChip::construct(cfg);
    let mut asg = Assignment::new(&meta, 4);
    let out = chip.assign_row(&meta, &mut asg, a, b, 4);
    assert_eq!(chip.expose_public(&meta, &mut asg, out, 2), Ok(()));
    assert_eq!(
        chip.expose_public(&meta, &mut asg, out, 1),
        Err(CircuitError::ConflictingBinding)
    );
}

#[test]
fn copy_mismatch_is_reported() {
    let a = Felt::from_u64(0);
    let b = Felt::from_u64(1);
    let mut meta = ConstraintSystem::new();
    let cfg = FibonacciChip::configure(&mut meta);
    let chip = FibonacciChip::construct(cfg);
    let mut asg = Assignment::new(&meta, 3);
    chip.assign_row(&meta, &mut asg, a, b, 3);
    // Constrain two cells that hold 0 and 1.
    asg.copies.push(CopyConstraint {
        a: Cell { col: cfg.col_a, row: 0 },
        b: Cell { col: cfg.col_b, row: 0 },
    });

    let instances: Vec<Vec<Felt>> = Vec::new();
    let errs = run(&meta, &asg, &instances).unwrap_err();
    let expected = vec![Violation::CopyMismatch {
        a: CellValue { cell: Cell { col: cfg.col_a, row: 0 }, value: a },
        b: CellValue { cell: Cell { col: cfg.col_b, row: 0 }, value: b },
    }];
    assert_eq!(errs, expected);
}

#[test]
fn missing_public_input_is_reported() {
    let a = Felt::from_u64(1);
    let b = Felt::from_u64(2);
    let circuit = FiboCircuit { nrows: 5, a0: a, b0: b };
    let (cs, cfg, asg) = circuit.synthesize();

    // The instance column has no row 2 to match the binding against.
    let instances = vec![Vec::new()];
    let errs = run(&cs, &asg, &instances).unwrap_err();
    assert_eq!(errs.len(), 1);
    match errs[0] {
        Violation::InstanceMismatch { cell, instance_col, row } => {
            assert_eq!(cell.cell, Cell { col: cfg.col_b, row: 3 });
            // Seeds (1, 2) give 1, 2, 3, 5, 8: the exposed cell holds 8.
            assert_eq!(cell.value, Felt::from_u64(8));
            assert_eq!(instance_col, cfg.instance);
            assert_eq!(row, 2);
        },
        _ => panic!("expected an instance mismatch"),
    }
}

#[test]
fn field_arithmetic_is_modular() {
    assert_eq!(Felt::from_u64(FIELD_MODULUS), Felt::zero());
    assert_eq!(Felt::from_u64(FIELD_MODULUS - 1).add(Felt::one()), Felt::zero());
    assert_eq!(Felt::zero().sub(Felt::one()), Felt::from_u64(FIELD_MODULUS - 1));
    assert_eq!(Felt::from_u64(2).mul(Felt::from_u64(3)), Felt::from_u64(6));
    assert_eq!(
        Felt::from_u64(FIELD_MODULUS - 1).mul(Felt::from_u64(FIELD_MODULUS - 1)),
        Felt::one()
    );
}

#[test]
fn range_check_boundaries() {
    const RANGE: usize = 8;
    let top = RangeCircuit::<RANGE> { assigned_value: Felt::from_u64(7) };
    let (cs, _cfg, asg) = top.synthesize();
    let instances: Vec<Vec<Felt>> = Vec::new();
    assert!(run(&cs, &asg, &instances).is_ok());

    let over = RangeCircuit::<RANGE> { assigned_value: Felt::from_u64(8) };
    let (cs, _cfg, asg) = over.synthesize();
    assert!(run(&cs, &asg, &instances).is_err());
}

#[test]
fn range_check_single_value_range() {
    const RANGE: usize = 1;
    let zero = RangeCircuit::<RANGE> { assigned_value: Felt::from_u64(0) };
    let (cs, _cfg, asg) = zero.synthesize();
    let instances: Vec<Vec<Felt>> = Vec::new();
    assert!(run(&cs, &asg, &instances).is_ok());

    let one = RangeCircuit::<RANGE> { assigned_value: Felt::from_u64(1) };
    let (cs, _cfg, asg) = one.synthesize();
    assert!(run(&cs, &asg, &instances).is_err());
}
