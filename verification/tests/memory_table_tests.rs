use memory_air::challenges::{Challenges, Initials, Terminals};
use memory_air::field::{Bfe, P};
use memory_air::memory_table::{
    MemoryTable, MemoryTableError, BASE_WIDTH, CYCLE, FULL_WIDTH, INTERWEAVED, MEMORY_POINTER,
    MEMORY_VALUE, PERMUTATION,
};
use memory_air::register::Register;
use memory_air::xfield::Xfe;

fn bfe(v: u64) -> Bfe {
    Bfe::new(v)
}

fn xfe(c0: u64, c1: u64, c2: u64) -> Xfe {
    Xfe::new(bfe(c0), bfe(c1), bfe(c2))
}

fn reg(cycle: u64, pointer: u64, value: u64, instruction: u64) -> Register {
    Register::new(bfe(cycle), bfe(pointer), bfe(value), bfe(instruction))
}

/// A short program: writes 7 to address 1 at cycle 2 and rereads it
/// unchanged at cycle 5, with visits to address 0 in between. The final row
/// is discarded by derivation.
fn sample_trace() -> Vec<Register> {
    vec![
        reg(0, 0, 0, 1),
        reg(1, 1, 0, 1),
        reg(2, 1, 7, 1),
        reg(3, 0, 0, 1),
        reg(4, 0, 0, 1),
        reg(5, 1, 7, 1),
        reg(6, 0, 0, 1),
    ]
}

fn row_values(row: &Vec<Bfe>) -> (u64, u64, u64, u64) {
    (
        row[CYCLE].value(),
        row[MEMORY_POINTER].value(),
        row[MEMORY_VALUE].value(),
        row[INTERWEAVED].value(),
    )
}

fn sample_challenges() -> Challenges {
    Challenges::new([
        xfe(101, 0, 0),
        xfe(102, 0, 0),
        xfe(103, 0, 0),
        xfe(2, 1, 0),
        xfe(3, 0, 4),
        xfe(5, 6, 0),
        xfe(104, 0, 0),
        xfe(11, 1, 1),
        xfe(105, 0, 0),
        xfe(106, 0, 0),
        xfe(107, 0, 0),
    ])
}

fn sample_initials() -> Initials {
    Initials::new([xfe(17, 0, 0), xfe(13, 2, 9)])
}

/// The factor a genuine row contributes: beta - d*cycle - e*address - f*value.
fn factor_of(ch: &Challenges, row: &Vec<Bfe>) -> Xfe {
    ch.beta
        .sub(ch.d.mul(Xfe::lift(row[CYCLE])))
        .sub(ch.e.mul(Xfe::lift(row[MEMORY_POINTER])))
        .sub(ch.f.mul(Xfe::lift(row[MEMORY_VALUE])))
}

#[test]
fn derivation_sorts_interweaves_and_flags() {
    let matrix = MemoryTable::derive_matrix(&sample_trace()).unwrap();
    let expected: Vec<(u64, u64, u64, u64)> = vec![
        (0, 0, 0, 0),
        (1, 0, 0, 1),
        (2, 0, 0, 1),
        (3, 0, 0, 0),
        (4, 0, 0, 0),
        (1, 1, 0, 0),
        (2, 1, 7, 0),
        (3, 1, 7, 1),
        (4, 1, 7, 1),
        (5, 1, 7, 0),
    ];
    assert_eq!(matrix.len(), expected.len());
    for (row, want) in matrix.iter().zip(expected.iter()) {
        assert_eq!(row.len(), BASE_WIDTH);
        assert_eq!(row_values(row), *want);
    }
}

#[test]
fn derivation_inserts_one_synthetic_row_per_missing_cycle() {
    // The write of 7 to address 1 at cycle 2 is reread at cycle 5: exactly
    // the missing cycles 3 and 4 appear as interweaved rows carrying 7.
    let matrix = MemoryTable::derive_matrix(&sample_trace()).unwrap();
    let synthetic: Vec<(u64, u64, u64, u64)> = matrix
        .iter()
        .map(row_values)
        .filter(|r| r.1 == 1 && r.3 == 1)
        .collect();
    assert_eq!(synthetic, vec![(3, 1, 7, 1), (4, 1, 7, 1)]);
}

#[test]
fn derivation_never_empty_for_a_trace_with_a_step() {
    let matrix = MemoryTable::derive_matrix(&vec![reg(0, 0, 0, 1), reg(1, 0, 0, 1)]).unwrap();
    assert!(!matrix.is_empty());
}

#[test]
fn derivation_of_trivial_traces_is_empty() {
    assert_eq!(MemoryTable::derive_matrix(&vec![]).unwrap().len(), 0);
    assert_eq!(MemoryTable::derive_matrix(&vec![reg(0, 0, 0, 0)]).unwrap().len(), 0);
}

#[test]
fn derivation_refuses_padded_traces() {
    let trace = vec![reg(0, 0, 0, 1), reg(1, 0, 0, 0), reg(2, 0, 0, 1), reg(3, 0, 0, 1)];
    let err = MemoryTable::derive_matrix(&trace).unwrap_err();
    assert_eq!(err, MemoryTableError::MalformedTrace { row: 1 });
}

#[test]
fn adjacent_rows_at_one_address_have_consecutive_cycles() {
    let matrix = MemoryTable::derive_matrix(&sample_trace()).unwrap();
    for pair in matrix.windows(2) {
        let (c0, a0, _, _) = row_values(&pair[0]);
        let (c1, a1, _, _) = row_values(&pair[1]);
        if a0 == a1 {
            assert_eq!(c1, c0 + 1);
        }
    }
}

#[test]
fn first_row_at_a_fresh_address_has_value_zero() {
    let matrix = MemoryTable::derive_matrix(&sample_trace()).unwrap();
    for pair in matrix.windows(2) {
        let (_, a0, _, _) = row_values(&pair[0]);
        let (_, a1, v1, _) = row_values(&pair[1]);
        if a1 != a0 {
            assert_eq!(v1, 0);
        }
    }
}

#[test]
fn base_transition_constraints_vanish_on_the_derived_matrix() {
    let matrix = MemoryTable::derive_matrix(&sample_trace()).unwrap();
    let table = MemoryTable::new(matrix.len(), 2, bfe(3), 8);
    for pair in matrix.windows(2) {
        let mut point: Vec<Bfe> = pair[0].clone();
        point.extend(pair[1].iter().cloned());
        for evaluation in table.base_transition_constraints(&point) {
            assert!(evaluation.is_zero());
        }
    }
}

#[test]
fn base_transition_constraints_catch_violations() {
    let table = MemoryTable::new(4, 2, bfe(3), 8);
    // Address jumps by two: the first constraint must not vanish.
    let row = vec![bfe(0), bfe(0), bfe(0), bfe(0)];
    let next = vec![bfe(1), bfe(2), bfe(0), bfe(0)];
    let mut point = row.clone();
    point.extend(next.iter().cloned());
    let evaluations = table.base_transition_constraints(&point);
    assert_eq!(evaluations[0].value(), 2);
    // Address advances onto a nonzero value: the sixth must not vanish.
    let next = vec![bfe(1), bfe(1), bfe(9), bfe(0)];
    let mut point = row.clone();
    point.extend(next.iter().cloned());
    let evaluations = table.base_transition_constraints(&point);
    assert_eq!(evaluations[5].value(), 9);
}

#[test]
fn named_variable_constraints_match_their_formulas() {
    let r = MemoryTable::transition_constraints_afo_named_variables(
        bfe(4),
        bfe(2),
        bfe(5),
        bfe(1),
        bfe(5),
        bfe(2),
        bfe(6),
        bfe(1),
    );
    assert_eq!(r.len(), 6);
    // interweaved row with unchanged address: third vanishes, fourth is
    // value - value_next = 5 - 6 = -1.
    assert_eq!(r[2].value(), 0);
    assert_eq!(r[3].value(), P - 1);
    // flag of the next row is boolean: fifth vanishes.
    assert_eq!(r[4].value(), 0);
}

#[test]
fn base_boundary_constraints_vanish_on_the_derived_first_row() {
    let matrix = MemoryTable::derive_matrix(&sample_trace()).unwrap();
    let table = MemoryTable::new(matrix.len(), 2, bfe(3), 8);
    let evaluations = table.base_boundary_constraints(&matrix[0]).unwrap();
    assert_eq!(evaluations.len(), 3);
    for evaluation in evaluations {
        assert!(evaluation.is_zero());
    }
}

#[test]
fn base_boundary_constraints_catch_a_nonzero_first_row() {
    let table = MemoryTable::new(4, 2, bfe(3), 8);
    let row = vec![bfe(5), bfe(3), bfe(7), bfe(0)];
    let evaluations = table.base_boundary_constraints(&row).unwrap();
    assert_eq!(evaluations[0].value(), 5);
    assert_eq!(evaluations[1].value(), 3);
    assert_eq!(evaluations[2].value(), 7);
}

#[test]
fn geometry_is_derived_from_the_length() {
    let table = MemoryTable::new(3, 2, bfe(3), 8);
    assert_eq!(table.base_width(), BASE_WIDTH);
    assert_eq!(table.full_width(), FULL_WIDTH);
    assert_eq!(table.length(), 3);
    assert_eq!(table.num_randomizers(), 2);
    assert_eq!(table.height(), 4);
    assert_eq!(table.order(), 8);
    assert_eq!(table.generator().value(), 3);
    // omicron = generator^(order / height) = 3^2.
    assert_eq!(table.omicron().value(), 9);
    assert_eq!(table.name(), "Memory table");

    let table = MemoryTable::new(1, 0, bfe(3), 8);
    assert_eq!(table.height(), 1);
    assert_eq!(table.omicron().value(), 6561);

    let table = MemoryTable::new(0, 0, bfe(3), 8);
    assert_eq!(table.height(), 0);
    assert_eq!(table.omicron().value(), 1);
}

#[test]
fn padding_reaches_a_power_of_two_with_flagged_filler() {
    let matrix = MemoryTable::derive_matrix(&sample_trace()).unwrap();
    let before = matrix.len();
    assert_eq!(before, 10);
    let mut table = MemoryTable::new(before, 2, bfe(3), 32);
    table.0.matrix = matrix;
    table.pad();
    let after = table.0.matrix.len();
    assert_eq!(after, 16);
    assert!(after.is_power_of_two());
    assert!(after >= before);
    let (last_cycle, last_address, last_value, _) = row_values(&table.0.matrix[before - 1]);
    for (k, row) in table.0.matrix[before..].iter().enumerate() {
        let (c, a, v, w) = row_values(row);
        assert_eq!(w, 1);
        assert_eq!(a, last_address);
        assert_eq!(v, last_value);
        assert_eq!(c, last_cycle + 1 + k as u64);
    }
}

#[test]
fn interweave_flag_is_boolean_in_the_padded_extended_matrix() {
    let matrix = MemoryTable::derive_matrix(&sample_trace()).unwrap();
    let mut table = MemoryTable::new(matrix.len(), 2, bfe(3), 32);
    table.0.matrix = matrix;
    table.pad();
    table.extend(&sample_challenges(), &sample_initials());
    for row in table.0.matrix.iter() {
        let w = row[INTERWEAVED].value();
        assert!(w == 0 || w == 1);
    }
    for row in table.0.extended_matrix.iter() {
        let w = row[INTERWEAVED];
        assert!(w == Xfe::lift(bfe(0)) || w == Xfe::lift(bfe(1)));
    }
}

#[test]
fn extension_lifts_rows_and_runs_the_permutation_product() {
    let matrix = MemoryTable::derive_matrix(&sample_trace()).unwrap();
    let challenges = sample_challenges();
    let initials = sample_initials();
    let mut table = MemoryTable::new(matrix.len(), 2, bfe(3), 32);
    table.0.matrix = matrix.clone();
    table.pad();
    table.extend(&challenges, &initials);

    assert_eq!(table.0.extended_matrix.len(), table.0.matrix.len());
    let mut running = initials.processor_memory_permutation;
    for (base_row, ext_row) in table.0.matrix.iter().zip(table.0.extended_matrix.iter()) {
        assert_eq!(ext_row.len(), FULL_WIDTH);
        for col in 0..BASE_WIDTH {
            assert_eq!(ext_row[col], Xfe::lift(base_row[col]));
        }
        assert_eq!(ext_row[PERMUTATION], running);
        if base_row[INTERWEAVED].is_zero() {
            running = running.mul(factor_of(&challenges, base_row));
        }
    }
    assert_eq!(table.0.more.permutation_terminal, running);
}

#[test]
fn extension_transition_constraints_vanish_on_the_extended_matrix() {
    let matrix = MemoryTable::derive_matrix(&sample_trace()).unwrap();
    let challenges = sample_challenges();
    let mut table = MemoryTable::new(matrix.len(), 2, bfe(3), 32);
    table.0.matrix = matrix;
    table.pad();
    table.extend(&challenges, &sample_initials());

    for pair in table.0.extended_matrix.windows(2) {
        let mut point: Vec<Xfe> = pair[0].clone();
        point.extend(pair[1].iter().cloned());
        let evaluations = table.transition_constraints_ext(&challenges, &point);
        assert_eq!(evaluations.len(), 7);
        for evaluation in evaluations {
            assert!(evaluation.is_zero());
        }
    }
}

#[test]
fn boundary_constraints_vanish_on_the_first_extended_row() {
    let matrix = MemoryTable::derive_matrix(&sample_trace()).unwrap();
    let challenges = sample_challenges();
    let mut table = MemoryTable::new(matrix.len(), 2, bfe(3), 32);
    table.0.matrix = matrix;
    table.pad();
    table.extend(&challenges, &sample_initials());
    let evaluations = table.boundary_constraints_ext(&challenges, &table.0.extended_matrix[0]);
    assert_eq!(evaluations.len(), 3);
    for evaluation in evaluations {
        assert!(evaluation.is_zero());
    }
}

#[test]
fn terminal_constraint_vanishes_against_the_computed_terminal() {
    let matrix = MemoryTable::derive_matrix(&sample_trace()).unwrap();
    let challenges = sample_challenges();
    let mut table = MemoryTable::new(matrix.len(), 2, bfe(3), 32);
    table.0.matrix = matrix;
    table.pad();
    table.extend(&challenges, &sample_initials());
    let terminals = Terminals::new([xfe(1, 0, 0), table.0.more.permutation_terminal]);
    let last = table.0.extended_matrix.last().unwrap();
    let evaluations = table.terminal_constraints_ext(&challenges, &terminals, last);
    assert_eq!(evaluations.len(), 1);
    assert!(evaluations[0].is_zero());
}

#[test]
fn terminal_constraint_rejects_a_wrong_terminal() {
    let matrix = MemoryTable::derive_matrix(&sample_trace()).unwrap();
    let challenges = sample_challenges();
    let mut table = MemoryTable::new(matrix.len(), 2, bfe(3), 32);
    table.0.matrix = matrix;
    table.pad();
    table.extend(&challenges, &sample_initials());
    let wrong = table.0.more.permutation_terminal.add(Xfe::one());
    let terminals = Terminals::new([xfe(1, 0, 0), wrong]);
    let last = table.0.extended_matrix.last().unwrap();
    let evaluations = table.terminal_constraints_ext(&challenges, &terminals, last);
    assert!(!evaluations[0].is_zero());
}

#[test]
fn derivation_sorts_descending_addresses() {
    let trace = vec![reg(0, 2, 0, 1), reg(1, 1, 0, 1), reg(2, 0, 0, 1), reg(3, 0, 0, 1)];
    let matrix = MemoryTable::derive_matrix(&trace).unwrap();
    let got: Vec<(u64, u64, u64, u64)> = matrix.iter().map(row_values).collect();
    assert_eq!(got, vec![(2, 0, 0, 0), (1, 1, 0, 0), (0, 2, 0, 0)]);
}

#[test]
fn padding_leaves_a_power_of_two_matrix_alone() {
    let mut table = MemoryTable::new(4, 2, bfe(3), 32);
    table.0.matrix = vec![
        vec![bfe(0), bfe(0), bfe(0), bfe(0)],
        vec![bfe(1), bfe(0), bfe(0), bfe(0)],
        vec![bfe(2), bfe(0), bfe(0), bfe(0)],
        vec![bfe(3), bfe(0), bfe(0), bfe(0)],
    ];
    table.pad();
    assert_eq!(table.0.matrix.len(), 4);
}

#[test]
fn extension_lifts_the_stored_codewords() {
    let mut table = MemoryTable::new(1, 2, bfe(3), 32);
    table.0.matrix = vec![vec![bfe(0), bfe(0), bfe(0), bfe(0)]];
    table.0.codewords = vec![vec![bfe(1), bfe(2)], vec![bfe(3), bfe(4)]];
    table.extend(&sample_challenges(), &sample_initials());
    assert_eq!(table.0.extended_codewords.len(), 2);
    assert_eq!(
        table.0.extended_codewords[0],
        vec![Xfe::lift(bfe(1)), Xfe::lift(bfe(2))]
    );
    assert_eq!(
        table.0.extended_codewords[1],
        vec![Xfe::lift(bfe(3)), Xfe::lift(bfe(4))]
    );
}

#[test]
fn challenge_tuple_positions_are_named_once() {
    let raw = [
        xfe(1, 0, 0),
        xfe(2, 0, 0),
        xfe(3, 0, 0),
        xfe(4, 0, 0),
        xfe(5, 0, 0),
        xfe(6, 0, 0),
        xfe(7, 0, 0),
        xfe(8, 0, 0),
        xfe(9, 0, 0),
        xfe(10, 0, 0),
        xfe(11, 0, 0),
    ];
    let ch = Challenges::new(raw);
    assert_eq!(ch.d, raw[3]);
    assert_eq!(ch.e, raw[4]);
    assert_eq!(ch.f, raw[5]);
    assert_eq!(ch.beta, raw[7]);
    let initials = Initials::new([xfe(21, 0, 0), xfe(22, 0, 0)]);
    assert_eq!(initials.processor_memory_permutation, xfe(22, 0, 0));
    let terminals = Terminals::new([xfe(31, 0, 0), xfe(32, 0, 0)]);
    assert_eq!(terminals.processor_memory_permutation, xfe(32, 0, 0));
}
