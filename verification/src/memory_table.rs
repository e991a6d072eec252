//! The memory-consistency trace table: derivation of the canonical base
//! matrix from the processor trace (sorting, gap-free interweaving), padding
//! to a power-of-two height, the six base-field transition constraints, and
//! the extension step with its running permutation-product column and the
//! lifted transition / boundary / terminal constraints.

use vstd::prelude::*;
use vstd::multiset::Multiset;
use crate::challenges::{Challenges, Initials, Terminals};
use crate::field::{Bfe, fadd, fmul, fsub, fvalid};
use crate::register::Register;
use crate::table::{is_pow2, next_pow2, Table, TableMoreTrait};
use crate::xfield::{lift_v, xadd_v, xmul_v, xone_v, xsub_v, Xfe};

verus! {

/// Column index of the clock cycle.
pub const CYCLE: usize = 0;

/// Column index of the memory pointer (the address).
pub const MEMORY_POINTER: usize = 1;

/// Column index of the memory value.
pub const MEMORY_VALUE: usize = 2;

/// Column index of the interweave flag.
pub const INTERWEAVED: usize = 3;

/// Column index of the running permutation product, present after extension.
pub const PERMUTATION: usize = 4;

/// Number of base columns.
pub const BASE_WIDTH: usize = 4;

/// Number of columns after extension.
pub const FULL_WIDTH: usize = 5;

/// The two precondition violations the memory table can report.
#[derive(Clone, Copy, Debug, PartialEq, Eq, Structural)]
pub enum MemoryTableError {
    /// A row of the supplied processor trace, other than the discarded final
    /// row, carries a zero instruction: the trace was already padded.
    MalformedTrace { row: usize },
    /// A constraint family that has not been written yet was requested.
    /// Part of the error model every table shares; the memory table has all
    /// of its families written and never produces it.
    UnimplementedConstraints,
}

/// The memory table's auxiliary state: the final running-product value of
/// its permutation argument.
pub struct MemoryTableMore {
    /// The running permutation product after the last row, filled by the
    /// extension step.
    pub permutation_terminal: Xfe,
}

impl TableMoreTrait for MemoryTableMore {
    open spec fn is_initial(self) -> bool {
        self.permutation_terminal.vals() == (0int, 0int, 0int)
    }

    fn new_more() -> (r: Self) {
        MemoryTableMore { permutation_terminal: Xfe::zero() }
    }
}

/// The memory-consistency trace table.
pub struct MemoryTable(pub Table<MemoryTableMore>);

// ---------------------------------------------------------------------------
// Row views
// ---------------------------------------------------------------------------
/// Whether a base row has the memory table's width.
pub open spec fn row_ok(r: Seq<Bfe>) -> bool {
    r.len() == BASE_WIDTH
}

/// The cycle residue of a base row.
pub open spec fn cycle_of(r: Seq<Bfe>) -> int {
    r[CYCLE as int].val()
}

/// The address residue of a base row.
pub open spec fn address_of(r: Seq<Bfe>) -> int {
    r[MEMORY_POINTER as int].val()
}

/// The value residue of a base row.
pub open spec fn value_of(r: Seq<Bfe>) -> int {
    r[MEMORY_VALUE as int].val()
}

/// The interweave-flag residue of a base row.
pub open spec fn flag_of(r: Seq<Bfe>) -> int {
    r[INTERWEAVED as int].val()
}

/// The residue quadruple a base row stands for.
pub open spec fn row_vals(r: Seq<Bfe>) -> (int, int, int, int) {
    (cycle_of(r), address_of(r), value_of(r), flag_of(r))
}

/// The residue quadruple a projected processor row stands for: its cycle,
/// address and value, with a cleared interweave flag.
pub open spec fn register_vals(reg: Register) -> (int, int, int, int) {
    (reg.cycle.val(), reg.memory_pointer.val(), reg.memory_value.val(), 0int)
}

/// Every row has the base width and a boolean interweave flag.
pub open spec fn rows_wf(m: Seq<Vec<Bfe>>) -> bool {
    forall|i: int|
        0 <= i < m.len() ==> row_ok(#[trigger] m[i]@) && (flag_of(m[i]@) == 0 || flag_of(m[i]@)
            == 1)
}

/// Rows are sorted by address, ascending.
pub open spec fn sorted_by_address(m: Seq<Vec<Bfe>>) -> bool {
    forall|i: int| 0 < i < m.len() ==> address_of(m[i - 1]@) <= address_of(#[trigger] m[i]@)
}

/// Adjacent rows sharing an address carry consecutive cycles.
pub open spec fn gap_free(m: Seq<Vec<Bfe>>) -> bool {
    forall|i: int|
        0 < i < m.len() && address_of(m[i - 1]@) == address_of(#[trigger] m[i]@) ==> cycle_of(
            m[i]@,
        ) == fadd(cycle_of(m[i - 1]@), 1)
}

/// Every flagged row repeats its predecessor's address and value one cycle
/// later: exactly the synthetic rows the interweaving pass inserts.
pub open spec fn synthetic_rows_interpolate(m: Seq<Vec<Bfe>>) -> bool {
    forall|i: int|
        0 <= i < m.len() && flag_of(#[trigger] m[i]@) == 1 ==> 0 < i && address_of(m[i]@)
            == address_of(m[i - 1]@) && value_of(m[i]@) == value_of(m[i - 1]@) && cycle_of(m[i]@)
            == fadd(cycle_of(m[i - 1]@), 1)
}

/// Synthetic rows stand only strictly inside a same-address run: every
/// interweaved row is followed by a row at the same address, and the last
/// row, where there is one, is genuine.
pub open spec fn synthetic_rows_interior(m: Seq<Vec<Bfe>>) -> bool {
    &&& (m.len() > 0 ==> flag_of(m[m.len() - 1]@) == 0)
    &&& forall|i: int|
        0 <= i < m.len() - 1 && flag_of(#[trigger] m[i]@) == 1 ==> address_of(m[i + 1]@)
            == address_of(m[i]@)
}

/// The residue quadruples of a matrix, row by row.
pub open spec fn row_vals_fn() -> spec_fn(Vec<Bfe>) -> (int, int, int, int) {
    |r: Vec<Bfe>| row_vals(r@)
}

/// The residue quadruples of a matrix, row by row.
pub open spec fn matrix_vals(m: Seq<Vec<Bfe>>) -> Seq<(int, int, int, int)> {
    m.map_values(row_vals_fn())
}

/// Keeps the quadruples whose interweave flag is clear.
pub open spec fn genuine_pred() -> spec_fn((int, int, int, int)) -> bool {
    |t: (int, int, int, int)| t.3 == 0
}

/// The residue quadruples of a matrix's genuine (unflagged) rows, in order.
pub open spec fn genuine_vals(m: Seq<Vec<Bfe>>) -> Seq<(int, int, int, int)> {
    matrix_vals(m).filter(genuine_pred())
}

/// The residue quadruples of the projected processor trace, in order.
pub open spec fn trace_vals(t: Seq<Register>) -> Seq<(int, int, int, int)> {
    t.map_values(|reg: Register| register_vals(reg))
}

/// The rows of the processor trace the derivation keeps: all but the final
/// one.
pub open spec fn kept_trace(t: Seq<Register>) -> Seq<Register> {
    if t.len() == 0 {
        t
    } else {
        t.take(t.len() - 1)
    }
}

// ---------------------------------------------------------------------------
// Base transition constraints, evaluated at a pair of adjacent rows
// ---------------------------------------------------------------------------
/// Row `i` continues row `i - 1` as padding does: same address and value,
/// next cycle, flagged as interweaved.
pub open spec fn padding_row_at(m: Seq<Vec<Bfe>>, i: int) -> bool {
    &&& row_ok(m[i]@)
    &&& flag_of(m[i]@) == 1
    &&& address_of(m[i]@) == address_of(m[i - 1]@)
    &&& value_of(m[i]@) == value_of(m[i - 1]@)
    &&& cycle_of(m[i]@) == fadd(cycle_of(m[i - 1]@), 1)
}

/// 1. The address stays or advances by exactly one:
/// `(addr' - addr - 1) * (addr' - addr)`.
pub open spec fn trans_address_delta(a: int, an: int) -> int {
    fmul(fsub(fsub(an, a), 1), fsub(an, a))
}

/// 2. If the address does not advance, the cycle advances by exactly one:
/// `(addr' - addr - 1) * (cycle' - cycle - 1)`.
pub open spec fn trans_cycle_step(c: int, a: int, cn: int, an: int) -> int {
    fmul(fsub(fsub(an, a), 1), fsub(fsub(cn, c), 1))
}

/// 3. On an interweaved row the address may not change:
/// `interweaved * (addr' - addr)`.
pub open spec fn trans_interweave_address(a: int, w: int, an: int) -> int {
    fmul(w, fsub(an, a))
}

/// 4. On an interweaved row the value may not change:
/// `interweaved * (value - value')`.
pub open spec fn trans_interweave_value(v: int, w: int, vn: int) -> int {
    fmul(w, fsub(v, vn))
}

/// 5. The next row's interweave flag is boolean:
/// `interweaved' * (interweaved' - 1)`.
pub open spec fn trans_flag_boolean(wn: int) -> int {
    fmul(wn, fsub(wn, 1))
}

/// 6. If the address advances, the next value is zero (fresh memory starts
/// at zero): `(addr' - addr) * value'`.
pub open spec fn trans_fresh_zero(a: int, an: int, vn: int) -> int {
    fmul(fsub(an, a), vn)
}

// ---------------------------------------------------------------------------
// Extension: lifted constraints and the running permutation product
// ---------------------------------------------------------------------------
/// The challenge-weighted factor a genuine row contributes to the running
/// permutation product: `beta - d*cycle - e*address - f*value`, over
/// coefficient triples.
pub open spec fn perm_factor(
    ch: Challenges,
    c: (int, int, int),
    a: (int, int, int),
    v: (int, int, int),
) -> (int, int, int) {
    xsub_v(
        xsub_v(xsub_v(ch.beta.vals(), xmul_v(ch.d.vals(), c)), xmul_v(ch.e.vals(), a)),
        xmul_v(ch.f.vals(), v),
    )
}

/// The running permutation product before row `i`: seeded with `init`,
/// multiplied by the weighted factor of every earlier genuine row, held
/// fixed over interweaved rows.
pub open spec fn running_product(
    m: Seq<Vec<Bfe>>,
    ch: Challenges,
    init: (int, int, int),
    i: int,
) -> (int, int, int)
    decreases i,
{
    if i <= 0 {
        init
    } else {
        let prev = running_product(m, ch, init, i - 1);
        if flag_of(m[i - 1]@) == 0 {
            xmul_v(
                prev,
                perm_factor(
                    ch,
                    lift_v(cycle_of(m[i - 1]@)),
                    lift_v(address_of(m[i - 1]@)),
                    lift_v(value_of(m[i - 1]@)),
                ),
            )
        } else {
            prev
        }
    }
}

/// The extended row at `i` is the lift of the base row plus the running
/// permutation product before that row.
pub open spec fn extended_row_matches(
    er: Seq<Xfe>,
    m: Seq<Vec<Bfe>>,
    ch: Challenges,
    init: (int, int, int),
    i: int,
) -> bool {
    &&& er.len() == FULL_WIDTH
    &&& er[CYCLE as int].vals() == lift_v(cycle_of(m[i]@))
    &&& er[MEMORY_POINTER as int].vals() == lift_v(address_of(m[i]@))
    &&& er[MEMORY_VALUE as int].vals() == lift_v(value_of(m[i]@))
    &&& er[INTERWEAVED as int].vals() == lift_v(flag_of(m[i]@))
    &&& er[PERMUTATION as int].vals() == running_product(m, ch, init, i)
}

/// The lifted first transition constraint, over coefficient triples.
pub open spec fn ext_trans_address_delta(a: (int, int, int), an: (int, int, int)) -> (
    int,
    int,
    int,
) {
    xmul_v(xsub_v(xsub_v(an, a), xone_v()), xsub_v(an, a))
}

/// The lifted second transition constraint, over coefficient triples.
pub open spec fn ext_trans_cycle_step(
    c: (int, int, int),
    a: (int, int, int),
    cn: (int, int, int),
    an: (int, int, int),
) -> (int, int, int) {
    xmul_v(xsub_v(xsub_v(an, a), xone_v()), xsub_v(xsub_v(cn, c), xone_v()))
}

/// The lifted third transition constraint, over coefficient triples.
pub open spec fn ext_trans_interweave_address(
    a: (int, int, int),
    w: (int, int, int),
    an: (int, int, int),
) -> (int, int, int) {
    xmul_v(w, xsub_v(an, a))
}

/// The lifted fourth transition constraint, over coefficient triples.
pub open spec fn ext_trans_interweave_value(
    v: (int, int, int),
    w: (int, int, int),
    vn: (int, int, int),
) -> (int, int, int) {
    xmul_v(w, xsub_v(v, vn))
}

/// The lifted fifth transition constraint, over coefficient triples.
pub open spec fn ext_trans_flag_boolean(wn: (int, int, int)) -> (int, int, int) {
    xmul_v(wn, xsub_v(wn, xone_v()))
}

/// The lifted sixth transition constraint, over coefficient triples.
pub open spec fn ext_trans_fresh_zero(
    a: (int, int, int),
    an: (int, int, int),
    vn: (int, int, int),
) -> (int, int, int) {
    xmul_v(xsub_v(an, a), vn)
}

/// The running-product transition constraint:
/// `perm * ((beta - d*cycle - e*address - f*value)*(1 - interweaved)
///  + interweaved) - perm'`.
pub open spec fn ext_trans_permutation(
    ch: Challenges,
    c: (int, int, int),
    a: (int, int, int),
    v: (int, int, int),
    w: (int, int, int),
    perm: (int, int, int),
    permn: (int, int, int),
) -> (int, int, int) {
    xsub_v(
        xmul_v(perm, xadd_v(xmul_v(perm_factor(ch, c, a, v), xsub_v(xone_v(), w)), w)),
        permn,
    )
}

/// The terminal constraint on the final row, against the externally agreed
/// terminal: the running product advances once more by the weighted factor
/// on a genuine final row, and is held fixed on an interweaved one.
pub open spec fn ext_terminal(
    ch: Challenges,
    term: (int, int, int),
    c: (int, int, int),
    a: (int, int, int),
    v: (int, int, int),
    w: (int, int, int),
    perm: (int, int, int),
) -> (int, int, int) {
    xadd_v(
        xmul_v(xsub_v(xmul_v(perm, perm_factor(ch, c, a, v)), term), xsub_v(xone_v(), w)),
        xmul_v(xsub_v(perm, term), w),
    )
}

impl MemoryTable {
    /// A fresh memory table with the given geometry and empty matrices.
    pub fn new(length: usize, num_randomizers: usize, generator: Bfe, order: usize) -> (r: Self)
        requires
            length <= 0x4000_0000,
        ensures
            r.0.base_width == BASE_WIDTH,
            r.0.full_width == FULL_WIDTH,
            r.0.length == length,
            r.0.num_randomizers == num_randomizers,
            r.0.generator == generator,
            r.0.order == order,
            r.0.name@ == "Memory table"@,
            r.0.height == (if length == 0 {
                0nat
            } else {
                next_pow2(length as nat)
            }),
            r.0.matrix@ =~= Seq::<Vec<Bfe>>::empty(),
            r.0.more.permutation_terminal.vals() == (0int, 0int, 0int),
    {
        let table = Table::<MemoryTableMore>::new(
            BASE_WIDTH,
            FULL_WIDTH,
            length,
            num_randomizers,
            generator,
            order,
            "Memory table",
        );
        MemoryTable(table)
    }

    /// The six base-field transition constraints, evaluated on the named
    /// column values of a row and its successor. A constraint holds at the
    /// pair if and only if its evaluation is the additive identity.
    pub fn transition_constraints_afo_named_variables(
        cycle: Bfe,
        address: Bfe,
        value: Bfe,
        interweaved: Bfe,
        cycle_next: Bfe,
        address_next: Bfe,
        value_next: Bfe,
        interweaved_next: Bfe,
    ) -> (r: Vec<Bfe>)
        ensures
            r@.len() == 6,
            r@[0].val() == trans_address_delta(address.val(), address_next.val()),
            r@[1].val() == trans_cycle_step(
                cycle.val(),
                address.val(),
                cycle_next.val(),
                address_next.val(),
            ),
            r@[2].val() == trans_interweave_address(
                address.val(),
                interweaved.val(),
                address_next.val(),
            ),
            r@[3].val() == trans_interweave_value(
                value.val(),
                interweaved.val(),
                value_next.val(),
            ),
            r@[4].val() == trans_flag_boolean(interweaved_next.val()),
            r@[5].val() == trans_fresh_zero(address.val(), address_next.val(), value_next.val()),
    {
        let one = Bfe::one();
        let mut polynomials: Vec<Bfe> = Vec::new();
        let address_delta = address_next.sub(address);

        // 1. memory pointer increases by one or zero
        polynomials.push(address_delta.sub(one).mul(address_delta));

        // 2. if the memory pointer does not increase, the clock cycle must
        // increase by one
        polynomials.push(address_delta.sub(one).mul(cycle_next.sub(cycle).sub(one)));

        // 3. if the row is an interweaved row, the memory pointer may not
        // change
        polynomials.push(interweaved.mul(address_delta));

        // 4. if the row is an interweaved row, the memory value may not
        // change
        polynomials.push(interweaved.mul(value.sub(value_next)));

        // 5. the interweave flag of the next row is either one or zero
        polynomials.push(interweaved_next.mul(interweaved_next.sub(one)));

        // 6. if the memory pointer increases by one, the next memory value
        // must be zero
        polynomials.push(address_delta.mul(value_next));

        polynomials
    }

    /// The six base transition constraints, evaluated at a point formed by
    /// concatenating a row and its successor.
    pub fn base_transition_constraints(&self, point: &Vec<Bfe>) -> (r: Vec<Bfe>)
        requires
            point@.len() == 2 * BASE_WIDTH,
        ensures
            r@.len() == 6,
            r@[0].val() == trans_address_delta(point@[1].val(), point@[5].val()),
            r@[1].val() == trans_cycle_step(
                point@[0].val(),
                point@[1].val(),
                point@[4].val(),
                point@[5].val(),
            ),
            r@[2].val() == trans_interweave_address(
                point@[1].val(),
                point@[3].val(),
                point@[5].val(),
            ),
            r@[3].val() == trans_interweave_value(
                point@[2].val(),
                point@[3].val(),
                point@[6].val(),
            ),
            r@[4].val() == trans_flag_boolean(point@[7].val()),
            r@[5].val() == trans_fresh_zero(point@[1].val(), point@[5].val(), point@[6].val()),
    {
        Self::transition_constraints_afo_named_variables(
            point[0],
            point[1],
            point[2],
            point[3],
            point[4],
            point[5],
            point[6],
            point[7],
        )
    }

    /// The three base-field boundary constraints, evaluated at row 0: the
    /// first row's cycle, address and value are each fixed to zero, so each
    /// evaluation is that column's own residue and vanishes exactly when the
    /// column is zero. The interweave flag of row 0 is left unconstrained
    /// here; the transition constraints force it. The family is never
    /// silently empty: the result is always exactly these three.
    pub fn base_boundary_constraints(&self, row: &Vec<Bfe>) -> (r: Result<
        Vec<Bfe>,
        MemoryTableError,
    >)
        requires
            row@.len() == BASE_WIDTH,
        ensures
            r is Ok,
            r->Ok_0@.len() == 3,
            r->Ok_0@[0].val() == cycle_of(row@),
            r->Ok_0@[1].val() == address_of(row@),
            r->Ok_0@[2].val() == value_of(row@),
    {
        proof {
            row@[CYCLE as int].lemma_valid();
            row@[MEMORY_POINTER as int].lemma_valid();
            row@[MEMORY_VALUE as int].lemma_valid();
            crate::field::lemma_field_identities(cycle_of(row@), 0);
            crate::field::lemma_field_identities(address_of(row@), 0);
            crate::field::lemma_field_identities(value_of(row@), 0);
        }
        let zero = Bfe::zero();
        let mut constraints: Vec<Bfe> = Vec::new();
        constraints.push(row[CYCLE].sub(zero));
        constraints.push(row[MEMORY_POINTER].sub(zero));
        constraints.push(row[MEMORY_VALUE].sub(zero));
        Ok(constraints)
    }

    /// Converts the processor trace into the canonical memory-access matrix:
    /// discards the final trace row, refuses padded traces (a zero
    /// instruction anywhere else), projects every remaining row to
    /// `(cycle, memory_pointer, memory_value, 0)`, sorts by memory pointer
    /// and interweaves synthetic rows until every same-address pair of
    /// adjacent rows carries consecutive cycles.
    pub fn derive_matrix(processor_matrix: &Vec<Register>) -> (res: Result<
        Vec<Vec<Bfe>>,
        MemoryTableError,
    >)
        ensures
            match res {
                Ok(m) => {
                    let t = processor_matrix@;
                    &&& forall|i: int|
                        0 <= i < t.len() - 1 ==> (#[trigger] t[i]).current_instruction.val() != 0
                    &&& rows_wf(m@)
                    &&& sorted_by_address(m@)
                    &&& gap_free(m@)
                    &&& synthetic_rows_interpolate(m@)
                    &&& synthetic_rows_interior(m@)
                    &&& genuine_vals(m@).to_multiset() == trace_vals(
                        kept_trace(t),
                    ).to_multiset()
                    &&& m@.len() + 1 >= t.len()
                    &&& (t.len() >= 2 ==> m@.len() > 0)
                },
                Err(e) => {
                    let t = processor_matrix@;
                    match e {
                        MemoryTableError::MalformedTrace { row } => {
                            &&& 0 <= row < t.len() - 1
                            &&& t[row as int].current_instruction.val() == 0
                            &&& forall|i: int|
                                0 <= i < row ==> (#[trigger] t[i]).current_instruction.val() != 0
                        },
                        _ => false,
                    }
                },
            },
    {
        let ghost t = processor_matrix@;
        let n = processor_matrix.len();
        let mut projected: Vec<Vec<Bfe>> = Vec::new();
        let mut i: usize = 0;
        proof {
            assert(matrix_vals(projected@) =~= trace_vals(t.take(0)));
        }
        while i + 1 < n
            invariant
                t == processor_matrix@,
                n == t.len(),
                i as int <= (if n == 0 {
                    0int
                } else {
                    n - 1
                }),
                projected@.len() == i,
                rows_wf(projected@),
                forall|j: int| 0 <= j < i ==> flag_of(#[trigger] projected@[j]@) == 0,
                matrix_vals(projected@) == trace_vals(t.take(i as int)),
                forall|j: int|
                    0 <= j < i ==> (#[trigger] t[j]).current_instruction.val() != 0,
            decreases n - i,
        {
            let reg = processor_matrix[i];
            if reg.current_instruction.is_zero() {
                return Err(MemoryTableError::MalformedTrace { row: i });
            }
            let row = make_row(reg.cycle, reg.memory_pointer, reg.memory_value, Bfe::zero());
            let ghost projected0 = projected@;
            projected.push(row);
            i = i + 1;
            proof {
                assert(matrix_vals(projected@) =~= matrix_vals(projected0).push(row_vals(row@)));
                assert(trace_vals(t.take(i as int)) =~= trace_vals(
                    t.take(i - 1),
                ).push(register_vals(t[i - 1])));
            }
        }
        proof {
            assert(t.take(i as int) == kept_trace(t));
        }
        let sorted = sort_by_memory_pointer(projected);
        let matrix = interweave(sorted);
        Ok(matrix)
    }

    /// Pads the matrix to the next power-of-two height: each appended row
    /// repeats the last row with its cycle advanced by one and its
    /// interweave flag set, a filler consistent with the interweave
    /// constraints.
    pub fn pad(&mut self)
        requires
            old(self).0.matrix@.len() >= 1,
            old(self).0.matrix@.len() <= 0x4000_0000,
            rows_wf(old(self).0.matrix@),
        ensures
            final(self).0.matrix@.len() == next_pow2(old(self).0.matrix@.len() as nat),
            is_pow2(final(self).0.matrix@.len() as nat),
            final(self).0.matrix@.len() >= old(self).0.matrix@.len(),
            rows_wf(final(self).0.matrix@),
            forall|i: int|
                0 <= i < old(self).0.matrix@.len() ==> final(self).0.matrix@[i] == old(
                    self,
                ).0.matrix@[i],
            forall|i: int|
                old(self).0.matrix@.len() <= i < final(self).0.matrix@.len()
                    ==> #[trigger] padding_row_at(final(self).0.matrix@, i),
            final(self).0.base_width == old(self).0.base_width,
            final(self).0.full_width == old(self).0.full_width,
            final(self).0.length == old(self).0.length,
            final(self).0.num_randomizers == old(self).0.num_randomizers,
            final(self).0.height == old(self).0.height,
            final(self).0.generator == old(self).0.generator,
            final(self).0.order == old(self).0.order,
            final(self).0.omicron == old(self).0.omicron,
            final(self).0.name == old(self).0.name,
            final(self).0.extended_matrix == old(self).0.extended_matrix,
            final(self).0.codewords == old(self).0.codewords,
            final(self).0.extended_codewords == old(self).0.extended_codewords,
            final(self).0.more.permutation_terminal == old(self).0.more.permutation_terminal,
    {
        let ghost m0 = self.0.matrix@;
        let target = Table::<MemoryTableMore>::derive_height(self.0.matrix.len());
        proof {
            crate::table::lemma_next_pow2(m0.len() as nat);
        }
        while self.0.matrix.len() < target
            invariant
                1 <= m0.len() <= self.0.matrix@.len() <= target,
                target as nat == next_pow2(m0.len() as nat),
                rows_wf(self.0.matrix@),
                forall|i: int| 0 <= i < m0.len() ==> self.0.matrix@[i] == m0[i],
                forall|i: int|
                    m0.len() <= i < self.0.matrix@.len() ==> #[trigger] padding_row_at(
                        self.0.matrix@,
                        i,
                    ),
                self.0.base_width == old(self).0.base_width,
                self.0.full_width == old(self).0.full_width,
                self.0.length == old(self).0.length,
                self.0.num_randomizers == old(self).0.num_randomizers,
                self.0.height == old(self).0.height,
                self.0.generator == old(self).0.generator,
                self.0.order == old(self).0.order,
                self.0.omicron == old(self).0.omicron,
                self.0.name == old(self).0.name,
                self.0.extended_matrix == old(self).0.extended_matrix,
                self.0.codewords == old(self).0.codewords,
                self.0.extended_codewords == old(self).0.extended_codewords,
                self.0.more.permutation_terminal == old(self).0.more.permutation_terminal,
            decreases target - self.0.matrix@.len(),
        {
            let last = self.0.matrix.len() - 1;
            let padding = make_row(
                self.0.matrix[last][CYCLE].add(Bfe::one()),
                self.0.matrix[last][MEMORY_POINTER],
                self.0.matrix[last][MEMORY_VALUE],
                Bfe::one(),
            );
            let ghost mprev = self.0.matrix@;
            self.0.matrix.push(padding);
            proof {
                let m = self.0.matrix@;
                assert forall|i: int| m0.len() <= i < m.len() implies #[trigger] padding_row_at(
                    m,
                    i,
                ) by {
                    if i < m.len() - 1 {
                        assert(padding_row_at(mprev, i));
                        assert(m[i] == mprev[i] && m[i - 1] == mprev[i - 1]);
                    } else {
                        assert(m[i] == padding && m[i - 1] == mprev[last as int]);
                    }
                }
            }
        }
    }

    /// Extends the table: lifts every base row into the extension field,
    /// appends the running permutation-product column seeded from this
    /// table's initial, lifts the stored codewords, and records the final
    /// running value as the table's permutation terminal. The running
    /// product advances by `beta - d*cycle - e*address - f*value` on genuine
    /// rows only.
    pub fn extend(&mut self, all_challenges: &Challenges, all_initials: &Initials)
        requires
            forall|i: int|
                0 <= i < old(self).0.matrix@.len() ==> row_ok(#[trigger] old(self).0.matrix@[i]@),
        ensures
            final(self).0.matrix == old(self).0.matrix,
            final(self).0.base_width == old(self).0.base_width,
            final(self).0.full_width == old(self).0.full_width,
            final(self).0.length == old(self).0.length,
            final(self).0.num_randomizers == old(self).0.num_randomizers,
            final(self).0.height == old(self).0.height,
            final(self).0.generator == old(self).0.generator,
            final(self).0.order == old(self).0.order,
            final(self).0.omicron == old(self).0.omicron,
            final(self).0.name == old(self).0.name,
            final(self).0.codewords == old(self).0.codewords,
            final(self).0.extended_matrix@.len() == old(self).0.matrix@.len(),
            forall|i: int|
                0 <= i < old(self).0.matrix@.len() ==> extended_row_matches(
                    #[trigger] final(self).0.extended_matrix@[i]@,
                    old(self).0.matrix@,
                    *all_challenges,
                    all_initials.processor_memory_permutation.vals(),
                    i,
                ),
            final(self).0.more.permutation_terminal.vals() == running_product(
                old(self).0.matrix@,
                *all_challenges,
                all_initials.processor_memory_permutation.vals(),
                old(self).0.matrix@.len() as int,
            ),
            final(self).0.extended_codewords@.len() == old(self).0.codewords@.len(),
            forall|i: int|
                0 <= i < old(self).0.codewords@.len()
                    ==> (#[trigger] final(self).0.extended_codewords@[i]@).len()
                    == old(self).0.codewords@[i]@.len(),
            forall|i: int, j: int|
                0 <= i < old(self).0.codewords@.len() && 0 <= j < old(self).0.codewords@[i]@.len()
                    ==> (#[trigger] final(self).0.extended_codewords@[i]@[j]).vals()
                    == lift_v(old(self).0.codewords@[i]@[j].val()),
    {
        let ghost m0 = self.0.matrix@;
        let ghost ch = *all_challenges;
        let ghost init = all_initials.processor_memory_permutation.vals();
        let mut extended: Vec<Vec<Xfe>> = Vec::new();
        let mut running = all_initials.processor_memory_permutation;
        let n = self.0.matrix.len();
        let mut i: usize = 0;
        while i < n
            invariant
                *self == *old(self),
                m0 == self.0.matrix@,
                ch == *all_challenges,
                init == all_initials.processor_memory_permutation.vals(),
                n == m0.len(),
                i <= n,
                forall|k: int| 0 <= k < m0.len() ==> row_ok(#[trigger] m0[k]@),
                extended@.len() == i,
                running.vals() == running_product(m0, ch, init, i as int),
                forall|k: int|
                    0 <= k < i ==> extended_row_matches(
                        #[trigger] extended@[k]@,
                        m0,
                        ch,
                        init,
                        k,
                    ),
            decreases n - i,
        {
            let c = self.0.matrix[i][CYCLE];
            let a = self.0.matrix[i][MEMORY_POINTER];
            let v = self.0.matrix[i][MEMORY_VALUE];
            let w = self.0.matrix[i][INTERWEAVED];
            let mut new_row: Vec<Xfe> = Vec::new();
            new_row.push(Xfe::lift(c));
            new_row.push(Xfe::lift(a));
            new_row.push(Xfe::lift(v));
            new_row.push(Xfe::lift(w));
            new_row.push(running);
            extended.push(new_row);
            if w.is_zero() {
                let factor = all_challenges.beta.sub(all_challenges.d.mul(Xfe::lift(c))).sub(
                    all_challenges.e.mul(Xfe::lift(a)),
                ).sub(all_challenges.f.mul(Xfe::lift(v)));
                running = running.mul(factor);
            }
            i = i + 1;
        }
        let mut extended_codewords: Vec<Vec<Xfe>> = Vec::new();
        let mut k: usize = 0;
        while k < self.0.codewords.len()
            invariant
                *self == *old(self),
                k <= self.0.codewords@.len(),
                extended_codewords@.len() == k,
                forall|x: int|
                    0 <= x < k ==> (#[trigger] extended_codewords@[x]@).len()
                        == self.0.codewords@[x]@.len(),
                forall|x: int, j: int|
                    0 <= x < k && 0 <= j < self.0.codewords@[x]@.len() ==> (
                    #[trigger] extended_codewords@[x]@[j]).vals() == lift_v(
                        self.0.codewords@[x]@[j].val(),
                    ),
            decreases self.0.codewords@.len() - k,
        {
            let mut lifted: Vec<Xfe> = Vec::new();
            let mut j: usize = 0;
            let width = self.0.codewords[k].len();
            while j < width
                invariant
                    *self == *old(self),
                    k < self.0.codewords@.len(),
                    width == self.0.codewords@[k as int]@.len(),
                    j <= width,
                    lifted@.len() == j,
                    forall|x: int|
                        0 <= x < j ==> (#[trigger] lifted@[x]).vals() == lift_v(
                            self.0.codewords@[k as int]@[x].val(),
                        ),
                decreases width - j,
            {
                lifted.push(Xfe::lift(self.0.codewords[k][j]));
                j = j + 1;
            }
            let ghost ecw0 = extended_codewords@;
            extended_codewords.push(lifted);
            k = k + 1;
            proof {
                let cw = self.0.codewords@;
                let ecw = extended_codewords@;
                assert forall|x: int|
                    0 <= x < k implies (#[trigger] ecw[x]@).len() == cw[x]@.len() by {
                    if x < k - 1 {
                        assert(ecw[x] == ecw0[x]);
                    } else {
                        assert(ecw[x] == lifted);
                    }
                }
                assert forall|x: int, j: int|
                    0 <= x < k && 0 <= j < cw[x]@.len() implies (#[trigger] ecw[x]@[j]).vals()
                    == lift_v(cw[x]@[j].val()) by {
                    if x < k - 1 {
                        assert(ecw[x] == ecw0[x]);
                        assert((ecw0[x]@[j]).vals() == lift_v(cw[x]@[j].val()));
                    } else {
                        assert(ecw[x] == lifted);
                        assert(lifted@[j].vals() == lift_v(cw[x]@[j].val()));
                    }
                }
            }
        }
        self.0.extended_matrix = extended;
        self.0.extended_codewords = extended_codewords;
        self.0.more.permutation_terminal = running;
    }

    /// The seven extension-field transition constraints (the six lifted base
    /// constraints and the running-product identity), evaluated at a point
    /// formed by concatenating an extended row and its successor.
    pub fn transition_constraints_ext(&self, challenges: &Challenges, point: &Vec<Xfe>) -> (r:
        Vec<Xfe>)
        requires
            point@.len() == 2 * FULL_WIDTH,
        ensures
            r@.len() == 7,
            r@[0].vals() == ext_trans_address_delta(point@[1].vals(), point@[6].vals()),
            r@[1].vals() == ext_trans_cycle_step(
                point@[0].vals(),
                point@[1].vals(),
                point@[5].vals(),
                point@[6].vals(),
            ),
            r@[2].vals() == ext_trans_interweave_address(
                point@[1].vals(),
                point@[3].vals(),
                point@[6].vals(),
            ),
            r@[3].vals() == ext_trans_interweave_value(
                point@[2].vals(),
                point@[3].vals(),
                point@[7].vals(),
            ),
            r@[4].vals() == ext_trans_flag_boolean(point@[8].vals()),
            r@[5].vals() == ext_trans_fresh_zero(
                point@[1].vals(),
                point@[6].vals(),
                point@[7].vals(),
            ),
            r@[6].vals() == ext_trans_permutation(
                *challenges,
                point@[0].vals(),
                point@[1].vals(),
                point@[2].vals(),
                point@[3].vals(),
                point@[4].vals(),
                point@[9].vals(),
            ),
    {
        let one = Xfe::one();
        let cycle = point[0];
        let address = point[1];
        let value = point[2];
        let interweaved = point[3];
        let permutation = point[4];
        let cycle_next = point[5];
        let address_next = point[6];
        let value_next = point[7];
        let interweaved_next = point[8];
        let permutation_next = point[9];
        let address_delta = address_next.sub(address);

        let mut polynomials: Vec<Xfe> = Vec::new();
        polynomials.push(address_delta.sub(one).mul(address_delta));
        polynomials.push(address_delta.sub(one).mul(cycle_next.sub(cycle).sub(one)));
        polynomials.push(interweaved.mul(address_delta));
        polynomials.push(interweaved.mul(value.sub(value_next)));
        polynomials.push(interweaved_next.mul(interweaved_next.sub(one)));
        polynomials.push(address_delta.mul(value_next));

        let factor = challenges.beta.sub(challenges.d.mul(cycle)).sub(
            challenges.e.mul(address),
        ).sub(challenges.f.mul(value));
        polynomials.push(
            permutation.mul(factor.mul(one.sub(interweaved)).add(interweaved)).sub(
                permutation_next,
            ),
        );
        polynomials
    }

    /// The extension-field boundary constraints: row 0's cycle, address and
    /// value must all be the additive identity. The interweave flag of row 0
    /// is left unconstrained here; the transition constraints force it.
    pub fn boundary_constraints_ext(&self, _challenges: &Challenges, row: &Vec<Xfe>) -> (r: Vec<
        Xfe,
    >)
        requires
            row@.len() == FULL_WIDTH,
        ensures
            r@.len() == 3,
            r@[0].vals() == row@[CYCLE as int].vals(),
            r@[1].vals() == row@[MEMORY_POINTER as int].vals(),
            r@[2].vals() == row@[MEMORY_VALUE as int].vals(),
    {
        proof {
            row@[CYCLE as int].lemma_valid();
            row@[MEMORY_POINTER as int].lemma_valid();
            row@[MEMORY_VALUE as int].lemma_valid();
            crate::xfield::lemma_xfield_identities(row@[CYCLE as int].vals());
            crate::xfield::lemma_xfield_identities(row@[MEMORY_POINTER as int].vals());
            crate::xfield::lemma_xfield_identities(row@[MEMORY_VALUE as int].vals());
        }
        let zero = Xfe::zero();
        let mut constraints: Vec<Xfe> = Vec::new();
        constraints.push(row[CYCLE].sub(zero));
        constraints.push(row[MEMORY_POINTER].sub(zero));
        constraints.push(row[MEMORY_VALUE].sub(zero));
        constraints
    }

    /// The extension-field terminal constraint, evaluated on the final row
    /// against the externally agreed terminal of the processor/memory
    /// permutation argument.
    pub fn terminal_constraints_ext(
        &self,
        challenges: &Challenges,
        terminals: &Terminals,
        row: &Vec<Xfe>,
    ) -> (r: Vec<Xfe>)
        requires
            row@.len() == FULL_WIDTH,
        ensures
            r@.len() == 1,
            r@[0].vals() == ext_terminal(
                *challenges,
                terminals.processor_memory_permutation.vals(),
                row@[CYCLE as int].vals(),
                row@[MEMORY_POINTER as int].vals(),
                row@[MEMORY_VALUE as int].vals(),
                row@[INTERWEAVED as int].vals(),
                row@[PERMUTATION as int].vals(),
            ),
    {
        let one = Xfe::one();
        let terminal = terminals.processor_memory_permutation;
        let cycle = row[CYCLE];
        let address = row[MEMORY_POINTER];
        let value = row[MEMORY_VALUE];
        let interweaved = row[INTERWEAVED];
        let permutation = row[PERMUTATION];
        let factor = challenges.beta.sub(challenges.d.mul(cycle)).sub(
            challenges.e.mul(address),
        ).sub(challenges.f.mul(value));
        let mut constraints: Vec<Xfe> = Vec::new();
        constraints.push(
            permutation.mul(factor).sub(terminal).mul(one.sub(interweaved)).add(
                permutation.sub(terminal).mul(interweaved),
            ),
        );
        constraints
    }

    /// Read accessor: number of base columns.
    pub fn base_width(&self) -> (r: usize)
        ensures
            r == self.0.base_width,
    {
        self.0.base_width
    }

    /// Read accessor: number of columns after extension.
    pub fn full_width(&self) -> (r: usize)
        ensures
            r == self.0.full_width,
    {
        self.0.full_width
    }

    /// Read accessor: number of rows before padding.
    pub fn length(&self) -> (r: usize)
        ensures
            r == self.0.length,
    {
        self.0.length
    }

    /// Read accessor: the table's display name.
    pub fn name(&self) -> (r: &'static str)
        ensures
            r == self.0.name,
    {
        self.0.name
    }

    /// Read accessor: number of blinding rows in the geometry.
    pub fn num_randomizers(&self) -> (r: usize)
        ensures
            r == self.0.num_randomizers,
    {
        self.0.num_randomizers
    }

    /// Read accessor: the padded height.
    pub fn height(&self) -> (r: usize)
        ensures
            r == self.0.height,
    {
        self.0.height
    }

    /// Read accessor: the generator of the height-sized evaluation subgroup.
    pub fn omicron(&self) -> (r: Bfe)
        ensures
            r == self.0.omicron,
    {
        self.0.omicron
    }

    /// Read accessor: the evaluation-domain generator.
    pub fn generator(&self) -> (r: Bfe)
        ensures
            r == self.0.generator,
    {
        self.0.generator
    }

    /// Read accessor: the order of the evaluation-domain generator.
    pub fn order(&self) -> (r: usize)
        ensures
            r == self.0.order,
    {
        self.0.order
    }
}

/// Builds one base row from its four column values.
fn make_row(cycle: Bfe, address: Bfe, value: Bfe, interweaved: Bfe) -> (r: Vec<Bfe>)
    ensures
        r@.len() == BASE_WIDTH,
        r@[0] == cycle,
        r@[1] == address,
        r@[2] == value,
        r@[3] == interweaved,
{
    let mut r: Vec<Bfe> = Vec::new();
    r.push(cycle);
    r.push(address);
    r.push(value);
    r.push(interweaved);
    r
}

/// Sorts base rows by their address column, ascending, keeping the rows as a
/// multiset. Used on projected rows, whose interweave flags are all clear.
fn sort_by_memory_pointer(rows: Vec<Vec<Bfe>>) -> (r: Vec<Vec<Bfe>>)
    requires
        rows_wf(rows@),
        forall|i: int| 0 <= i < rows@.len() ==> flag_of(#[trigger] rows@[i]@) == 0,
    ensures
        rows_wf(r@),
        sorted_by_address(r@),
        forall|i: int| 0 <= i < r@.len() ==> flag_of(#[trigger] r@[i]@) == 0,
        r@.len() == rows@.len(),
        matrix_vals(r@).to_multiset() == matrix_vals(rows@).to_multiset(),
{
    let ghost orig = rows@;
    let mut src = rows;
    let mut out: Vec<Vec<Bfe>> = Vec::new();
    proof {
        broadcast use vstd::multiset::group_multiset_axioms;

        assert(matrix_vals(out@) =~= Seq::<(int, int, int, int)>::empty());
        matrix_vals(out@).to_multiset_ensures();
        assert(matrix_vals(out@).to_multiset() =~= Multiset::<(int, int, int, int)>::empty());
        assert(matrix_vals(out@).to_multiset().add(matrix_vals(src@).to_multiset())
            =~= matrix_vals(orig).to_multiset());
    }
    while src.len() > 0
        invariant
            rows_wf(out@),
            rows_wf(src@),
            forall|i: int| 0 <= i < out@.len() ==> flag_of(#[trigger] out@[i]@) == 0,
            forall|i: int| 0 <= i < src@.len() ==> flag_of(#[trigger] src@[i]@) == 0,
            sorted_by_address(out@),
            forall|i: int, j: int|
                0 <= i < out@.len() && 0 <= j < src@.len() ==> address_of(#[trigger] out@[i]@)
                    <= address_of(#[trigger] src@[j]@),
            out@.len() + src@.len() == orig.len(),
            matrix_vals(out@).to_multiset().add(matrix_vals(src@).to_multiset()) == matrix_vals(
                orig,
            ).to_multiset(),
        decreases src@.len(),
    {
        let mut min_i: usize = 0;
        let mut k: usize = 1;
        while k < src.len()
            invariant
                0 < src@.len(),
                min_i < k <= src@.len(),
                rows_wf(src@),
                forall|j: int|
                    0 <= j < k ==> address_of(src@[min_i as int]@) <= address_of(
                        #[trigger] src@[j]@,
                    ),
            decreases src@.len() - k,
        {
            if src[k][MEMORY_POINTER].value() < src[min_i][MEMORY_POINTER].value() {
                min_i = k;
            }
            k = k + 1;
        }
        let ghost src0 = src@;
        let ghost out0 = out@;
        let row = src.remove(min_i);
        out.push(row);
        proof {
            broadcast use vstd::multiset::group_multiset_axioms;

            let x = row_vals(row@);
            assert(matrix_vals(src@) =~= matrix_vals(src0).remove(min_i as int));
            assert(matrix_vals(out@) =~= matrix_vals(out0).push(x));
            vstd::seq_lib::to_multiset_remove(matrix_vals(src0), min_i as int);
            vstd::seq_lib::to_multiset_build(matrix_vals(out0), x);
            matrix_vals(src0).to_multiset_ensures();
            assert(matrix_vals(src0).contains(x));
            assert(matrix_vals(src0).to_multiset().count(x) > 0);
            assert(matrix_vals(out@).to_multiset().add(matrix_vals(src@).to_multiset())
                =~= matrix_vals(out0).to_multiset().add(matrix_vals(src0).to_multiset()));
        }
    }
    proof {
        broadcast use vstd::multiset::group_multiset_axioms;

        assert(matrix_vals(src@) =~= Seq::<(int, int, int, int)>::empty());
        matrix_vals(src@).to_multiset_ensures();
        assert(matrix_vals(src@).to_multiset() =~= Multiset::<(int, int, int, int)>::empty());
        assert(matrix_vals(out@).to_multiset() =~= matrix_vals(orig).to_multiset());
    }
    out
}

/// How one synthetic row shortens the cycle distance the interweaving pass
/// still has to close: the distance is zero exactly when the next genuine
/// row's cycle already follows the current one, and each inserted row
/// shortens it by one.
proof fn lemma_gap_measure(lc: int, nc: int)
    requires
        fvalid(lc),
        fvalid(nc),
    ensures
        (fadd(lc, 1) == nc) <==> (fsub(fsub(nc, lc), 1) == 0),
        fadd(lc, 1) != nc ==> fsub(fsub(nc, fadd(lc, 1)), 1) == fsub(fsub(nc, lc), 1) - 1,
{
    crate::field::lemma_fadd_cases(lc, 1);
    crate::field::lemma_fsub_cases(nc, lc);
    crate::field::lemma_fsub_cases(fsub(nc, lc), 1);
    crate::field::lemma_fsub_cases(nc, fadd(lc, 1));
    crate::field::lemma_fsub_cases(fsub(nc, fadd(lc, 1)), 1);
}

/// Inserts a synthetic row after every same-address pair of adjacent rows
/// whose cycles are not consecutive, carrying the earlier row's value one
/// cycle later, flagged as interweaved, until the matrix is gap-free.
#[verifier::rlimit(50)]
fn interweave(sorted: Vec<Vec<Bfe>>) -> (r: Vec<Vec<Bfe>>)
    requires
        rows_wf(sorted@),
        sorted_by_address(sorted@),
        forall|i: int| 0 <= i < sorted@.len() ==> flag_of(#[trigger] sorted@[i]@) == 0,
    ensures
        rows_wf(r@),
        sorted_by_address(r@),
        gap_free(r@),
        synthetic_rows_interpolate(r@),
        synthetic_rows_interior(r@),
        genuine_vals(r@) == matrix_vals(sorted@),
        r@.len() >= sorted@.len(),
{
    let mut out: Vec<Vec<Bfe>> = Vec::new();
    let mut i: usize = 0;
    proof {
        reveal(Seq::filter);
        assert(matrix_vals(out@) =~= Seq::<(int, int, int, int)>::empty());
        assert(genuine_vals(out@) =~= matrix_vals(sorted@.take(0)));
    }
    while i < sorted.len()
        invariant
            rows_wf(sorted@),
            sorted_by_address(sorted@),
            forall|j: int| 0 <= j < sorted@.len() ==> flag_of(#[trigger] sorted@[j]@) == 0,
            i <= sorted@.len(),
            out@.len() >= i,
            rows_wf(out@),
            sorted_by_address(out@),
            gap_free(out@),
            synthetic_rows_interpolate(out@),
            forall|j: int|
                0 <= j < out@.len() - 1 && flag_of(#[trigger] out@[j]@) == 1 ==> address_of(
                    out@[j + 1]@,
                ) == address_of(out@[j]@),
            genuine_vals(out@) == matrix_vals(sorted@.take(i as int)),
            i == 0 ==> out@.len() == 0,
            i > 0 ==> out@.len() > 0 && out@.last()@ == sorted@[i - 1]@,
        decreases sorted@.len() - i,
    {
        let next_cycle = sorted[i][CYCLE];
        let next_address = sorted[i][MEMORY_POINTER];
        if out.len() > 0 && out[out.len() - 1][MEMORY_POINTER].value() == next_address.value() {
            // Fill the cycle gap with synthetic rows before appending the
            // next genuine row.
            loop
                invariant
                    out@.len() > 0,
                    rows_wf(out@),
                    sorted_by_address(out@),
                    gap_free(out@),
                    synthetic_rows_interpolate(out@),
                    forall|j: int|
                        0 <= j < out@.len() - 1 && flag_of(#[trigger] out@[j]@) == 1
                            ==> address_of(out@[j + 1]@) == address_of(out@[j]@),
                    genuine_vals(out@) == matrix_vals(sorted@.take(i as int)),
                    i < sorted@.len(),
                    next_cycle == sorted@[i as int]@[CYCLE as int],
                    next_address == sorted@[i as int]@[MEMORY_POINTER as int],
                    address_of(out@.last()@) == next_address.val(),
                ensures
                    out@.len() > 0,
                    rows_wf(out@),
                    sorted_by_address(out@),
                    gap_free(out@),
                    synthetic_rows_interpolate(out@),
                    forall|j: int|
                        0 <= j < out@.len() - 1 && flag_of(#[trigger] out@[j]@) == 1
                            ==> address_of(out@[j + 1]@) == address_of(out@[j]@),
                    genuine_vals(out@) == matrix_vals(sorted@.take(i as int)),
                    address_of(out@.last()@) == next_address.val(),
                    fadd(cycle_of(out@.last()@), 1) == next_cycle.val(),
                decreases fsub(fsub(next_cycle.val(), cycle_of(out@.last()@)), 1),
            {
                let last_i = out.len() - 1;
                let synth_cycle = out[last_i][CYCLE].add(Bfe::one());
                if synth_cycle.value() == next_cycle.value() {
                    break ;
                }
                let synth_value = out[last_i][MEMORY_VALUE];
                let synth = make_row(synth_cycle, next_address, synth_value, Bfe::one());
                let ghost out0 = out@;
                out.push(synth);
                proof {
                    out0.last()@[CYCLE as int].lemma_valid();
                    out@.last()@[CYCLE as int].lemma_valid();
                    next_cycle.lemma_valid();
                    lemma_gap_measure(cycle_of(out0.last()@), next_cycle.val());
                    lemma_gap_measure(cycle_of(out@.last()@), next_cycle.val());
                    assert(matrix_vals(out@) =~= matrix_vals(out0).push(row_vals(synth@)));
                    matrix_vals(out0).lemma_filter_push(row_vals(synth@), genuine_pred());
                    assert(genuine_vals(out@) == genuine_vals(out0));
                    assert forall|j: int|
                        0 <= j < out@.len() - 1 && flag_of(#[trigger] out@[j]@) == 1
                            implies address_of(out@[j + 1]@) == address_of(out@[j]@) by {
                        if j < out@.len() - 2 {
                            assert(out@[j] == out0[j] && out@[j + 1] == out0[j + 1]);
                        } else {
                            assert(out@[j] == out0.last() && out@[j + 1] == synth);
                        }
                    }
                }
            }
        }
        let row = make_row(next_cycle, next_address, sorted[i][MEMORY_VALUE], sorted[i][INTERWEAVED]);
        let ghost out0 = out@;
        out.push(row);
        i = i + 1;
        proof {
            assert(row@ =~= sorted@[i - 1]@);
            assert(matrix_vals(out@) =~= matrix_vals(out0).push(row_vals(row@)));
            matrix_vals(out0).lemma_filter_push(row_vals(row@), genuine_pred());
            assert(matrix_vals(sorted@.take(i as int)) =~= matrix_vals(
                sorted@.take(i - 1),
            ).push(row_vals(sorted@[i - 1]@)));
            assert(genuine_vals(out@) == matrix_vals(sorted@.take(i as int)));
            assert forall|j: int|
                0 <= j < out@.len() - 1 && flag_of(#[trigger] out@[j]@) == 1
                    implies address_of(out@[j + 1]@) == address_of(out@[j]@) by {
                if j < out@.len() - 2 {
                    assert(out@[j] == out0[j] && out@[j + 1] == out0[j + 1]);
                } else {
                    assert(out@[j] == out0.last() && out@[j + 1] == row);
                }
            }
        }
    }
    proof {
        assert(sorted@.take(i as int) == sorted@);
        assert(out@.len() >= sorted@.len());
    }
    out
}

} // verus!
