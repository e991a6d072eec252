//! The memory table's guarantees, stated and proved over the spec-level
//! views: the state-machine reading of the transition constraints, the
//! soundness of their polynomial encoding, the consistency of the extension
//! step with the lifted constraints and the terminal, and the fresh-address
//! rule.

use vstd::prelude::*;
use vstd::arithmetic::div_mod::{lemma_add_mod_noop, lemma_small_mod};
use crate::challenges::Challenges;
use crate::field::{
    fadd, fmul, fsub, fvalid, lemma_fadd_cases, lemma_field_identities, lemma_fsub_cases,
};
use crate::memory_table::{
    address_of, cycle_of, ext_terminal, ext_trans_address_delta, ext_trans_cycle_step,
    ext_trans_flag_boolean, ext_trans_fresh_zero, ext_trans_interweave_address,
    ext_trans_interweave_value, ext_trans_permutation, flag_of, gap_free, perm_factor, rows_wf,
    running_product, synthetic_rows_interpolate, trans_address_delta, trans_cycle_step, trans_flag_boolean, trans_fresh_zero,
    trans_interweave_address, trans_interweave_value, value_of,
};
use crate::xfield::{
    lemma_lift_homomorphism, lemma_xfield_identities, lemma_xfield_valid, lift_v, xmul_v, xone_v,
    xsub_v, xvalid, xzero_v,
};

verus! {

/// The state-machine reading of the six transition constraints on the named
/// column residues of a row and its successor: the address stays or advances
/// by one; the cycle advances by one whenever the address does not; an
/// interweaved row pins the next row's address and value; flags are boolean;
/// and a freshly touched address starts at value zero.
pub open spec fn transition_relation(
    c: int,
    a: int,
    v: int,
    w: int,
    cn: int,
    an: int,
    vn: int,
    wn: int,
) -> bool {
    &&& (w == 0 || w == 1)
    &&& (an == a || an == fadd(a, 1))
    &&& (an != fadd(a, 1) ==> cn == fadd(c, 1))
    &&& (w == 1 ==> an == a)
    &&& (w == 1 ==> vn == v)
    &&& (wn == 0 || wn == 1)
    &&& (an != a ==> vn == 0)
}

/// The state-machine relation holds between every pair of adjacent rows.
pub open spec fn matrix_transition_relation(m: Seq<Vec<crate::field::Bfe>>) -> bool {
    forall|i: int|
        0 < i < m.len() ==> transition_relation(
            cycle_of(m[i - 1]@),
            address_of(m[i - 1]@),
            value_of(m[i - 1]@),
            flag_of(m[i - 1]@),
            cycle_of(#[trigger] m[i]@),
            address_of(m[i]@),
            value_of(m[i]@),
            flag_of(m[i]@),
        )
}

/// All six base transition constraints evaluate to the additive identity at
/// every pair of adjacent rows.
pub open spec fn base_constraints_hold(m: Seq<Vec<crate::field::Bfe>>) -> bool {
    forall|i: int|
        0 < i < m.len() ==> {
            &&& trans_address_delta(address_of(m[i - 1]@), address_of(#[trigger] m[i]@)) == 0
            &&& trans_cycle_step(
                cycle_of(m[i - 1]@),
                address_of(m[i - 1]@),
                cycle_of(m[i]@),
                address_of(m[i]@),
            ) == 0
            &&& trans_interweave_address(
                address_of(m[i - 1]@),
                flag_of(m[i - 1]@),
                address_of(m[i]@),
            ) == 0
            &&& trans_interweave_value(
                value_of(m[i - 1]@),
                flag_of(m[i - 1]@),
                value_of(m[i]@),
            ) == 0
            &&& trans_flag_boolean(flag_of(m[i]@)) == 0
            &&& trans_fresh_zero(address_of(m[i - 1]@), address_of(m[i]@), value_of(m[i]@)) == 0
        }
}

/// Soundness of the polynomial encoding: wherever the state-machine relation
/// holds between the named residues of two rows, every one of the six
/// transition-constraint polynomials evaluates to the additive identity.
pub proof fn lemma_base_constraints_sound(
    c: int,
    a: int,
    v: int,
    w: int,
    cn: int,
    an: int,
    vn: int,
    wn: int,
)
    requires
        fvalid(c) && fvalid(a) && fvalid(v) && fvalid(w),
        fvalid(cn) && fvalid(an) && fvalid(vn) && fvalid(wn),
        transition_relation(c, a, v, w, cn, an, vn, wn),
    ensures
        trans_address_delta(a, an) == 0,
        trans_cycle_step(c, a, cn, an) == 0,
        trans_interweave_address(a, w, an) == 0,
        trans_interweave_value(v, w, vn) == 0,
        trans_flag_boolean(wn) == 0,
        trans_fresh_zero(a, an, vn) == 0,
{
    lemma_fadd_cases(a, 1);
    lemma_fsub_cases(an, a);
    lemma_fsub_cases(fsub(an, a), 1);
    lemma_fadd_cases(c, 1);
    lemma_fsub_cases(cn, c);
    lemma_fsub_cases(fsub(cn, c), 1);
    lemma_fsub_cases(v, vn);
    lemma_fsub_cases(wn, 1);
    lemma_field_identities(fsub(fsub(an, a), 1), 0);
    lemma_field_identities(fsub(fsub(cn, c), 1), 0);
    lemma_field_identities(fsub(an, a), 0);
    lemma_field_identities(vn, 0);
    lemma_field_identities(fsub(v, vn), 0);
}

/// The state-machine relation between every pair of adjacent rows makes all
/// six constraint polynomials vanish on the whole matrix.
pub proof fn lemma_matrix_base_constraints_sound(m: Seq<Vec<crate::field::Bfe>>)
    requires
        rows_wf(m),
        matrix_transition_relation(m),
    ensures
        base_constraints_hold(m),
{
    assert forall|i: int| 0 < i < m.len() implies {
        &&& trans_address_delta(address_of(m[i - 1]@), address_of(#[trigger] m[i]@)) == 0
        &&& trans_cycle_step(
            cycle_of(m[i - 1]@),
            address_of(m[i - 1]@),
            cycle_of(m[i]@),
            address_of(m[i]@),
        ) == 0
        &&& trans_interweave_address(
            address_of(m[i - 1]@),
            flag_of(m[i - 1]@),
            address_of(m[i]@),
        ) == 0
        &&& trans_interweave_value(value_of(m[i - 1]@), flag_of(m[i - 1]@), value_of(m[i]@)) == 0
        &&& trans_flag_boolean(flag_of(m[i]@)) == 0
        &&& trans_fresh_zero(address_of(m[i - 1]@), address_of(m[i]@), value_of(m[i]@)) == 0
    } by {
        lemma_row_residues_valid(m, i - 1);
        lemma_row_residues_valid(m, i);
        lemma_base_constraints_sound(
            cycle_of(m[i - 1]@),
            address_of(m[i - 1]@),
            value_of(m[i - 1]@),
            flag_of(m[i - 1]@),
            cycle_of(m[i]@),
            address_of(m[i]@),
            value_of(m[i]@),
            flag_of(m[i]@),
        );
    }
}

/// Every residue a well-formed row carries is canonical.
pub proof fn lemma_row_residues_valid(m: Seq<Vec<crate::field::Bfe>>, i: int)
    requires
        rows_wf(m),
        0 <= i < m.len(),
    ensures
        fvalid(cycle_of(m[i]@)),
        fvalid(address_of(m[i]@)),
        fvalid(value_of(m[i]@)),
        fvalid(flag_of(m[i]@)),
{
    m[i]@[crate::memory_table::CYCLE as int].lemma_valid();
    m[i]@[crate::memory_table::MEMORY_POINTER as int].lemma_valid();
    m[i]@[crate::memory_table::MEMORY_VALUE as int].lemma_valid();
    m[i]@[crate::memory_table::INTERWEAVED as int].lemma_valid();
}

/// Fresh-address rule: under the state-machine relation, the first row at
/// any address other than its predecessor's carries value zero, because
/// address advancement forces the next row's value to zero.
pub proof fn lemma_fresh_address_starts_at_zero(m: Seq<Vec<crate::field::Bfe>>, i: int)
    requires
        rows_wf(m),
        matrix_transition_relation(m),
        0 < i < m.len(),
        address_of(m[i]@) != address_of(m[i - 1]@),
    ensures
        value_of(m[i]@) == 0,
{
}

/// Lifting commutes with every transition-constraint evaluation: the lifted
/// polynomials evaluated at the lifted residues give the lift of the base
/// evaluations.
pub proof fn lemma_lift_transition_evaluations(
    c: int,
    a: int,
    v: int,
    w: int,
    cn: int,
    an: int,
    vn: int,
    wn: int,
)
    requires
        fvalid(c) && fvalid(a) && fvalid(v) && fvalid(w),
        fvalid(cn) && fvalid(an) && fvalid(vn) && fvalid(wn),
    ensures
        ext_trans_address_delta(lift_v(a), lift_v(an)) == lift_v(trans_address_delta(a, an)),
        ext_trans_cycle_step(lift_v(c), lift_v(a), lift_v(cn), lift_v(an)) == lift_v(
            trans_cycle_step(c, a, cn, an),
        ),
        ext_trans_interweave_address(lift_v(a), lift_v(w), lift_v(an)) == lift_v(
            trans_interweave_address(a, w, an),
        ),
        ext_trans_interweave_value(lift_v(v), lift_v(w), lift_v(vn)) == lift_v(
            trans_interweave_value(v, w, vn),
        ),
        ext_trans_flag_boolean(lift_v(wn)) == lift_v(trans_flag_boolean(wn)),
        ext_trans_fresh_zero(lift_v(a), lift_v(an), lift_v(vn)) == lift_v(
            trans_fresh_zero(a, an, vn),
        ),
{
    lemma_lift_homomorphism(an, a);
    assert(fvalid(fsub(an, a)));
    lemma_lift_homomorphism(fsub(an, a), 1);
    lemma_lift_homomorphism(fsub(fsub(an, a), 1), fsub(an, a));
    lemma_lift_homomorphism(cn, c);
    lemma_lift_homomorphism(fsub(cn, c), 1);
    lemma_lift_homomorphism(fsub(fsub(an, a), 1), fsub(fsub(cn, c), 1));
    lemma_lift_homomorphism(w, fsub(an, a));
    lemma_lift_homomorphism(v, vn);
    lemma_lift_homomorphism(w, fsub(v, vn));
    lemma_lift_homomorphism(wn, 1);
    lemma_lift_homomorphism(wn, fsub(wn, 1));
    lemma_lift_homomorphism(fsub(an, a), vn);
}

/// The running permutation product stays coefficient-wise canonical.
pub proof fn lemma_running_product_valid(
    m: Seq<Vec<crate::field::Bfe>>,
    ch: Challenges,
    init: (int, int, int),
    i: int,
)
    requires
        xvalid(init),
    ensures
        xvalid(running_product(m, ch, init, i)),
    decreases i,
{
    if i <= 0 {
    } else {
        lemma_running_product_valid(m, ch, init, i - 1);
        if flag_of(m[i - 1]@) == 0 {
            lemma_xfield_valid(
                running_product(m, ch, init, i - 1),
                perm_factor(
                    ch,
                    lift_v(cycle_of(m[i - 1]@)),
                    lift_v(address_of(m[i - 1]@)),
                    lift_v(value_of(m[i - 1]@)),
                ),
            );
        }
    }
}

/// All seven extension transition constraints (the six lifted base ones and
/// the running-product identity) evaluate to the additive identity at the
/// extended pair `i`, `i + 1`: at the lifted residues of the two base rows
/// together with the running products before each.
pub open spec fn ext_transition_constraints_hold_at(
    m: Seq<Vec<crate::field::Bfe>>,
    ch: Challenges,
    init: (int, int, int),
    i: int,
) -> bool {
    let c = lift_v(cycle_of(m[i]@));
    let a = lift_v(address_of(m[i]@));
    let v = lift_v(value_of(m[i]@));
    let w = lift_v(flag_of(m[i]@));
    let cn = lift_v(cycle_of(m[i + 1]@));
    let an = lift_v(address_of(m[i + 1]@));
    let vn = lift_v(value_of(m[i + 1]@));
    let wn = lift_v(flag_of(m[i + 1]@));
    let perm = running_product(m, ch, init, i);
    let permn = running_product(m, ch, init, i + 1);
    &&& ext_trans_address_delta(a, an) == xzero_v()
    &&& ext_trans_cycle_step(c, a, cn, an) == xzero_v()
    &&& ext_trans_interweave_address(a, w, an) == xzero_v()
    &&& ext_trans_interweave_value(v, w, vn) == xzero_v()
    &&& ext_trans_flag_boolean(wn) == xzero_v()
    &&& ext_trans_fresh_zero(a, an, vn) == xzero_v()
    &&& ext_trans_permutation(ch, c, a, v, w, perm, permn) == xzero_v()
}

/// Extension consistency at one pair: where the base constraints vanish,
/// the lifted constraints vanish at the lifted pair, and the running-product
/// column satisfies its own transition identity, whatever the challenges and
/// the initial are.
pub proof fn lemma_extension_transition_zero(
    m: Seq<Vec<crate::field::Bfe>>,
    ch: Challenges,
    init: (int, int, int),
    i: int,
)
    requires
        rows_wf(m),
        xvalid(init),
        base_constraints_hold(m),
        0 <= i < m.len() - 1,
    ensures
        ext_transition_constraints_hold_at(m, ch, init, i),
{
    lemma_row_residues_valid(m, i);
    lemma_row_residues_valid(m, i + 1);
    let c = cycle_of(m[i]@);
    let a = address_of(m[i]@);
    let v = value_of(m[i]@);
    let w = flag_of(m[i]@);
    let cn = cycle_of(m[i + 1]@);
    let an = address_of(m[i + 1]@);
    let vn = value_of(m[i + 1]@);
    let wn = flag_of(m[i + 1]@);
    lemma_lift_transition_evaluations(c, a, v, w, cn, an, vn, wn);
    lemma_lift_homomorphism(0, 1);
    let fc = perm_factor(ch, lift_v(c), lift_v(a), lift_v(v));
    let perm = running_product(m, ch, init, i);
    let permn = running_product(m, ch, init, i + 1);
    lemma_running_product_valid(m, ch, init, i);
    lemma_running_product_valid(m, ch, init, i + 1);
    lemma_xfield_valid(
        xsub_v(xsub_v(ch.beta.vals(), xmul_v(ch.d.vals(), lift_v(c))), xmul_v(ch.e.vals(), lift_v(a))),
        xmul_v(ch.f.vals(), lift_v(v)),
    );
    lemma_xfield_valid(perm, fc);
    lemma_xfield_identities(xone_v());
    lemma_xfield_identities(fc);
    lemma_xfield_identities(perm);
    lemma_xfield_identities(xmul_v(perm, fc));
    if w == 0 {
        assert(permn == xmul_v(perm, fc));
    } else {
        assert(permn == perm);
    }
}

/// Extension consistency over the whole matrix: with the base constraints
/// vanishing everywhere, all seven lifted transition constraints vanish at
/// every adjacent pair of the extension, for every choice of challenges and
/// initial.
pub proof fn lemma_extension_consistency(
    m: Seq<Vec<crate::field::Bfe>>,
    ch: Challenges,
    init: (int, int, int),
)
    requires
        rows_wf(m),
        xvalid(init),
        base_constraints_hold(m),
    ensures
        forall|i: int|
            0 <= i < m.len() - 1 ==> #[trigger] ext_transition_constraints_hold_at(
                m,
                ch,
                init,
                i,
            ),
{
    assert forall|i: int|
        0 <= i < m.len() - 1 implies #[trigger] ext_transition_constraints_hold_at(
        m,
        ch,
        init,
        i,
    ) by {
        lemma_extension_transition_zero(m, ch, init, i);
    }
}

/// Terminal consistency: on the final extended row, the terminal constraint
/// evaluates to the additive identity when it is given the table's own
/// computed permutation terminal (the running product after the last row),
/// for every choice of challenges and initial.
pub proof fn lemma_terminal_consistency(
    m: Seq<Vec<crate::field::Bfe>>,
    ch: Challenges,
    init: (int, int, int),
)
    requires
        rows_wf(m),
        xvalid(init),
        m.len() >= 1,
    ensures
        ext_terminal(
            ch,
            running_product(m, ch, init, m.len() as int),
            lift_v(cycle_of(m[m.len() - 1]@)),
            lift_v(address_of(m[m.len() - 1]@)),
            lift_v(value_of(m[m.len() - 1]@)),
            lift_v(flag_of(m[m.len() - 1]@)),
            running_product(m, ch, init, m.len() - 1),
        ) == xzero_v(),
{
    let last = m.len() - 1;
    lemma_row_residues_valid(m, last);
    let c = cycle_of(m[last]@);
    let a = address_of(m[last]@);
    let v = value_of(m[last]@);
    let w = flag_of(m[last]@);
    let fc = perm_factor(ch, lift_v(c), lift_v(a), lift_v(v));
    let perm = running_product(m, ch, init, last);
    let term = running_product(m, ch, init, m.len() as int);
    lemma_running_product_valid(m, ch, init, last);
    lemma_running_product_valid(m, ch, init, m.len() as int);
    lemma_lift_homomorphism(0, 1);
    lemma_xfield_valid(
        xsub_v(xsub_v(ch.beta.vals(), xmul_v(ch.d.vals(), lift_v(c))), xmul_v(ch.e.vals(), lift_v(a))),
        xmul_v(ch.f.vals(), lift_v(v)),
    );
    lemma_xfield_valid(perm, fc);
    lemma_xfield_valid(xmul_v(perm, fc), term);
    lemma_xfield_valid(perm, term);
    lemma_xfield_identities(xone_v());
    lemma_xfield_identities(fc);
    lemma_xfield_identities(perm);
    lemma_xfield_identities(xmul_v(perm, fc));
    lemma_xfield_identities(xsub_v(xmul_v(perm, fc), term));
    lemma_xfield_identities(xsub_v(perm, term));
    lemma_xfield_identities(xzero_v());
    if w == 0 {
        assert(term == xmul_v(perm, fc));
    } else {
        assert(term == perm);
    }
}

/// Along a run of interweaved rows, cycles advance by one per row while
/// address and value repeat the run's first (genuine) row.
pub proof fn lemma_span_cycles(m: Seq<Vec<crate::field::Bfe>>, i: int, k: int)
    requires
        rows_wf(m),
        synthetic_rows_interpolate(m),
        0 <= i <= k < m.len(),
        forall|t: int| i < t <= k ==> flag_of(#[trigger] m[t]@) == 1,
        k - i < crate::field::P,
    ensures
        cycle_of(m[k]@) == fadd(cycle_of(m[i]@), k - i),
        address_of(m[k]@) == address_of(m[i]@),
        k > i ==> value_of(m[k]@) == value_of(m[i]@),
    decreases k - i,
{
    lemma_row_residues_valid(m, i);
    let c = cycle_of(m[i]@);
    if k == i {
        lemma_field_identities(c, 0);
    } else {
        lemma_span_cycles(m, i, k - 1);
        lemma_add_mod_noop(c + (k - 1 - i), 1, crate::field::P as int);
        lemma_small_mod(1nat, crate::field::P as nat);
    }
}

/// The interweaving count, as the end-to-end scenario asks it: between a
/// genuine access and the next genuine access to the same address, with only
/// interweaved rows in between, there stands exactly one row per missing
/// cycle — the cycles between the two accesses, consecutive and in order —
/// and each carries the earlier access's value. The cycle distance between
/// the two genuine rows equals the number of rows between them plus one.
pub proof fn lemma_interweaving_span(m: Seq<Vec<crate::field::Bfe>>, i: int, j: int)
    requires
        rows_wf(m),
        gap_free(m),
        synthetic_rows_interpolate(m),
        0 <= i < j < m.len(),
        address_of(m[j]@) == address_of(m[i]@),
        forall|t: int| i < t < j ==> flag_of(#[trigger] m[t]@) == 1,
        j - i < crate::field::P,
    ensures
        forall|k: int|
            i <= k <= j ==> cycle_of(#[trigger] m[k]@) == fadd(cycle_of(m[i]@), k - i),
        fsub(cycle_of(m[j]@), cycle_of(m[i]@)) == j - i,
        forall|k: int|
            i < k < j ==> value_of(#[trigger] m[k]@) == value_of(m[i]@) && address_of(m[k]@)
                == address_of(m[i]@),
{
    lemma_row_residues_valid(m, i);
    let c = cycle_of(m[i]@);
    assert forall|k: int| i <= k < j implies cycle_of(#[trigger] m[k]@) == fadd(c, k - i) by {
        lemma_span_cycles(m, i, k);
    }
    assert forall|k: int|
        i < k < j implies value_of(#[trigger] m[k]@) == value_of(m[i]@) && address_of(m[k]@)
        == address_of(m[i]@) by {
        lemma_span_cycles(m, i, k);
    }
    // The final step onto the genuine row `j` is forced by gap-freeness.
    lemma_span_cycles(m, i, j - 1);
    lemma_add_mod_noop(c + (j - 1 - i), 1, crate::field::P as int);
    lemma_small_mod(1nat, crate::field::P as nat);
    // The cycle distance across the span counts its rows.
    crate::field::lemma_fadd_cases(c, j - i);
    crate::field::lemma_fsub_cases(fadd(c, j - i), c);
}

/// All seven extension transition constraints evaluate to the additive
/// identity at the entries of two adjacent extended rows.
pub open spec fn ext_pair_constraints_vanish(
    ch: Challenges,
    r0: Seq<crate::xfield::Xfe>,
    r1: Seq<crate::xfield::Xfe>,
) -> bool {
    &&& ext_trans_address_delta(r0[1].vals(), r1[1].vals()) == xzero_v()
    &&& ext_trans_cycle_step(r0[0].vals(), r0[1].vals(), r1[0].vals(), r1[1].vals()) == xzero_v()
    &&& ext_trans_interweave_address(r0[1].vals(), r0[3].vals(), r1[1].vals()) == xzero_v()
    &&& ext_trans_interweave_value(r0[2].vals(), r0[3].vals(), r1[2].vals()) == xzero_v()
    &&& ext_trans_flag_boolean(r1[3].vals()) == xzero_v()
    &&& ext_trans_fresh_zero(r0[1].vals(), r1[1].vals(), r1[2].vals()) == xzero_v()
    &&& ext_trans_permutation(
        ch,
        r0[0].vals(),
        r0[1].vals(),
        r0[2].vals(),
        r0[3].vals(),
        r0[4].vals(),
        r1[4].vals(),
    ) == xzero_v()
}

/// Extension consistency on the extended matrix itself: where the base
/// matrix satisfies the base transition constraints, every adjacent pair of
/// the extended matrix the extension step builds satisfies all seven lifted
/// transition constraints, and the terminal constraint vanishes on the final
/// row against the computed permutation terminal — for every choice of
/// challenges and initial.
pub proof fn lemma_extended_matrix_consistency(
    em: Seq<Vec<crate::xfield::Xfe>>,
    m: Seq<Vec<crate::field::Bfe>>,
    ch: Challenges,
    init: (int, int, int),
    term: (int, int, int),
)
    requires
        rows_wf(m),
        xvalid(init),
        base_constraints_hold(m),
        em.len() == m.len(),
        forall|i: int|
            0 <= i < m.len() ==> crate::memory_table::extended_row_matches(
                #[trigger] em[i]@,
                m,
                ch,
                init,
                i,
            ),
        term == running_product(m, ch, init, m.len() as int),
    ensures
        forall|i: int|
            0 <= i < em.len() - 1 ==> #[trigger] ext_pair_constraints_vanish(
                ch,
                em[i]@,
                em[i + 1]@,
            ),
        em.len() >= 1 ==> ext_terminal(
            ch,
            term,
            em[em.len() - 1]@[0].vals(),
            em[em.len() - 1]@[1].vals(),
            em[em.len() - 1]@[2].vals(),
            em[em.len() - 1]@[3].vals(),
            em[em.len() - 1]@[4].vals(),
        ) == xzero_v(),
{
    assert forall|i: int|
        0 <= i < em.len() - 1 implies #[trigger] ext_pair_constraints_vanish(
        ch,
        em[i]@,
        em[i + 1]@,
    ) by {
        lemma_extension_transition_zero(m, ch, init, i);
    }
    if em.len() >= 1 {
        lemma_terminal_consistency(m, ch, init);
    }
}

/// The interweave flag of every extended row is the lift of zero or of one,
/// because the base matrix it was lifted from carries boolean flags.
pub proof fn lemma_extended_flags_boolean(
    em: Seq<Vec<crate::xfield::Xfe>>,
    m: Seq<Vec<crate::field::Bfe>>,
    ch: Challenges,
    init: (int, int, int),
)
    requires
        rows_wf(m),
        em.len() == m.len(),
        forall|i: int|
            0 <= i < m.len() ==> crate::memory_table::extended_row_matches(
                #[trigger] em[i]@,
                m,
                ch,
                init,
                i,
            ),
    ensures
        forall|i: int|
            0 <= i < em.len() ==> (#[trigger] em[i]@[crate::memory_table::INTERWEAVED as int]).vals()
                == lift_v(0) || em[i]@[crate::memory_table::INTERWEAVED as int].vals() == lift_v(1),
{
}

} // verus!
