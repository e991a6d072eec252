//! The generic trace-table container: a base-field matrix with its geometry
//! (length, power-of-two height, randomizer count, evaluation-domain
//! generator and order), the extension-field matrix and both codeword sets
//! once extended, and a table-specific auxiliary state.

use vstd::prelude::*;
use crate::field::{Bfe, fpow};
use crate::xfield::Xfe;

verus! {

/// Whether `n` is a power of two.
pub open spec fn is_pow2(n: nat) -> bool
    decreases n,
{
    if n == 0 {
        false
    } else if n == 1 {
        true
    } else {
        n % 2 == 0 && is_pow2(n / 2)
    }
}

/// The smallest power of two that is at least `n` (and at least 1).
pub open spec fn next_pow2(n: nat) -> nat
    decreases n,
{
    if n <= 1 {
        1
    } else {
        2 * next_pow2((n + 1) / 2)
    }
}

/// `next_pow2` names the smallest power of two at or above its argument.
pub proof fn lemma_next_pow2(n: nat)
    ensures
        next_pow2(n) >= n,
        next_pow2(n) >= 1,
        is_pow2(next_pow2(n)),
        forall|m: nat| is_pow2(m) && m >= n ==> m >= next_pow2(n),
    decreases n,
{
    if n <= 1 {
        assert(is_pow2(1));
    } else {
        lemma_next_pow2((n + 1) / 2);
        assert(2 * next_pow2((n + 1) / 2) >= n);
        assert forall|m: nat| is_pow2(m) && m >= n implies m >= next_pow2(n) by {
            assert(m >= 2);
            assert(m % 2 == 0 && is_pow2(m / 2));
            assert(m / 2 >= (n + 1) / 2);
            assert(m / 2 >= next_pow2((n + 1) / 2));
        }
    }
}

/// The table-specific auxiliary state a trace table carries besides the
/// shared geometry: created neutral at construction, filled by that table's
/// own extension step.
pub trait TableMoreTrait: Sized {
    /// Whether the auxiliary state still holds its neutral construction
    /// value.
    spec fn is_initial(self) -> bool;

    /// The neutral auxiliary state a fresh table starts from.
    fn new_more() -> (r: Self)
        ensures
            r.is_initial(),
    ;
}

/// The generic trace-table container.
pub struct Table<T> {
    /// Number of base-field columns.
    pub base_width: usize,
    /// Number of columns after extension.
    pub full_width: usize,
    /// Number of rows before padding.
    pub length: usize,
    /// Number of blinding rows accounted for in the geometry.
    pub num_randomizers: usize,
    /// Padded length: the smallest power of two at or above `length`.
    pub height: usize,
    /// Generator of the evaluation domain the codewords live on.
    pub generator: Bfe,
    /// Order of `generator`.
    pub order: usize,
    /// Generator of the subgroup matching the table height:
    /// `generator^(order / height)`.
    pub omicron: Bfe,
    /// The base-field matrix.
    pub matrix: Vec<Vec<Bfe>>,
    /// The extension-field matrix, filled by the extension step.
    pub extended_matrix: Vec<Vec<Xfe>>,
    /// Base-field low-degree-extension codewords, filled by an external
    /// interpolation step and only stored here.
    pub codewords: Vec<Vec<Bfe>>,
    /// Extension-field codewords: the lift of `codewords`.
    pub extended_codewords: Vec<Vec<Xfe>>,
    /// The table's display name.
    pub name: &'static str,
    /// Table-specific auxiliary state.
    pub more: T,
}

impl<T: TableMoreTrait> Table<T> {
    /// A fresh table: stores the given geometry, derives `height` and
    /// `omicron`, and starts with empty matrices and neutral auxiliary state.
    pub fn new(
        base_width: usize,
        full_width: usize,
        length: usize,
        num_randomizers: usize,
        generator: Bfe,
        order: usize,
        name: &'static str,
    ) -> (r: Self)
        requires
            length <= 0x4000_0000,
        ensures
            r.base_width == base_width,
            r.full_width == full_width,
            r.length == length,
            r.num_randomizers == num_randomizers,
            r.generator == generator,
            r.order == order,
            r.name == name,
            r.height == (if length == 0 {
                0nat
            } else {
                next_pow2(length as nat)
            }),
            r.omicron.val() == (if r.height > 0 && order as int % (r.height as int) == 0 {
                fpow(generator.val(), (order as int / r.height as int) as nat)
            } else {
                1
            }),
            r.matrix@ =~= Seq::<Vec<Bfe>>::empty(),
            r.extended_matrix@ =~= Seq::<Vec<Xfe>>::empty(),
            r.codewords@ =~= Seq::<Vec<Bfe>>::empty(),
            r.extended_codewords@ =~= Seq::<Vec<Xfe>>::empty(),
            r.more.is_initial(),
    {
        let height = Self::derive_height(length);
        let omicron = if height > 0 && order % height == 0 {
            generator.pow((order / height) as u64)
        } else {
            Bfe::one()
        };
        Table {
            base_width,
            full_width,
            length,
            num_randomizers,
            height,
            generator,
            order,
            omicron,
            matrix: Vec::new(),
            extended_matrix: Vec::new(),
            codewords: Vec::new(),
            extended_codewords: Vec::new(),
            name,
            more: T::new_more(),
        }
    }

    /// The padded height for a table of `length` rows: zero for the
    /// degenerate empty table, else the smallest power of two at or above
    /// `length`.
    pub fn derive_height(length: usize) -> (h: usize)
        requires
            length <= 0x4000_0000,
        ensures
            h as nat == (if length == 0 {
                0nat
            } else {
                next_pow2(length as nat)
            }),
    {
        if length == 0 {
            return 0;
        }
        proof {
            lemma_next_pow2(length as nat);
        }
        let mut h: usize = 1;
        while h < length
            invariant
                length <= 0x4000_0000,
                1 <= h,
                is_pow2(h as nat),
                h as nat <= next_pow2(length as nat),
            decreases next_pow2(length as nat) - h,
        {
            proof {
                lemma_next_pow2(length as nat);
                lemma_pow2_double_below(h as nat, next_pow2(length as nat));
            }
            h = h * 2;
        }
        proof {
            lemma_next_pow2(length as nat);
        }
        h
    }
}

/// Between one power of two and a larger one there is room for a factor of
/// two.
pub proof fn lemma_pow2_double_below(a: nat, b: nat)
    requires
        is_pow2(a),
        is_pow2(b),
        a < b,
    ensures
        2 * a <= b,
    decreases b,
{
    if a == 1 {
        assert(b % 2 == 0 && is_pow2(b / 2));
    } else {
        lemma_pow2_double_below(a / 2, b / 2);
    }
}

} // verus!
