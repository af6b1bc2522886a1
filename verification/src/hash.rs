//! The lattice hash: from integer lattice coordinates to a gradient index.
//!
//! Each integer lattice point is assigned a pseudo-random but repeatable
//! gradient direction by double indirection through the permutation table:
//! the y residue selects a byte, that byte perturbs the x residue, and the
//! perturbed sum selects the byte that is finally reduced into the gradient
//! table. Re-reducing the inner sum before the second lookup is what
//! decorrelates the two axes; skipping it would bias gradient selection.

use vstd::prelude::*;

use crate::tables::GradientTable;
use crate::tables::PERMUTATION_LEN;
use crate::tables::PermutationTable;
use crate::tables::byte_residue_class;
use crate::tables::is_permutation_table;
use crate::tables::lemma_gradient_selection_uniform;
use crate::tables::lemma_permutation_has_every_byte;
use vstd::arithmetic::div_mod::lemma_add_mod_noop;
use vstd::arithmetic::div_mod::lemma_add_mod_noop_right;
use vstd::arithmetic::div_mod::lemma_fundamental_div_mod;
use vstd::arithmetic::div_mod::lemma_mod_add_multiples_vanish;
use vstd::arithmetic::div_mod::lemma_mod_bound;
use vstd::arithmetic::div_mod::lemma_mod_equivalence;
use vstd::arithmetic::div_mod::lemma_mod_multiples_vanish;
use vstd::arithmetic::div_mod::lemma_small_mod;
use vstd::relations::injective_on;
use vstd::set_lib::lemma_int_range;
use vstd::set_lib::lemma_map_size;
use vstd::set_lib::set_int_range;

verus! {

/// Floored (Euclidean) remainder of `a` by a positive modulus `b`: the
/// residue always lands in `[0, b)`, also for negative `a`, so a negative
/// lattice coordinate wraps to the high end of the table instead of
/// producing a negative index.
pub fn rem_pos(a: isize, b: isize) -> (r: usize)
    requires
        0 < b,
    ensures
        r == a as int % b as int,
        r < b,
{
    let r = a % b;
    proof {
        let ai = a as int;
        let bi = b as int;
        if a < 0 {
            // Rust's `%` truncates toward zero: here `r == -((-ai) % bi)`.
            // Relate that remainder to the Euclidean residue of `ai`.
            let m = (-ai) % bi;
            let q = (-ai) / bi;
            lemma_fundamental_div_mod(-ai, bi);
            lemma_mod_bound(-ai, bi);
            assert(bi * q == -(bi * (-q))) by (nonlinear_arith);
            if m == 0 {
                lemma_mod_multiples_vanish(-q, 0, bi);
                assert(ai % bi == 0);
            } else {
                assert(bi * (-q - 1) == -(bi * q) - bi) by (nonlinear_arith);
                lemma_mod_multiples_vanish(-q - 1, bi - m, bi);
                lemma_small_mod((bi - m) as nat, bi as nat);
                assert(ai % bi == bi - m);
            }
        }
    }
    if r < 0 {
        (r + b) as usize
    } else {
        r as usize
    }
}

/// The gradient index the lattice hash assigns to the integer lattice
/// point `(xi, yi)`: each coordinate is reduced to its residue modulo the
/// table length, the y residue is passed through the table once, the sum
/// is re-reduced and passed through the table again, and the resulting
/// byte is reduced modulo the gradient direction count `n`.
pub open spec fn gradient_index(perm: Seq<u8>, xi: int, yi: int, n: int) -> int
    recommends
        perm.len() == PERMUTATION_LEN,
        0 < n,
{
    (perm[(xi % 256 + perm[yi % 256]) % 256] as int) % n
}

/// The 1D gradient-sign selector: the low bit of the hashed byte at each
/// of the two cell endpoints `x0` and `x0 + 1` picks that endpoint's
/// gradient sign, and the two bits are packed as `left * 2 + right`,
/// giving a selector in `[0, 4)`.
pub open spec fn gradient_pair(perm: Seq<u8>, x0: int) -> int
    recommends
        perm.len() == PERMUTATION_LEN,
{
    (perm[x0 % 256] % 2) * 2 + perm[(x0 + 1) % 256] % 2
}

/// Range law: the lattice hash always lands in `[0, n)`, whatever the
/// coordinates — negative ones included.
pub proof fn lemma_gradient_index_in_range(perm: Seq<u8>, xi: int, yi: int, n: int)
    requires
        perm.len() == PERMUTATION_LEN,
        0 < n,
    ensures
        0 <= gradient_index(perm, xi, yi, n) < n,
{
    lemma_mod_bound(perm[(xi % 256 + perm[yi % 256]) % 256] as int, n);
}

/// Residue law: the hash reads the lattice coordinates only through
/// their residues modulo the permutation table length, so congruent
/// coordinates always select the same gradient.
pub proof fn lemma_gradient_index_congruent(
    perm: Seq<u8>,
    xi: int,
    yi: int,
    xj: int,
    yj: int,
    n: int,
)
    requires
        xi % 256 == xj % 256,
        yi % 256 == yj % 256,
    ensures
        gradient_index(perm, xi, yi, n) == gradient_index(perm, xj, yj, n),
{
}

/// Periodicity law: moving either lattice coordinate by the permutation
/// table length (256) leaves the gradient index unchanged, so the noise
/// field tiles with period 256 along both axes.
pub proof fn lemma_gradient_index_periodic(perm: Seq<u8>, xi: int, yi: int, n: int)
    requires
        perm.len() == PERMUTATION_LEN,
        0 < n,
    ensures
        gradient_index(perm, xi + 256, yi, n) == gradient_index(perm, xi, yi, n),
        gradient_index(perm, xi, yi + 256, n) == gradient_index(perm, xi, yi, n),
{
    lemma_mod_add_multiples_vanish(xi, 256);
    lemma_mod_add_multiples_vanish(yi, 256);
}

/// The lattice columns of one period whose hash lands on gradient index
/// `g`: the `xi` in `[0, 256)` with `gradient_index(perm, xi, yi, n) == g`.
pub open spec fn columns_with_index(perm: Seq<u8>, yi: int, n: int, g: int) -> Set<int> {
    set_int_range(0, 256).filter(|xi: int| gradient_index(perm, xi, yi, n) == g)
}

/// Distribution law: with a full byte permutation as the table, every
/// gradient index is assigned to exactly `256 / n` of the 256 lattice
/// columns of one period, at every row — gradient selection is uniform.
pub proof fn lemma_gradient_index_uniform(perm: Seq<u8>, yi: int, n: int, g: int)
    requires
        is_permutation_table(perm),
        0 < n,
        256int % n == 0,
        0 <= g < n,
    ensures
        columns_with_index(perm, yi, n, g).len() == 256int / n,
{
    broadcast use vstd::set::group_set_axioms;

    let c = perm[yi % 256] as int;
    let cols = columns_with_index(perm, yi, n, g);
    let class = byte_residue_class(n, g);
    let h = |xi: int| perm[(xi + c) % 256] as int;

    lemma_mod_bound(yi, 256);
    lemma_int_range(0, 256);
    set_int_range(0, 256).lemma_len_filter(|xi: int| gradient_index(perm, xi, yi, n) == g);

    assert(injective_on(h, cols)) by {
        assert forall|x1: int, x2: int|
            cols.contains(x1) && cols.contains(x2) && #[trigger] h(x1) == #[trigger] h(
                x2,
            ) implies x1 == x2 by {
            let j1 = (x1 + c) % 256;
            let j2 = (x2 + c) % 256;
            lemma_mod_bound(x1 + c, 256);
            lemma_mod_bound(x2 + c, 256);
            if j1 != j2 {
                // A permutation has distinct entries, so equal hashed
                // bytes force equal reduced indices.
                if j1 < j2 {
                    assert(perm[j1] != perm[j2]);
                } else {
                    assert(perm[j2] != perm[j1]);
                }
            }
            lemma_mod_equivalence(x1 + c, x2 + c, 256);
            if x1 > x2 {
                lemma_small_mod((x1 - x2) as nat, 256nat);
            } else if x2 > x1 {
                lemma_mod_equivalence(x2 + c, x1 + c, 256);
                lemma_small_mod((x2 - x1) as nat, 256nat);
            }
        }
    }

    assert(cols.map(h) =~= class) by {
        assert forall|v: int| #[trigger] cols.map(h).contains(v) implies class.contains(v) by {
            let xi = choose|xi: int| cols.contains(xi) && v == h(xi);
            lemma_small_mod(xi as nat, 256nat);
            lemma_mod_bound(xi + c, 256);
            assert(v % n == g);
            assert(0 <= v < 256);
        }
        assert forall|v: int| #[trigger] class.contains(v) implies cols.map(h).contains(v) by {
            lemma_permutation_has_every_byte(perm);
            assert(perm.contains(v as u8));
            let j = choose|j: int| 0 <= j < perm.len() && perm[j] == v as u8;
            let xi = (j - c) % 256;
            lemma_mod_bound(j - c, 256);
            lemma_add_mod_noop_right(c, j - c, 256);
            lemma_small_mod(j as nat, 256nat);
            assert((xi + c) % 256 == j);
            lemma_small_mod(xi as nat, 256nat);
            assert(gradient_index(perm, xi, yi, n) == g);
            assert(cols.contains(xi) && h(xi) == v);
        }
    }

    lemma_map_size(cols, class, h);
    lemma_gradient_selection_uniform(n, g);
}

/// Bitmask law: for a 256-entry table, the mask `& 255` agrees with the
/// modulo reduction, so the two are interchangeable oracles for each
/// other. This rests on the table length being a power of two.
pub proof fn lemma_mask_is_mod_256(x: usize)
    ensures
        x & 255 == x % 256,
        x & 255 < 256,
{
    assert(x & 255 == x % 256 && x & 255 < 256) by (bit_vector);
}

/// Bitmask law for a 32-entry gradient table: `& 31` agrees with `% 32`.
pub proof fn lemma_mask_is_mod_32(x: usize)
    ensures
        x & 31 == x % 32,
        x & 31 < 32,
{
    assert(x & 31 == x % 32 && x & 31 < 32) by (bit_vector);
}

impl PermutationTable {
    /// Hashes the integer lattice point `(xi, yi)` to an index into a
    /// gradient table, reducing with `rem_pos` and `%`. The result is
    /// pinned to `gradient_index`, so equal coordinates and equal tables
    /// always give the same index.
    pub fn gradient_index_2d(&self, xi: isize, yi: isize, gradients: &GradientTable) -> (r: usize)
        requires
            self.wf(),
            gradients.wf(),
        ensures
            r == gradient_index(self@, xi as int, yi as int, gradients.count()),
            r < gradients.count(),
    {
        let xr = rem_pos(xi, PERMUTATION_LEN as isize);
        let yr = rem_pos(yi, PERMUTATION_LEN as isize);
        let perturbed = self.lookup(yr) as usize;
        let idx = (xr + perturbed) % PERMUTATION_LEN;
        proof {
            lemma_mod_bound((xr + perturbed) as int, PERMUTATION_LEN as int);
        }
        let hashed = self.lookup(idx) as usize;
        let n = gradients.len();
        proof {
            lemma_mod_bound(hashed as int, n as int);
        }
        hashed % n
    }

    /// The same hash, reducing with bitmasks instead of `rem_pos` and `%`:
    /// the shortcut the evaluators use on the hot path for the 32-entry
    /// gradient table. Its result is pinned to the same `gradient_index`
    /// as `gradient_index_2d`, so the two are interchangeable.
    pub fn gradient_index_2d_masked(&self, xi: usize, yi: usize, gradients: &GradientTable) -> (r:
        usize)
        requires
            self.wf(),
            gradients.wf(),
            gradients.count() == 32,
        ensures
            r == gradient_index(self@, xi as int, yi as int, 32),
            r < 32,
    {
        let xr = xi & 255;
        let yr = yi & 255;
        proof {
            lemma_mask_is_mod_256(xi);
            lemma_mask_is_mod_256(yi);
        }
        let perturbed = self.lookup(yr) as usize;
        let idx = (xr + perturbed) & 255;
        proof {
            lemma_mask_is_mod_256((xr + perturbed) as usize);
        }
        let hashed = self.lookup(idx);
        let r = (hashed & 31) as usize;
        proof {
            lemma_mask_is_mod_32(hashed as usize);
            assert(hashed & 31 == (hashed as usize) & 31) by (bit_vector);
        }
        r
    }

    /// The 1D hash: packs the gradient signs of the two cell endpoints
    /// `x0` and `x0 + 1` into a selector in `[0, 4)`, as `gradient_pair`
    /// states.
    pub fn gradient_pair_1d(&self, x0: isize) -> (r: usize)
        requires
            self.wf(),
        ensures
            r == gradient_pair(self@, x0 as int),
            r < 4,
    {
        let x0r = rem_pos(x0, PERMUTATION_LEN as isize);
        let x1r = if x0r == PERMUTATION_LEN - 1 {
            0
        } else {
            x0r + 1
        };
        proof {
            lemma_add_mod_noop(x0 as int, 1, 256);
            lemma_small_mod(1nat, 256nat);
            if x0r == 255 {
                lemma_mod_multiples_vanish(1, 0, 256);
            } else {
                lemma_small_mod((x0r + 1) as nat, 256nat);
            }
            assert(x1r == (x0 as int + 1) % 256);
        }
        let left = self.lookup(x0r) & 1;
        let right = self.lookup(x1r) & 1;
        let r = ((left << 1u8) | right) as usize;
        proof {
            let a = self@[x0r as int];
            let b = self@[x1r as int];
            assert((((a & 1) << 1u8) | (b & 1)) == (a % 2) * 2 + b % 2) by (bit_vector);
        }
        r
    }

    /// The gradient indices of the four lattice corners around the cell
    /// whose origin is `(xi, yi)`: origin, right, above, diagonal. The
    /// corners are hashed through residues, so the `+ 1` of the far
    /// corners can never overflow, whatever `(xi, yi)` is.
    pub fn corner_gradient_indices_2d(&self, xi: isize, yi: isize, gradients: &GradientTable) -> (r:
        (usize, usize, usize, usize))
        requires
            self.wf(),
            gradients.wf(),
        ensures
            r.0 == gradient_index(self@, xi as int, yi as int, gradients.count()),
            r.1 == gradient_index(self@, xi as int + 1, yi as int, gradients.count()),
            r.2 == gradient_index(self@, xi as int, yi as int + 1, gradients.count()),
            r.3 == gradient_index(self@, xi as int + 1, yi as int + 1, gradients.count()),
            r.0 < gradients.count(),
            r.1 < gradients.count(),
            r.2 < gradients.count(),
            r.3 < gradients.count(),
    {
        let xr = rem_pos(xi, PERMUTATION_LEN as isize);
        let yr = rem_pos(yi, PERMUTATION_LEN as isize);
        proof {
            lemma_small_mod(xr as nat, 256nat);
            lemma_small_mod(yr as nat, 256nat);
            lemma_small_mod(1nat, 256nat);
            lemma_add_mod_noop(xi as int, 1, 256);
            lemma_add_mod_noop(yi as int, 1, 256);
            assert((xr + 1) % 256 == (xi as int + 1) % 256);
            assert((yr + 1) % 256 == (yi as int + 1) % 256);
        }
        let i00 = self.gradient_index_2d(xr as isize, yr as isize, gradients);
        let i10 = self.gradient_index_2d(xr as isize + 1, yr as isize, gradients);
        let i01 = self.gradient_index_2d(xr as isize, yr as isize + 1, gradients);
        let i11 = self.gradient_index_2d(xr as isize + 1, yr as isize + 1, gradients);
        proof {
            let n = gradients.count();
            lemma_gradient_index_congruent(self@, xr as int, yr as int, xi as int, yi as int, n);
            lemma_gradient_index_congruent(
                self@,
                xr as int + 1,
                yr as int,
                xi as int + 1,
                yi as int,
                n,
            );
            lemma_gradient_index_congruent(
                self@,
                xr as int,
                yr as int + 1,
                xi as int,
                yi as int + 1,
                n,
            );
            lemma_gradient_index_congruent(
                self@,
                xr as int + 1,
                yr as int + 1,
                xi as int + 1,
                yi as int + 1,
                n,
            );
        }
        (i00, i10, i01, i11)
    }

    /// The four corner indices for the masked hash: what the simplex
    /// evaluator fetches for the cell whose lattice-space origin is
    /// `(xi, yi)`.
    pub fn corner_gradient_indices_2d_masked(
        &self,
        xi: usize,
        yi: usize,
        gradients: &GradientTable,
    ) -> (r: (usize, usize, usize, usize))
        requires
            self.wf(),
            gradients.wf(),
            gradients.count() == 32,
        ensures
            r.0 == gradient_index(self@, xi as int, yi as int, 32),
            r.1 == gradient_index(self@, xi as int + 1, yi as int, 32),
            r.2 == gradient_index(self@, xi as int, yi as int + 1, 32),
            r.3 == gradient_index(self@, xi as int + 1, yi as int + 1, 32),
            r.0 < 32,
            r.1 < 32,
            r.2 < 32,
            r.3 < 32,
    {
        let xr = xi & 255;
        let yr = yi & 255;
        proof {
            lemma_mask_is_mod_256(xi);
            lemma_mask_is_mod_256(yi);
            lemma_small_mod(xr as nat, 256nat);
            lemma_small_mod(yr as nat, 256nat);
            lemma_small_mod(1nat, 256nat);
            lemma_add_mod_noop(xi as int, 1, 256);
            lemma_add_mod_noop(yi as int, 1, 256);
            assert((xr + 1) % 256 == (xi as int + 1) % 256);
            assert((yr + 1) % 256 == (yi as int + 1) % 256);
        }
        let i00 = self.gradient_index_2d_masked(xr, yr, gradients);
        let i10 = self.gradient_index_2d_masked(xr + 1, yr, gradients);
        let i01 = self.gradient_index_2d_masked(xr, yr + 1, gradients);
        let i11 = self.gradient_index_2d_masked(xr + 1, yr + 1, gradients);
        proof {
            lemma_gradient_index_congruent(self@, xr as int, yr as int, xi as int, yi as int, 32);
            lemma_gradient_index_congruent(
                self@,
                xr as int + 1,
                yr as int,
                xi as int + 1,
                yi as int,
                32,
            );
            lemma_gradient_index_congruent(
                self@,
                xr as int,
                yr as int + 1,
                xi as int,
                yi as int + 1,
                32,
            );
            lemma_gradient_index_congruent(
                self@,
                xr as int + 1,
                yr as int + 1,
                xi as int + 1,
                yi as int + 1,
                32,
            );
        }
        (i00, i10, i01, i11)
    }
}

} // verus!
