//! The two immutable tables the noise core reads: a 256-entry permutation
//! table and a table of gradient directions.
//!
//! The permutation table is a shuffled sequence of bytes used as a hash
//! from integer lattice coordinates to gradient indices. The gradient
//! table is modelled here by its direction count alone: the verified core
//! only ever reads that count (to reduce a hashed byte into an index),
//! while the unit direction vectors themselves are floating-point data
//! owned by the renderer side.

use vstd::prelude::*;
use vstd::arithmetic::div_mod::lemma_fundamental_div_mod;
use vstd::arithmetic::div_mod::lemma_mod_multiples_vanish;
use vstd::arithmetic::div_mod::lemma_small_mod;
use vstd::relations::injective_on;
use vstd::set_lib::FiniteRange;
use vstd::set_lib::lemma_int_range;
use vstd::set_lib::lemma_map_size;
use vstd::set_lib::lemma_subset_equality;
use vstd::set_lib::set_int_range;

verus! {

/// Number of entries in a permutation table. A power of two, so that
/// index wrap-around can use a bitmask as well as a modulo reduction.
pub const PERMUTATION_LEN: usize = 256;

/// Whether `n` is a positive power of two.
pub open spec fn is_pow2(n: int) -> bool
    decreases n,
{
    if n <= 0 {
        false
    } else if n == 1 {
        true
    } else {
        n % 2 == 0 && is_pow2(n / 2)
    }
}

/// Whether `s` is a full permutation of the byte values: 256 entries,
/// no value repeated (hence, every byte value appears exactly once).
pub open spec fn is_permutation_table(s: Seq<u8>) -> bool {
    &&& s.len() == PERMUTATION_LEN
    &&& forall|i: int, j: int| 0 <= i < j < s.len() ==> s[i] != s[j]
}

/// A 256-entry lookup table of bytes, consumed from an external shuffle
/// and immutable afterwards; every noise evaluation reads it through the
/// lattice hash.
pub struct PermutationTable {
    entries: Vec<u8>,
}

impl View for PermutationTable {
    type V = Seq<u8>;

    closed spec fn view(&self) -> Seq<u8> {
        self.entries@
    }
}

impl PermutationTable {
    /// The load-bearing table invariant: exactly 256 entries, so that
    /// a residue in `[0, 256)` is always a valid index and the bitmask
    /// `& 255` agrees with the modulo reduction.
    pub open spec fn wf(&self) -> bool {
        self@.len() == PERMUTATION_LEN
    }

    /// Wraps a caller-provided table. The length is a precondition, not
    /// a runtime check: a table of the wrong size is a programming error.
    pub fn new(entries: Vec<u8>) -> (t: Self)
        requires
            entries@.len() == PERMUTATION_LEN,
        ensures
            t.wf(),
            t@ == entries@,
    {
        PermutationTable { entries }
    }

    /// Checked construction: accepts exactly the full byte permutations
    /// and rejects everything else.
    pub fn from_entries(entries: Vec<u8>) -> (r: Option<Self>)
        ensures
            r is Some <==> is_permutation_table(entries@),
            r matches Some(t) ==> t.wf() && t@ == entries@,
    {
        if is_permutation(&entries) {
            Some(PermutationTable { entries })
        } else {
            None
        }
    }

    /// The identity table (entry `i` holds `i`): a fixed, deterministic
    /// stand-in for a shuffled table, useful for repeatable tests.
    pub fn identity() -> (t: Self)
        ensures
            t.wf(),
            is_permutation_table(t@),
            forall|i: int| 0 <= i < PERMUTATION_LEN ==> t@[i] == i,
    {
        let mut entries: Vec<u8> = Vec::new();
        let mut i: usize = 0;
        while i < PERMUTATION_LEN
            invariant
                i <= PERMUTATION_LEN,
                entries@.len() == i,
                forall|j: int| 0 <= j < i ==> entries@[j] == j,
            decreases PERMUTATION_LEN - i,
        {
            entries.push(i as u8);
            i = i + 1;
        }
        PermutationTable { entries }
    }

    pub fn len(&self) -> (n: usize)
        ensures
            n == self@.len(),
    {
        self.entries.len()
    }

    pub fn lookup(&self, i: usize) -> (v: u8)
        requires
            i < self@.len(),
        ensures
            v == self@[i as int],
    {
        self.entries[i]
    }
}

/// Decides whether `entries` is a full permutation of the byte values,
/// by marking each value as it is seen and rejecting the first repeat.
pub fn is_permutation(entries: &Vec<u8>) -> (r: bool)
    ensures
        r == is_permutation_table(entries@),
{
    if entries.len() != PERMUTATION_LEN {
        return false;
    }
    let mut seen: Vec<bool> = Vec::new();
    let mut v: usize = 0;
    while v < PERMUTATION_LEN
        invariant
            v <= PERMUTATION_LEN,
            seen@.len() == v,
            forall|w: int| 0 <= w < v ==> !seen@[w],
        decreases PERMUTATION_LEN - v,
    {
        seen.push(false);
        v = v + 1;
    }
    let mut k: usize = 0;
    while k < PERMUTATION_LEN
        invariant
            k <= PERMUTATION_LEN,
            entries@.len() == PERMUTATION_LEN,
            seen@.len() == PERMUTATION_LEN,
            forall|w: int| 0 <= w < PERMUTATION_LEN ==>
                (seen@[w] <==> exists|i: int| 0 <= i < k && entries@[i] == w),
            forall|i: int, j: int| 0 <= i < j < k ==> entries@[i] != entries@[j],
        decreases PERMUTATION_LEN - k,
    {
        let value = entries[k] as usize;
        if seen[value] {
            proof {
                let i = choose|i: int| 0 <= i < k && entries@[i] == value;
                assert(entries@[i] == entries@[k as int]);
            }
            return false;
        }
        seen.set(value, true);
        k = k + 1;
    }
    true
}

/// The direction count of a gradient table: how many evenly spaced unit
/// direction vectors the renderer side holds. The hashed byte is reduced
/// modulo this count to pick a direction, so the count must be a power of
/// two that divides the permutation table length evenly; otherwise the
/// reduction would favour some directions over others.
pub struct GradientTable {
    directions: usize,
}

impl GradientTable {
    /// The number of gradient directions.
    pub closed spec fn count(&self) -> int {
        self.directions as int
    }

    /// The gradient-table invariant: a positive power of two that
    /// divides the permutation table length evenly.
    pub open spec fn wf(&self) -> bool {
        &&& is_pow2(self.count())
        &&& PERMUTATION_LEN as int % self.count() == 0
    }

    /// Describes a gradient table of `directions` unit vectors. The shape
    /// invariant is a precondition, as for the permutation table.
    pub fn new(directions: usize) -> (t: Self)
        requires
            is_pow2(directions as int),
            PERMUTATION_LEN as int % directions as int == 0,
        ensures
            t.wf(),
            t.count() == directions,
    {
        GradientTable { directions }
    }

    pub fn len(&self) -> (n: usize)
        ensures
            n == self.count(),
    {
        self.directions
    }
}

/// Completeness law: a full byte permutation contains every byte value
/// (and with its entries pairwise distinct, each exactly once) — 256
/// pairwise distinct bytes can only be all of them.
pub proof fn lemma_permutation_has_every_byte(s: Seq<u8>)
    requires
        is_permutation_table(s),
    ensures
        forall|v: u8| #[trigger] s.contains(v),
{
    broadcast use vstd::set::group_set_axioms;

    assert(s.no_duplicates()) by {
        assert forall|i: int, j: int|
            0 <= i < s.len() && 0 <= j < s.len() && i != j implies s[i] != s[j] by {
            if i < j {
                assert(s[i] != s[j]);
            } else {
                assert(s[j] != s[i]);
            }
        }
    }
    s.unique_seq_to_set();
    let all = Set::<u8>::full();
    let below = Set::<u8>::range(0, 255);
    <u8 as FiniteRange>::range_properties(0, 255);
    assert(all =~= below.insert(255u8));
    assert(all.len() == 256);
    assert(s.to_set().subset_of(all));
    lemma_subset_equality(s.to_set(), all);
    assert forall|v: u8| #[trigger] s.contains(v) by {
        assert(s.to_set().contains(v));
    }
}

/// The power-of-two direction counts a 256-entry permutation table can
/// be reduced into: callers use this to discharge the shape precondition
/// of `GradientTable::new` for a concrete count.
pub proof fn lemma_pow2_up_to_256()
    ensures
        is_pow2(1),
        is_pow2(2),
        is_pow2(4),
        is_pow2(8),
        is_pow2(16),
        is_pow2(32),
        is_pow2(64),
        is_pow2(128),
        is_pow2(256),
{
    reveal_with_fuel(is_pow2, 10);
}

/// Table-invariant law: a well-formed permutation table has exactly
/// 256 entries.
pub proof fn lemma_permutation_table_len(t: &PermutationTable)
    requires
        t.wf(),
    ensures
        t@.len() == 256,
{
}

/// The byte values whose reduction modulo the direction count `n` lands
/// on the gradient index `g`.
pub open spec fn byte_residue_class(n: int, g: int) -> Set<int> {
    set_int_range(0, 256).filter(|v: int| v % n == g)
}

/// Uniformity law: when the direction count `n` divides 256 evenly,
/// every gradient index `g` is produced by exactly `256 / n` of the byte
/// values. Together with the completeness law this is why the shape
/// invariant matters: a permutation table realizes each byte exactly
/// once, so every gradient direction is selected equally often.
pub proof fn lemma_gradient_selection_uniform(n: int, g: int)
    requires
        0 < n,
        256int % n == 0,
        0 <= g < n,
    ensures
        byte_residue_class(n, g).len() == 256int / n,
{
    broadcast use vstd::set::group_set_axioms;

    let class = byte_residue_class(n, g);
    let m = 256int / n;
    let dom = set_int_range(0, m);
    let f = |k: int| g + k * n;

    lemma_fundamental_div_mod(256, n);
    assert(n * m == 256);
    assert(m > 0) by (nonlinear_arith)
        requires
            n * m == 256,
            0 < n,
    ;
    lemma_int_range(0, m);

    assert(injective_on(f, dom)) by {
        assert forall|k1: int, k2: int|
            dom.contains(k1) && dom.contains(k2) && #[trigger] f(k1) == #[trigger] f(
                k2,
            ) implies k1 == k2 by {
            assert(k1 * n == k2 * n);
            assert(k1 == k2) by (nonlinear_arith)
                requires
                    k1 * n == k2 * n,
                    n > 0,
            ;
        }
    }

    assert(dom.map(f) =~= class) by {
        assert forall|v: int| #[trigger] class.contains(v) implies dom.map(f).contains(v) by {
            let k = v / n;
            lemma_fundamental_div_mod(v, n);
            assert(v == n * k + g);
            assert(0 <= k < m) by (nonlinear_arith)
                requires
                    v == n * k + g,
                    n * m == 256,
                    0 <= v < 256,
                    0 <= g < n,
            ;
            assert(dom.contains(k) && f(k) == v);
        }
        assert forall|v: int| #[trigger] dom.map(f).contains(v) implies class.contains(v) by {
            let k = choose|k: int| dom.contains(k) && v == f(k);
            assert(0 <= v < 256) by (nonlinear_arith)
                requires
                    v == g + k * n,
                    0 <= k < m,
                    n * m == 256,
                    0 <= g < n,
            ;
            assert(v == n * k + g);
            lemma_mod_multiples_vanish(k, g, n);
            lemma_small_mod(g as nat, n as nat);
            assert(v % n == g);
        }
    }

    lemma_map_size(dom, class, f);
}

/// Table-invariant law: a well-formed gradient table holds a positive
/// power-of-two direction count that divides the permutation table
/// length evenly.
pub proof fn lemma_gradient_table_shape(g: &GradientTable)
    requires
        g.wf(),
    ensures
        0 < g.count(),
        is_pow2(g.count()),
        256int % g.count() == 0,
{
}

} // verus!
