use vstd::prelude::*;

use crate::helper::random_i32_in_range;

verus! {

broadcast use {
    vstd::seq_lib::group_to_multiset_ensures,
    vstd::multiset::group_multiset_axioms,
};

/// Number of lattice points in each permutation table.
pub const POINT_COUNT: usize = 256;

/// The sequence `0, 1, ..., n - 1`.
pub open spec fn identity_seq(n: nat) -> Seq<usize> {
    Seq::new(n, |i: int| i as usize)
}

/// `s` holds each of `0, 1, ..., n - 1` exactly once.
pub open spec fn is_permutation_of_range(s: Seq<usize>, n: nat) -> bool {
    s.to_multiset() == identity_seq(n).to_multiset()
}

/// The table slot that a lattice coordinate wraps to: its low eight bits.
pub open spec fn wrap_lattice(c: i32) -> int {
    (c & 255i32) as int
}

/// The hash of the lattice point `(i, j, k)`: the three permuted coordinates xor-ed.
pub open spec fn lattice_hash(px: Seq<usize>, py: Seq<usize>, pz: Seq<usize>, i: i32, j: i32, k: i32) -> usize {
    px[wrap_lattice(i)] ^ py[wrap_lattice(j)] ^ pz[wrap_lattice(k)]
}

/// Every element of a permutation of `0..n` is below `n`.
pub proof fn lemma_permutation_elements_bounded(s: Seq<usize>, n: nat, idx: int)
    requires
        is_permutation_of_range(s, n),
        0 <= idx < s.len(),
    ensures
        s[idx] < n,
{
    let x: usize = s[idx];
    assert(s.contains(x));
    assert(s.to_multiset().count(x) > 0);
    assert(identity_seq(n).to_multiset().count(x) > 0);
    assert(identity_seq(n).contains(x));
    let w: int = choose|w: int| 0 <= w < identity_seq(n).len() && identity_seq(n)[w] == x;
    assert(identity_seq(n)[w] == w as usize);
}

/// The lattice repeats every 256 points along each axis: shifting any one
/// coordinate by 256 (with the wrap-around of `i32`) hits the same table slot,
/// so `Perlin::corner` returns the same gradient.
pub proof fn lemma_lattice_hash_periodic(
    px: Seq<usize>,
    py: Seq<usize>,
    pz: Seq<usize>,
    i: i32,
    j: i32,
    k: i32,
)
    ensures
        lattice_hash(px, py, pz, (i + 256) as i32, j, k) == lattice_hash(px, py, pz, i, j, k),
        lattice_hash(px, py, pz, i, (j + 256) as i32, k) == lattice_hash(px, py, pz, i, j, k),
        lattice_hash(px, py, pz, i, j, (k + 256) as i32) == lattice_hash(px, py, pz, i, j, k),
{
    assert(((i + 256) as i32) & 255i32 == i & 255i32) by (bit_vector);
    assert(((j + 256) as i32) & 255i32 == j & 255i32) by (bit_vector);
    assert(((k + 256) as i32) & 255i32 == k & 255i32) by (bit_vector);
}

/// Moving along one axis changes the lattice hash by the entries of that
/// axis's own table only: the x table serves the first coordinate, the y table
/// the second and the z table the third.
pub proof fn lemma_lattice_hash_axes(
    px: Seq<usize>,
    py: Seq<usize>,
    pz: Seq<usize>,
    i: i32,
    j: i32,
    k: i32,
    i2: i32,
    j2: i32,
    k2: i32,
)
    ensures
        lattice_hash(px, py, pz, i, j, k) ^ lattice_hash(px, py, pz, i2, j, k)
            == px[(i & 255i32) as int] ^ px[(i2 & 255i32) as int],
        lattice_hash(px, py, pz, i, j, k) ^ lattice_hash(px, py, pz, i, j2, k)
            == py[(j & 255i32) as int] ^ py[(j2 & 255i32) as int],
        lattice_hash(px, py, pz, i, j, k) ^ lattice_hash(px, py, pz, i, j, k2)
            == pz[(k & 255i32) as int] ^ pz[(k2 & 255i32) as int],
{
    let a: usize = px[(i & 255i32) as int];
    let a2: usize = px[(i2 & 255i32) as int];
    let b: usize = py[(j & 255i32) as int];
    let b2: usize = py[(j2 & 255i32) as int];
    let d: usize = pz[(k & 255i32) as int];
    let d2: usize = pz[(k2 & 255i32) as int];
    assert((a ^ b ^ d) ^ (a2 ^ b ^ d) == a ^ a2) by (bit_vector);
    assert((a ^ b ^ d) ^ (a ^ b2 ^ d) == b ^ b2) by (bit_vector);
    assert((a ^ b ^ d) ^ (a ^ b ^ d2) == d ^ d2) by (bit_vector);
}

/// `s` with the entries at positions `i` and `t` exchanged.
pub open spec fn swap_entries(s: Seq<usize>, i: int, t: int) -> Seq<usize> {
    s.update(t, s[i]).update(i, s[t])
}

/// The Fisher-Yates steps from the end of `s` down to position `from`: every
/// position `k` in `[from, len)` with `k >= 1`, the last first, is exchanged
/// with position `targets[k]`.
pub open spec fn shuffled_from(s: Seq<usize>, targets: Seq<usize>, from: int) -> Seq<usize>
    decreases s.len() - from,
{
    if from >= s.len() {
        s
    } else {
        let rest = shuffled_from(s, targets, from + 1);
        if from >= 1 {
            swap_entries(rest, from, targets[from] as int)
        } else {
            rest
        }
    }
}

/// Each position `k >= 1` of a table of length `n` is exchanged with a
/// position at or before it.
pub open spec fn valid_shuffle_targets(targets: Seq<usize>, n: nat) -> bool {
    &&& targets.len() == n
    &&& forall|k: int| 1 <= k < n ==> #[trigger] targets[k] <= k
}

/// A table shuffled from `0..256` by the Fisher-Yates steps with some valid targets.
pub open spec fn is_shuffled_identity(table: Seq<usize>) -> bool {
    exists|targets: Seq<usize>|
        valid_shuffle_targets(targets, POINT_COUNT as nat) && table == shuffled_from(
            identity_seq(POINT_COUNT as nat),
            targets,
            0,
        )
}

/// A shuffle keeps the length of the table.
pub proof fn lemma_shuffled_from_len(s: Seq<usize>, targets: Seq<usize>, from: int)
    requires
        valid_shuffle_targets(targets, s.len()),
        0 <= from,
    ensures
        shuffled_from(s, targets, from).len() == s.len(),
    decreases s.len() - from,
{
    if from < s.len() {
        lemma_shuffled_from_len(s, targets, from + 1);
    }
}

/// The Fisher-Yates steps one at a time: nothing is done at or past the end,
/// each position `from` in `[1, len)` is exchanged with `targets[from]` after
/// all later positions have had their step, and position 0 takes no step.
pub proof fn lemma_shuffled_from_steps(s: Seq<usize>, targets: Seq<usize>, from: int)
    requires
        0 <= from <= s.len(),
    ensures
        from == s.len() ==> shuffled_from(s, targets, from) == s,
        1 <= from < s.len() ==> shuffled_from(s, targets, from) == swap_entries(
            shuffled_from(s, targets, from + 1),
            from,
            targets[from] as int,
        ),
        from == 0 && s.len() >= 1 ==> shuffled_from(s, targets, 0) == shuffled_from(s, targets, 1),
{
}

proof fn lemma_last_entry_from(s: Seq<usize>, targets: Seq<usize>, from: int)
    requires
        valid_shuffle_targets(targets, s.len()),
        s.len() >= 2,
        0 <= from <= s.len() - 1,
    ensures
        shuffled_from(s, targets, from).len() == s.len(),
        shuffled_from(s, targets, from)[s.len() - 1] == s[targets[s.len() - 1] as int],
    decreases s.len() - from,
{
    let n: int = s.len() as int;
    lemma_shuffled_from_len(s, targets, from);
    if from == n - 1 {
        assert(shuffled_from(s, targets, n) == s);
        assert(targets[n - 1] <= n - 1);
    } else {
        lemma_last_entry_from(s, targets, from + 1);
        if from >= 1 {
            assert(targets[from] <= from);
        }
    }
}

/// The last entry of a shuffled table is the entry its own target pointed
/// at: the first step exchanges it and no later step reaches it again.
pub proof fn lemma_shuffle_last_entry(s: Seq<usize>, targets: Seq<usize>)
    requires
        valid_shuffle_targets(targets, s.len()),
        s.len() >= 2,
    ensures
        shuffled_from(s, targets, 0)[s.len() - 1] == s[targets[s.len() - 1] as int],
{
    lemma_last_entry_from(s, targets, 0);
}

proof fn lemma_zero_targets_from(s: Seq<usize>, targets: Seq<usize>, from: int)
    requires
        targets.len() == s.len(),
        forall|k: int| 0 <= k < targets.len() ==> #[trigger] targets[k] == 0,
        1 <= from <= s.len() - 1,
    ensures
        shuffled_from(s, targets, from) == seq![s[from]] + s.subrange(1, from) + s.subrange(
            from + 1,
            s.len() as int,
        ) + seq![s[0]],
    decreases s.len() - from,
{
    let n: int = s.len() as int;
    if from == n - 1 {
        assert(shuffled_from(s, targets, n) == s);
        assert(shuffled_from(s, targets, from) == swap_entries(s, from, 0));
        assert(swap_entries(s, from, 0) =~= seq![s[from]] + s.subrange(1, from) + s.subrange(
            from + 1,
            n,
        ) + seq![s[0]]);
    } else {
        lemma_zero_targets_from(s, targets, from + 1);
        let rest: Seq<usize> = shuffled_from(s, targets, from + 1);
        assert(rest == seq![s[from + 1]] + s.subrange(1, from + 1) + s.subrange(from + 2, n)
            + seq![s[0]]);
        assert(rest[from] == s[from]);
        assert(rest[0] == s[from + 1]);
        assert(shuffled_from(s, targets, from) == swap_entries(rest, from, 0));
        assert(swap_entries(rest, from, 0) =~= seq![s[from]] + s.subrange(1, from) + s.subrange(
            from + 1,
            n,
        ) + seq![s[0]]);
    }
}

/// With every target at position 0, each step moves the entry at its
/// position to the front: the whole table rotates one place to the left.
pub proof fn lemma_shuffle_zero_targets_rotates(s: Seq<usize>, targets: Seq<usize>)
    requires
        targets.len() == s.len(),
        forall|k: int| 0 <= k < targets.len() ==> #[trigger] targets[k] == 0,
        s.len() >= 1,
    ensures
        shuffled_from(s, targets, 0) == s.subrange(1, s.len() as int).push(s[0]),
{
    let n: int = s.len() as int;
    if n == 1 {
        assert(shuffled_from(s, targets, 1) == s);
        assert(s.subrange(1, 1).push(s[0]) =~= s);
    } else {
        lemma_zero_targets_from(s, targets, 1);
        assert(shuffled_from(s, targets, 0) == shuffled_from(s, targets, 1));
        assert(seq![s[1]] + s.subrange(1, 1) + s.subrange(2, n) + seq![s[0]] =~= s.subrange(
            1,
            n,
        ).push(s[0]));
    }
}

/// Applies the Fisher-Yates steps with the given targets to `p`: for each
/// position `k` from the last down to the second, the entries at `k` and at
/// `targets[k]` are exchanged. The entries stay the same, only their order changes.
pub fn shuffle_with_targets(p: &mut Vec<usize>, targets: &Vec<usize>)
    requires
        valid_shuffle_targets(targets@, old(p)@.len()),
    ensures
        final(p)@ == shuffled_from(old(p)@, targets@, 0),
        final(p)@.len() == old(p)@.len(),
        final(p)@.to_multiset() == old(p)@.to_multiset(),
        old(p)@.len() >= 2 ==> final(p)@[old(p)@.len() - 1] == old(p)@[targets@[old(p)@.len() - 1] as int],
        old(p)@.len() >= 1 && (forall|k: int| 0 <= k < targets@.len() ==> #[trigger] targets@[k] == 0)
            ==> final(p)@ == old(p)@.subrange(1, old(p)@.len() as int).push(old(p)@[0]),
{
    let len: usize = p.len();
    let mut i: usize = len;
    while i > 1
        invariant
            len == old(p)@.len(),
            p@.len() == len,
            i <= len,
            valid_shuffle_targets(targets@, len as nat),
            p@.to_multiset() == old(p)@.to_multiset(),
            p@ == shuffled_from(old(p)@, targets@, i as int),
        decreases i,
    {
        i = i - 1;
        let target: usize = targets[i];
        assert(target <= i);
        let ghost s: Seq<usize> = p@;
        let a: usize = p[i];
        let b: usize = p[target];
        p[target] = a;
        p[i] = b;
        proof {
            let s1: Seq<usize> = s.update(target as int, a);
            assert(p@ == s1.update(i as int, b));
            assert(s1[i as int] == a);
            assert(s.to_multiset().count(b) > 0);
            assert(p@.to_multiset() =~= s.to_multiset());
            assert(p@ == swap_entries(s, i as int, target as int));
        }
    }
    proof {
        if len >= 1 {
            assert(shuffled_from(old(p)@, targets@, 0) == shuffled_from(old(p)@, targets@, 1));
        }
        if len >= 2 {
            lemma_shuffle_last_entry(old(p)@, targets@);
        }
        if len >= 1 && (forall|k: int| 0 <= k < targets@.len() ==> #[trigger] targets@[k] == 0) {
            lemma_shuffle_zero_targets_rotates(old(p)@, targets@);
        }
    }
}

/// Draws the Fisher-Yates targets for a table of `n` entries: for each
/// position `k` from the last down to the second, a random position in `[0, k]`.
fn draw_shuffle_targets(n: usize) -> (targets: Vec<usize>)
    requires
        n <= i32::MAX,
    ensures
        valid_shuffle_targets(targets@, n as nat),
{
    let mut targets: Vec<usize> = Vec::new();
    let mut k: usize = 0;
    while k < n
        invariant
            k <= n,
            targets@.len() == k,
            forall|m: int| 0 <= m < k ==> #[trigger] targets@[m] == 0,
        decreases n - k,
    {
        targets.push(0);
        k = k + 1;
    }
    let mut i: usize = n;
    while i > 1
        invariant
            n <= i32::MAX,
            i <= n,
            targets@.len() == n,
            forall|m: int| 0 <= m < i ==> #[trigger] targets@[m] == 0,
            forall|m: int| i <= m < n && 1 <= m ==> #[trigger] targets@[m] <= m,
        decreases i,
    {
        i = i - 1;
        let target: i32 = random_i32_in_range(0, i as i32);
        targets[i] = target as usize;
    }
    targets
}

/// The table `0, 1, ..., 255`.
fn identity_table() -> (p: Vec<usize>)
    ensures
        p@ == identity_seq(POINT_COUNT as nat),
{
    let mut p: Vec<usize> = Vec::new();
    let mut i: usize = 0;
    while i < POINT_COUNT
        invariant
            i <= POINT_COUNT,
            p@ == identity_seq(i as nat),
        decreases POINT_COUNT - i,
    {
        p.push(i);
        i = i + 1;
        assert(p@ =~= identity_seq(i as nat));
    }
    p
}

/// The Perlin lattice: one gradient per point and three permutation tables that
/// scramble the lattice coordinates.
///
/// The gradient type `V` is left to the caller (the renderer stores unit vectors).
#[derive(Debug)]
pub struct Perlin<V> {
    randvec: Vec<V>,
    perm_x: Vec<usize>,
    perm_y: Vec<usize>,
    perm_z: Vec<usize>,
}

impl<V> Perlin<V> {
    /// The gradients, one per lattice point.
    pub closed spec fn gradients(&self) -> Seq<V> {
        self.randvec@
    }

    /// The permutation table of the x coordinate.
    pub closed spec fn table_x(&self) -> Seq<usize> {
        self.perm_x@
    }

    /// The permutation table of the y coordinate.
    pub closed spec fn table_y(&self) -> Seq<usize> {
        self.perm_y@
    }

    /// The permutation table of the z coordinate.
    pub closed spec fn table_z(&self) -> Seq<usize> {
        self.perm_z@
    }

    #[verifier::type_invariant]
    closed spec fn well_formed(self) -> bool {
        &&& self.randvec@.len() == POINT_COUNT
        &&& self.perm_x@.len() == POINT_COUNT
        &&& self.perm_y@.len() == POINT_COUNT
        &&& self.perm_z@.len() == POINT_COUNT
        &&& is_permutation_of_range(self.perm_x@, POINT_COUNT as nat)
        &&& is_permutation_of_range(self.perm_y@, POINT_COUNT as nat)
        &&& is_permutation_of_range(self.perm_z@, POINT_COUNT as nat)
    }

    /// Builds the lattice from its gradients, with three freshly shuffled
    /// permutation tables: each is `0..256` put through the Fisher-Yates steps
    /// with targets drawn at random.
    pub fn new(randvec: Vec<V>) -> (r: Self)
        requires
            randvec@.len() == POINT_COUNT,
        ensures
            r.gradients() == randvec@,
            r.table_x().len() == POINT_COUNT,
            r.table_y().len() == POINT_COUNT,
            r.table_z().len() == POINT_COUNT,
            is_permutation_of_range(r.table_x(), POINT_COUNT as nat),
            is_permutation_of_range(r.table_y(), POINT_COUNT as nat),
            is_permutation_of_range(r.table_z(), POINT_COUNT as nat),
            is_shuffled_identity(r.table_x()),
            is_shuffled_identity(r.table_y()),
            is_shuffled_identity(r.table_z()),
    {
        let perm_x = Self::perlin_generate_perm();
        let perm_y = Self::perlin_generate_perm();
        let perm_z = Self::perlin_generate_perm();
        Perlin { randvec, perm_x, perm_y, perm_z }
    }

    /// Builds the lattice from its gradients and the Fisher-Yates targets of
    /// its three tables: each table is `0..256` shuffled with its targets.
    pub fn from_targets(
        randvec: Vec<V>,
        targets_x: &Vec<usize>,
        targets_y: &Vec<usize>,
        targets_z: &Vec<usize>,
    ) -> (r: Self)
        requires
            randvec@.len() == POINT_COUNT,
            valid_shuffle_targets(targets_x@, POINT_COUNT as nat),
            valid_shuffle_targets(targets_y@, POINT_COUNT as nat),
            valid_shuffle_targets(targets_z@, POINT_COUNT as nat),
        ensures
            r.gradients() == randvec@,
            r.table_x() == shuffled_from(identity_seq(POINT_COUNT as nat), targets_x@, 0),
            r.table_y() == shuffled_from(identity_seq(POINT_COUNT as nat), targets_y@, 0),
            r.table_z() == shuffled_from(identity_seq(POINT_COUNT as nat), targets_z@, 0),
            r.table_x().len() == POINT_COUNT,
            r.table_y().len() == POINT_COUNT,
            r.table_z().len() == POINT_COUNT,
            is_permutation_of_range(r.table_x(), POINT_COUNT as nat),
            is_permutation_of_range(r.table_y(), POINT_COUNT as nat),
            is_permutation_of_range(r.table_z(), POINT_COUNT as nat),
    {
        let mut perm_x = identity_table();
        shuffle_with_targets(&mut perm_x, targets_x);
        let mut perm_y = identity_table();
        shuffle_with_targets(&mut perm_y, targets_y);
        let mut perm_z = identity_table();
        shuffle_with_targets(&mut perm_z, targets_z);
        Perlin { randvec, perm_x, perm_y, perm_z }
    }

    /// A table holding `0..256` in random order.
    fn perlin_generate_perm() -> (p: Vec<usize>)
        ensures
            p@.len() == POINT_COUNT,
            is_permutation_of_range(p@, POINT_COUNT as nat),
            is_shuffled_identity(p@),
    {
        let mut p: Vec<usize> = identity_table();
        Self::permute(&mut p);
        p
    }

    /// Shuffles `p` in place (Fisher-Yates): for each position from the last
    /// down to the second, swap it with a random position at or before it.
    /// The random positions are drawn first, then the swaps are made with them.
    fn permute(p: &mut Vec<usize>)
        requires
            old(p)@.len() <= i32::MAX,
        ensures
            final(p)@.len() == old(p)@.len(),
            final(p)@.to_multiset() == old(p)@.to_multiset(),
            exists|targets: Seq<usize>|
                valid_shuffle_targets(targets, old(p)@.len())
                    && final(p)@ == shuffled_from(old(p)@, targets, 0),
    {
        let targets: Vec<usize> = draw_shuffle_targets(p.len());
        shuffle_with_targets(p, &targets);
        assert(valid_shuffle_targets(targets@, old(p)@.len()) && p@ == shuffled_from(
            old(p)@,
            targets@,
            0,
        ));
    }

    /// The gradient at the lattice point `(i, j, k)`; the coordinates wrap
    /// around every 256 points.
    pub fn corner(&self, i: i32, j: i32, k: i32) -> (c: V) where V: Copy
        ensures
            lattice_hash(self.table_x(), self.table_y(), self.table_z(), i, j, k) < POINT_COUNT,
            c == self.gradients()[lattice_hash(self.table_x(), self.table_y(), self.table_z(), i, j, k) as int],
            (self.table_x()[(i & 255i32) as int] ^ self.table_y()[(j & 255i32) as int]
                ^ self.table_z()[(k & 255i32) as int]) < POINT_COUNT,
            c == self.gradients()[(self.table_x()[(i & 255i32) as int] ^ self.table_y()[(j & 255i32) as int]
                ^ self.table_z()[(k & 255i32) as int]) as int],
    {
        proof {
            use_type_invariant(self);
        }
        let ix: usize = (i & 255) as usize;
        let iy: usize = (j & 255) as usize;
        let iz: usize = (k & 255) as usize;
        assert(0 <= i & 255i32 < 256) by (bit_vector);
        assert(0 <= j & 255i32 < 256) by (bit_vector);
        assert(0 <= k & 255i32 < 256) by (bit_vector);
        let a: usize = self.perm_x[ix];
        let b: usize = self.perm_y[iy];
        let d: usize = self.perm_z[iz];
        proof {
            lemma_permutation_elements_bounded(self.perm_x@, POINT_COUNT as nat, ix as int);
            lemma_permutation_elements_bounded(self.perm_y@, POINT_COUNT as nat, iy as int);
            lemma_permutation_elements_bounded(self.perm_z@, POINT_COUNT as nat, iz as int);
        }
        assert(a ^ b ^ d < 256) by (bit_vector)
            requires
                a < 256,
                b < 256,
                d < 256,
        ;
        let h: usize = a ^ b ^ d;
        self.randvec[h]
    }
}

impl<V: Clone> Clone for Perlin<V> {
    /// The same tables, and a clone of each gradient.
    fn clone(&self) -> (r: Self)
        ensures
            r.table_x() == self.table_x(),
            r.table_y() == self.table_y(),
            r.table_z() == self.table_z(),
            r.gradients().len() == self.gradients().len(),
            forall|n: int|
                0 <= n < self.gradients().len() ==> cloned::<V>(
                    self.gradients()[n],
                    #[trigger] r.gradients()[n],
                ),
    {
        proof {
            use_type_invariant(self);
        }
        let randvec: Vec<V> = self.randvec.clone();
        let perm_x: Vec<usize> = self.perm_x.clone();
        let perm_y: Vec<usize> = self.perm_y.clone();
        let perm_z: Vec<usize> = self.perm_z.clone();
        assert(perm_x@ =~= self.perm_x@);
        assert(perm_y@ =~= self.perm_y@);
        assert(perm_z@ =~= self.perm_z@);
        Perlin { randvec, perm_x, perm_y, perm_z }
    }
}

} // verus!
