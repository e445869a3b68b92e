use crate::rng::random_index_inclusive;
use rand::rngs::SmallRng;
use vstd::prelude::*;

verus! {

/// Number of lattice points along each axis of the noise tables.
pub const POINT_COUNT: usize = 256;

/// `s` holds each of `0, 1, ..., n - 1` exactly once.
pub open spec fn is_permutation_of_range(s: Seq<usize>, n: int) -> bool {
    &&& s.len() == n
    &&& forall|i: int| 0 <= i < n ==> #[trigger] s[i] < n
    &&& forall|i: int, j: int| 0 <= i < n && 0 <= j < n && i != j ==> s[i] != s[j]
}

/// `s` with the entries at positions `i` and `j` exchanged.
pub open spec fn swap_entries(s: Seq<usize>, i: int, j: int) -> Seq<usize> {
    s.update(i, s[j]).update(j, s[i])
}

/// The Fisher-Yates pass over `s` with the given swap partners: the `k`-th swap exchanges
/// position `s.len() - 1 - k` with position `targets[k]`.
pub open spec fn fisher_yates(s: Seq<usize>, targets: Seq<usize>) -> Seq<usize>
    decreases targets.len(),
{
    if targets.len() == 0 {
        s
    } else {
        swap_entries(
            fisher_yates(s, targets.drop_last()),
            s.len() - targets.len(),
            targets.last() as int,
        )
    }
}

/// Swap partners that a Fisher-Yates pass over 256 entries can draw: the `k`-th one is at
/// most `255 - k`, and there is one per position from 255 down to 1.
pub open spec fn valid_swap_targets(targets: Seq<usize>) -> bool {
    &&& targets.len() == 255
    &&& forall|k: int| 0 <= k < 255 ==> #[trigger] targets[k] <= 255 - k
}

/// Draws the swap partners of one Fisher-Yates pass from `rng`, for positions 255 down to 1.
fn draw_swap_targets(rng: &mut SmallRng) -> (targets: Vec<usize>)
    ensures
        valid_swap_targets(targets@),
{
    let mut targets: Vec<usize> = Vec::new();
    let mut i: usize = 256;
    while i > 1
        invariant
            1 <= i <= 256,
            targets@.len() == 256 - i,
            forall|k: int| 0 <= k < targets@.len() ==> #[trigger] targets@[k] <= 255 - k,
        decreases i,
    {
        i = i - 1;
        let target = random_index_inclusive(rng, i);
        targets.push(target);
    }
    targets
}

/// Applies the Fisher-Yates pass with the given swap partners to `p`.
pub fn permute_with(p: &mut [usize; 256], targets: &Vec<usize>)
    requires
        valid_swap_targets(targets@),
    ensures
        final(p)@ == fisher_yates(old(p)@, targets@),
        is_permutation_of_range(old(p)@, 256) ==> is_permutation_of_range(final(p)@, 256),
{
    let ghost start = p@;
    let mut k: usize = 0;
    while k < 255
        invariant
            valid_swap_targets(targets@),
            start.len() == 256,
            k <= 255,
            p@ == fisher_yates(start, targets@.take(k as int)),
            is_permutation_of_range(start, 256) ==> is_permutation_of_range(p@, 256),
        decreases 255 - k,
    {
        let i = 255 - k;
        let target = targets[k];
        let ghost before = p@;
        let a = p[i];
        let b = p[target];
        p[i] = b;
        p[target] = a;
        proof {
            let t1 = targets@.take(k + 1);
            assert(t1.drop_last() =~= targets@.take(k as int));
            assert(p@ =~= swap_entries(before, i as int, target as int));
            if is_permutation_of_range(start, 256) {
                assert forall|x: int, y: int|
                    0 <= x < 256 && 0 <= y < 256 && x != y implies p@[x] != p@[y] by {
                    let ox = if x == i {
                        target as int
                    } else if x == target {
                        i as int
                    } else {
                        x
                    };
                    let oy = if y == i {
                        target as int
                    } else if y == target {
                        i as int
                    } else {
                        y
                    };
                    assert(p@[x] == before[ox]);
                    assert(p@[y] == before[oy]);
                }
            }
        }
        k = k + 1;
    }
    proof {
        assert(targets@.take(255) =~= targets@);
    }
}

/// Shuffles `p` with swap partners drawn from `rng` (Fisher-Yates, from the last position
/// down).
fn permute(p: &mut [usize; 256], rng: &mut SmallRng)
    requires
        is_permutation_of_range(old(p)@, 256),
    ensures
        is_permutation_of_range(final(p)@, 256),
        exists|targets: Seq<usize>| valid_swap_targets(targets) && final(p)@ == fisher_yates(old(p)@, targets),
{
    let targets = draw_swap_targets(rng);
    permute_with(p, &targets);
}

/// The table `0, 1, ..., 255`.
pub open spec fn identity_table() -> Seq<usize> {
    Seq::new(256, |i: int| i as usize)
}

/// A random permutation of `0..256` for one axis of the noise lattice.
pub fn perlin_generate_perm(rng: &mut SmallRng) -> (p: [usize; 256])
    ensures
        is_permutation_of_range(p@, 256),
        exists|targets: Seq<usize>|
            valid_swap_targets(targets) && p@ == fisher_yates(identity_table(), targets),
{
    let mut p: [usize; 256] = [0; 256];
    let mut i: usize = 0;
    while i < 256
        invariant
            i <= 256,
            p@.len() == 256,
            forall|k: int| 0 <= k < i ==> #[trigger] p@[k] == k,
        decreases 256 - i,
    {
        p[i] = i;
        i = i + 1;
    }
    proof {
        assert(p@ =~= identity_table());
    }
    permute(&mut p, rng);
    p
}

/// The lattice permutation tables of a Perlin noise generator, one per axis.
#[derive(Debug, PartialEq, Eq)]
pub struct PerlinPerm {
    perm_x: [usize; 256],
    perm_y: [usize; 256],
    perm_z: [usize; 256],
}

/// The lattice point that the corner `(x, y, z)` of a noise cell maps to: the three tables
/// looked up at the coordinates taken modulo 256 (two's complement low byte) and XOR-ed.
pub open spec fn lattice_point(
    perm_x: Seq<usize>,
    perm_y: Seq<usize>,
    perm_z: Seq<usize>,
    x: i32,
    y: i32,
    z: i32,
) -> usize {
    perm_x[(x & 255) as int] ^ perm_y[(y & 255) as int] ^ perm_z[(z & 255) as int]
}

impl Clone for PerlinPerm {
    fn clone(&self) -> (c: Self)
        ensures
            c == *self,
    {
        proof {
            use_type_invariant(self);
        }
        PerlinPerm { perm_x: self.perm_x, perm_y: self.perm_y, perm_z: self.perm_z }
    }
}

impl PerlinPerm {
    #[verifier::type_invariant]
    spec fn tables_are_permutations(self) -> bool {
        &&& is_permutation_of_range(self.perm_x@, 256)
        &&& is_permutation_of_range(self.perm_y@, 256)
        &&& is_permutation_of_range(self.perm_z@, 256)
    }

    /// The table for the x axis.
    pub closed spec fn spec_perm_x(self) -> Seq<usize> {
        self.perm_x@
    }

    /// The table for the y axis.
    pub closed spec fn spec_perm_y(self) -> Seq<usize> {
        self.perm_y@
    }

    /// The table for the z axis.
    pub closed spec fn spec_perm_z(self) -> Seq<usize> {
        self.perm_z@
    }

    /// Draws the x, y and z tables, in that order, from `rng`.
    pub fn generate(rng: &mut SmallRng) -> (perm: Self)
        ensures
            is_permutation_of_range(perm.spec_perm_x(), 256),
            is_permutation_of_range(perm.spec_perm_y(), 256),
            is_permutation_of_range(perm.spec_perm_z(), 256),
    {
        let perm_x = perlin_generate_perm(rng);
        let perm_y = perlin_generate_perm(rng);
        let perm_z = perlin_generate_perm(rng);
        PerlinPerm { perm_x, perm_y, perm_z }
    }

    /// The lattice point for the cell corner with integer coordinates `(x, y, z)`; always a
    /// valid index into a table of 256 gradients.
    pub fn lattice_index(&self, x: i32, y: i32, z: i32) -> (idx: usize)
        ensures
            idx == lattice_point(self.spec_perm_x(), self.spec_perm_y(), self.spec_perm_z(), x, y, z),
            idx < 256,
    {
        proof {
            use_type_invariant(self);
            assert(0 <= (x & 255) < 256) by (bit_vector);
            assert(0 <= (y & 255) < 256) by (bit_vector);
            assert(0 <= (z & 255) < 256) by (bit_vector);
        }
        let a = self.perm_x[(x & 255) as usize];
        let b = self.perm_y[(y & 255) as usize];
        let c = self.perm_z[(z & 255) as usize];
        proof {
            assert(a < 256 && b < 256 && c < 256 ==> (a ^ b ^ c) < 256) by (bit_vector);
        }
        a ^ b ^ c
    }

    /// The table for the x axis.
    pub fn perm_x(&self) -> (t: &[usize; 256])
        ensures
            t@ == self.spec_perm_x(),
            is_permutation_of_range(t@, 256),
    {
        proof {
            use_type_invariant(self);
        }
        &self.perm_x
    }

    /// The table for the y axis.
    pub fn perm_y(&self) -> (t: &[usize; 256])
        ensures
            t@ == self.spec_perm_y(),
            is_permutation_of_range(t@, 256),
    {
        proof {
            use_type_invariant(self);
        }
        &self.perm_y
    }

    /// The table for the z axis.
    pub fn perm_z(&self) -> (t: &[usize; 256])
        ensures
            t@ == self.spec_perm_z(),
            is_permutation_of_range(t@, 256),
    {
        proof {
            use_type_invariant(self);
        }
        &self.perm_z
    }
}

/// A Fisher-Yates pass with no swap partners leaves the table as it was.
pub proof fn lemma_fisher_yates_no_targets(s: Seq<usize>)
    ensures
        fisher_yates(s, Seq::empty()) == s,
{
}

/// Each further swap partner `t` of a Fisher-Yates pass exchanges exactly two entries of the
/// table reached so far: the one at the next position from the end, `s.len() - 1 - k` for
/// the `k`-th partner, and the one at position `t` itself; every other entry stays.
pub proof fn lemma_fisher_yates_step(s: Seq<usize>, targets: Seq<usize>, t: usize)
    requires
        targets.len() < s.len(),
        forall|k: int| 0 <= k < targets.len() ==> #[trigger] targets[k] < s.len(),
        t < s.len(),
    ensures
        ({
            let before = fisher_yates(s, targets);
            let after = fisher_yates(s, targets.push(t));
            let i = s.len() - 1 - targets.len();
            &&& after.len() == s.len()
            &&& after[i] == before[t as int]
            &&& after[t as int] == before[i]
            &&& forall|q: int| 0 <= q < s.len() && q != i && q != t ==> #[trigger] after[q] == before[q]
        }),
{
    lemma_fisher_yates_len(s, targets);
    assert(targets.push(t).drop_last() =~= targets);
}

/// A Fisher-Yates pass keeps the length of the table.
proof fn lemma_fisher_yates_len(s: Seq<usize>, targets: Seq<usize>)
    requires
        targets.len() <= s.len(),
        forall|k: int| 0 <= k < targets.len() ==> #[trigger] targets[k] < s.len(),
    ensures
        fisher_yates(s, targets).len() == s.len(),
    decreases targets.len(),
{
    if targets.len() > 0 {
        lemma_fisher_yates_len(s, targets.drop_last());
    }
}

/// Partners after the first that are the positions themselves change nothing.
proof fn lemma_self_swaps_keep(s: Seq<usize>, targets: Seq<usize>, n: int)
    requires
        s.len() == 256,
        1 <= n <= 255,
        targets.len() == 255,
        forall|k: int| 1 <= k < 255 ==> #[trigger] targets[k] == 255 - k,
        targets[0] <= 255,
    ensures
        fisher_yates(s, targets.take(n)) == fisher_yates(s, targets.take(1)),
    decreases n,
{
    if n > 1 {
        lemma_self_swaps_keep(s, targets, n - 1);
        assert(targets.take(n) =~= targets.take(n - 1).push(targets[n - 1]));
        lemma_fisher_yates_step(s, targets.take(n - 1), targets[n - 1]);
        lemma_fisher_yates_len(s, targets.take(n - 1));
        assert(fisher_yates(s, targets.take(n)) =~= fisher_yates(s, targets.take(n - 1)));
    }
}

/// A pass over 256 entries whose first partner is `t` and whose other partners are the
/// positions themselves exchanges exactly entries 255 and `t`.
pub proof fn lemma_fisher_yates_single_exchange(s: Seq<usize>, t: usize)
    requires
        s.len() == 256,
        t <= 255,
    ensures
        ({
            let targets = Seq::new(255, |k: int| if k == 0 { t } else { (255 - k) as usize });
            let r = fisher_yates(s, targets);
            &&& r.len() == 256
            &&& r[255] == s[t as int]
            &&& r[t as int] == s[255]
            &&& forall|q: int| 0 <= q < 256 && q != 255 && q != t ==> #[trigger] r[q] == s[q]
        }),
{
    let targets = Seq::new(255, |k: int| if k == 0 { t } else { (255 - k) as usize });
    let first = fisher_yates(s, targets.take(1));
    assert(targets.take(0) =~= Seq::<usize>::empty());
    assert(targets.take(1) =~= Seq::<usize>::empty().push(t));
    lemma_fisher_yates_step(s, Seq::empty(), t);
    lemma_self_swaps_keep(s, targets, 255);
    assert(targets.take(255) =~= targets);
}

} // verus!
