//! The integer lattice of Perlin noise: a shuffled permutation table and the
//! hash that picks the gradient of each lattice corner.
use vstd::prelude::*;

use crate::random;

verus! {

/// Number of gradient vectors, and of entries in each permutation table.
pub const POINT_COUNT: usize = 256;

/// `s` holds each of `0..n` exactly once.
pub open spec fn is_permutation(s: Seq<usize>, n: nat) -> bool {
    &&& s.len() == n
    &&& forall|i: int| 0 <= i < n ==> #[trigger] s[i] < n
    &&& forall|i: int, j: int| 0 <= i < n && 0 <= j < n && i != j ==> s[i] != s[j]
    &&& forall|v: int| 0 <= v < n ==> #[trigger] contains_value(s, v)
}

/// Some entry of `s` is `v`.
pub open spec fn contains_value(s: Seq<usize>, v: int) -> bool {
    exists|k: int| 0 <= k < s.len() && s[k] == v
}

/// Swapping two entries keeps a permutation a permutation.
proof fn lemma_swap_keeps_permutation(s: Seq<usize>, n: nat, i: int, j: int)
    requires
        is_permutation(s, n),
        0 <= i < n,
        0 <= j < n,
    ensures
        is_permutation(swapped(s, i, j), n),
{
    let t = swapped(s, i, j);
    assert forall|v: int| 0 <= v < n implies #[trigger] contains_value(t, v) by {
        assert(contains_value(s, v));
        let k = choose|k: int| 0 <= k < s.len() && s[k] == v;
        if k == i {
            assert(t[j] == v);
        } else if k == j {
            assert(t[i] == v);
        } else {
            assert(t[k] == v);
        }
    }
}

/// The entries `0..n` in order.
pub open spec fn identity(n: nat) -> Seq<usize> {
    Seq::new(n, |i: int| i as usize)
}

/// `s` with the entries at `i` and `j` exchanged.
pub open spec fn swapped(s: Seq<usize>, i: int, j: int) -> Seq<usize> {
    s.update(i, s[j]).update(j, s[i])
}

/// `draws` has one entry per position of an `n`-entry table, none beyond its position.
pub open spec fn valid_draws(draws: Seq<usize>, n: nat) -> bool {
    &&& draws.len() == n
    &&& forall|i: int| 0 <= i < n ==> #[trigger] draws[i] <= i
}

/// The Fisher-Yates steps still to run on `s` when positions `0..i` remain: position
/// `i - 1` is swapped with position `draws[i - 1]`, then `i - 2`, down to position 1.
pub open spec fn shuffle_steps(s: Seq<usize>, draws: Seq<usize>, i: nat) -> Seq<usize>
    decreases i,
{
    if i <= 1 {
        s
    } else {
        shuffle_steps(swapped(s, i - 1, draws[i - 1] as int), draws, (i - 1) as nat)
    }
}

/// The permutation of `0..draws.len()` that a Fisher-Yates shuffle makes from the
/// given draws: from the last position down to the second, the entry at position `i`
/// is swapped with the one at `draws[i]`.
pub fn shuffled_perm(draws: &Vec<usize>) -> (r: Vec<usize>)
    requires
        valid_draws(draws@, draws@.len()),
    ensures
        r@ == shuffle_steps(identity(draws@.len()), draws@, draws@.len()),
        is_permutation(r@, draws@.len()),
{
    let n: usize = draws.len();
    let mut perm: Vec<usize> = Vec::new();
    let mut k: usize = 0;
    while k < n
        invariant
            k <= n,
            perm@ =~= identity(k as nat),
        decreases n - k,
    {
        perm.push(k);
        k += 1;
    }
    assert forall|v: int| 0 <= v < n implies #[trigger] contains_value(perm@, v) by {
        assert(perm@[v] == v);
    }
    let mut i: usize = n;
    while i > 1
        invariant
            i <= n,
            n == draws@.len(),
            valid_draws(draws@, n as nat),
            is_permutation(perm@, n as nat),
            shuffle_steps(perm@, draws@, i as nat) == shuffle_steps(identity(n as nat), draws@, n as nat),
        decreases i,
    {
        i -= 1;
        let j: usize = draws[i];
        assert(draws@[i as int] <= i);
        proof {
            lemma_swap_keeps_permutation(perm@, n as nat, i as int, j as int);
        }
        let ghost before = perm@;
        let a: usize = perm[i];
        let b: usize = perm[j];
        perm.set(i, b);
        perm.set(j, a);
        assert(perm@ =~= swapped(before, i as int, j as int));
    }
    perm
}

/// A random permutation of `0..point_count`, shuffled Fisher-Yates style: from the
/// last position down to the second, each entry is swapped with a uniformly drawn
/// entry at or before it.
pub fn generate_perm(point_count: usize) -> (r: Vec<usize>)
    ensures
        is_permutation(r@, point_count as nat),
{
    let mut draws: Vec<usize> = Vec::new();
    let mut k: usize = 0;
    while k < point_count
        invariant
            k <= point_count,
            valid_draws(draws@, k as nat),
        decreases point_count - k,
    {
        draws.push(random::usize(0, k + 1));
        k += 1;
    }
    shuffled_perm(&draws)
}

/// The table entry that lattice coordinate `x` selects: `x` modulo 256.
pub open spec fn wrap(x: i32) -> int {
    (x as int) % 256
}

/// The gradient index of lattice corner `(x, y, z)`: the exclusive or of the
/// table entries that the three coordinates select.
pub open spec fn corner_hash(perm: Seq<usize>, x: i32, y: i32, z: i32) -> usize {
    perm[wrap(x)] ^ perm[wrap(y)] ^ perm[wrap(z)]
}

/// The low eight bits of `x` are `x` modulo 256, negative `x` included.
proof fn lemma_low_byte(x: i32)
    ensures
        (x & 255i32) as int == (x as int) % 256,
{
    assert((x & 255i32) as int == (x as int) % 256) by (bit_vector);
}

/// The shuffled permutation table of a Perlin noise generator.
pub struct Lattice {
    perm: Vec<usize>,
}

impl View for Lattice {
    type V = Seq<usize>;

    closed spec fn view(&self) -> Seq<usize> {
        self.perm@
    }
}

impl Lattice {
    #[verifier::type_invariant]
    spec fn well_formed(self) -> bool {
        is_permutation(self.perm@, POINT_COUNT as nat)
    }

    /// A freshly shuffled table of `POINT_COUNT` entries.
    pub fn new() -> (r: Lattice)
        ensures
            is_permutation(r@, POINT_COUNT as nat),
    {
        Lattice { perm: generate_perm(POINT_COUNT) }
    }

    /// The table that the Fisher-Yates shuffle makes from the given draws.
    pub fn from_draws(draws: &Vec<usize>) -> (r: Lattice)
        requires
            valid_draws(draws@, POINT_COUNT as nat),
        ensures
            r@ == shuffle_steps(identity(POINT_COUNT as nat), draws@, POINT_COUNT as nat),
    {
        Lattice { perm: shuffled_perm(draws) }
    }

    /// The gradient index of lattice corner `(x, y, z)`; always below `POINT_COUNT`.
    pub fn corner_index(&self, x: i32, y: i32, z: i32) -> (r: usize)
        ensures
            r == corner_hash(self@, x, y, z),
            r < POINT_COUNT,
    {
        proof {
            use_type_invariant(self);
        }
        let ix: usize = (x & 255) as usize;
        let iy: usize = (y & 255) as usize;
        let iz: usize = (z & 255) as usize;
        proof {
            lemma_low_byte(x);
            lemma_low_byte(y);
            lemma_low_byte(z);
        }
        let a: usize = self.perm[ix];
        let b: usize = self.perm[iy];
        let c: usize = self.perm[iz];
        assert(a ^ b ^ c < 256) by (bit_vector)
            requires
                a < 256,
                b < 256,
                c < 256,
        ;
        a ^ b ^ c
    }
}

} // verus!
