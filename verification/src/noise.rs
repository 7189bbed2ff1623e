//! The lattice of gradient noise: three shuffled tables and the cell hash.
use vstd::prelude::*;
use crate::util::random_int;

verus! {

/// The number of lattice points along each axis.
pub const POINT_COUNT: usize = 256;

/// Whether `s` holds each number below its length exactly once.
pub open spec fn shuffled(s: Seq<usize>) -> bool {
    &&& forall|i: int| 0 <= i < s.len() ==> #[trigger] s[i] < s.len()
    &&& forall|i: int, j: int| 0 <= i < j < s.len() ==> s[i] != s[j]
}

/// The table `s` with the entries at the places `a` and `b` exchanged.
pub open spec fn exchanged(s: Seq<usize>, a: int, b: int) -> Seq<usize> {
    s.update(a, s[b]).update(b, s[a])
}

/// The table `s` after the exchanges for the places from the last down to
/// the one after `i`: the entry at each such place `k` changes places with
/// the one at `draws[k]`.
pub open spec fn settled(s: Seq<usize>, draws: Seq<int>, i: int) -> Seq<usize>
    decreases s.len() - i,
{
    if i >= s.len() - 1 {
        s
    } else {
        exchanged(settled(s, draws, i + 1), draws[i + 1], i + 1)
    }
}

/// Names a run of draws, for a proof to point at; it holds of every run.
pub open spec fn dealt(draws: Seq<int>) -> bool {
    true
}

/// What is settled above a place does not depend on the draws for that place
/// and those below.
pub proof fn settled_above(s: Seq<usize>, a: Seq<int>, b: Seq<int>, i: int)
    requires
        a.len() == b.len(),
        forall|k: int| i < k < a.len() ==> a[k] == b[k],
        s.len() <= a.len(),
        0 <= i,
    ensures
        settled(s, a, i) == settled(s, b, i),
    decreases s.len() - i,
{
    if i < s.len() - 1 {
        settled_above(s, a, b, i + 1);
    }
}

/// Whether `table` is a fresh shuffle of the lattice points: the points in
/// their order, each from the last down to the second then exchanged with
/// one drawn from those before it.
pub open spec fn fresh(table: Seq<usize>) -> bool {
    exists|draws: Seq<int>|
        {
            &&& #[trigger] dealt(draws)
            &&& draws.len() == POINT_COUNT
            &&& forall|k: int| 1 <= k < draws.len() ==> 0 <= #[trigger] draws[k] < k
            &&& table == settled(Seq::new(POINT_COUNT as nat, |i: int| i as usize), draws, 0)
        }
}

/// The lattice point that the ordinate `i`, moved on by `d`, wraps to.
pub open spec fn wrapped(i: i32, d: usize) -> int {
    (i + d) % (POINT_COUNT as int)
}

/// The three tables of a noise generator. The caller keeps the gradients.
#[derive(Debug)]
pub struct Perlin {
    pub perm_x: Vec<usize>,
    pub perm_y: Vec<usize>,
    pub perm_z: Vec<usize>,
}

impl Perlin {
    /// Each table is a shuffle of the lattice points.
    pub open spec fn wf(self) -> bool {
        &&& self.perm_x@.len() == POINT_COUNT
        &&& self.perm_y@.len() == POINT_COUNT
        &&& self.perm_z@.len() == POINT_COUNT
        &&& shuffled(self.perm_x@)
        &&& shuffled(self.perm_y@)
        &&& shuffled(self.perm_z@)
    }

    /// A fresh shuffle of the lattice points.
    pub fn perlin_generate_perm() -> (r: Vec<usize>)
        ensures
            r@.len() == POINT_COUNT,
            shuffled(r@),
            fresh(r@),
    {
        let mut randflots: Vec<usize> = Vec::new();
        let mut idx: usize = 0;
        while idx < POINT_COUNT
            invariant
                idx <= POINT_COUNT,
                randflots@.len() == idx,
                forall|i: int| 0 <= i < idx ==> randflots@[i] == i,
            decreases POINT_COUNT - idx,
        {
            randflots.push(idx);
            idx += 1;
        }
        assert(randflots@ =~= Seq::new(POINT_COUNT as nat, |i: int| i as usize));
        Perlin::permute(&mut randflots);
        randflots
    }

    /// Exchanges the entries at two places.
    pub fn exchange(p: &mut Vec<usize>, a: usize, b: usize)
        requires
            a < old(p)@.len(),
            b < old(p)@.len(),
        ensures
            final(p)@ == exchanged(old(p)@, a as int, b as int),
    {
        let x = p[a];
        let y = p[b];
        p.set(a, y);
        p.set(b, x);
    }

    /// Shuffles the table in place: from the last place down to the second,
    /// each entry changes places with one drawn from those before it.
    pub fn permute(p: &mut Vec<usize>)
        requires
            old(p)@.len() <= i32::MAX,
        ensures
            exists|draws: Seq<int>|
                {
                    &&& #[trigger] dealt(draws)
                    &&& draws.len() == old(p)@.len()
                    &&& forall|k: int| 1 <= k < draws.len() ==> 0 <= #[trigger] draws[k] < k
                    &&& final(p)@ == settled(old(p)@, draws, 0)
                },
            final(p)@.len() == old(p)@.len(),
            shuffled(old(p)@) ==> shuffled(final(p)@),
    {
        let ghost mut draws: Seq<int> = Seq::new(p@.len(), |k: int| 0);
        if p.len() < 2 {
            assert(dealt(draws));
            return ;
        }
        let mut i: usize = p.len() - 1;
        while i >= 1
            invariant
                p@.len() == old(p)@.len(),
                p@.len() <= i32::MAX,
                i < p@.len(),
                draws.len() == p@.len(),
                forall|k: int| i < k < draws.len() ==> 0 <= #[trigger] draws[k] < k,
                p@ == settled(old(p)@, draws, i as int),
                shuffled(old(p)@) ==> shuffled(p@),
            decreases i,
        {
            let target = random_int(0, i as i32) as usize;
            let ghost before = p@;
            let ghost earlier = draws;
            Self::exchange(p, target, i);
            proof {
                draws = draws.update(i as int, target as int);
                settled_above(old(p)@, earlier, draws, i as int);
                if shuffled(before) {
                    assert forall|x: int, y: int| 0 <= x < y < p@.len() implies p@[x] != p@[y] by {
                        let sx = if x == target { i as int } else if x == i { target as int } else { x };
                        let sy = if y == target { i as int } else if y == i { target as int } else { y };
                        assert(p@[x] == before[sx]);
                        assert(p@[y] == before[sy]);
                        assert(sx != sy);
                    }
                }
            }
            i -= 1;
        }
        proof {
            assert(dealt(draws));
        }
    }

    /// A generator with three fresh tables.
    pub fn new() -> (r: Self)
        ensures
            r.wf(),
            fresh(r.perm_x@),
            fresh(r.perm_y@),
            fresh(r.perm_z@),
    {
        let perm_x = Perlin::perlin_generate_perm();
        let perm_y = Perlin::perlin_generate_perm();
        let perm_z = Perlin::perlin_generate_perm();
        Self { perm_x, perm_y, perm_z }
    }

    /// The number of the gradient at the corner `(di, dj, dk)` of the lattice
    /// cell `(i, j, k)`: the three table entries of the wrapped ordinates,
    /// combined bit by bit.
    pub open spec fn spec_corner(self, i: i32, j: i32, k: i32, di: usize, dj: usize, dk: usize) -> usize {
        self.perm_x@[wrapped(i, di)] ^ self.perm_y@[wrapped(j, dj)] ^ self.perm_z@[wrapped(k, dk)]
    }

    pub fn corner(&self, i: i32, j: i32, k: i32, di: usize, dj: usize, dk: usize) -> (r: usize)
        requires
            self.wf(),
            di <= 1,
            dj <= 1,
            dk <= 1,
        ensures
            r == self.spec_corner(i, j, k, di, dj, dk),
            r < POINT_COUNT,
    {
        let x = self.perm_x[Self::wrap(i, di)];
        let y = self.perm_y[Self::wrap(j, dj)];
        let z = self.perm_z[Self::wrap(k, dk)];
        assert(x ^ y ^ z < 256) by (bit_vector)
            requires
                x < 256,
                y < 256,
                z < 256,
        ;
        x ^ y ^ z
    }

    fn wrap(i: i32, d: usize) -> (r: usize)
        requires
            d <= 1,
        ensures
            r == wrapped(i, d),
            r < POINT_COUNT,
    {
        let s: i64 = i as i64 + d as i64;
        let m: i64 = s % 256;
        if m < 0 {
            (m + 256) as usize
        } else {
            m as usize
        }
    }
}

} // verus!
