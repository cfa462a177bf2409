//! Cell-bucketed spatial index.
//!
//! The plane is partitioned into square cells of side `CELL_SIZE`; each
//! category of building keeps a mapping from cell key to the positions in
//! that cell, so radius queries scan only the cells that can intersect the
//! query square, independent of the total map size.

use vstd::prelude::*;
use crate::budget::BuildingType;

verus! {

/// An integer grid coordinate.  A building occupies exactly one tile.
#[derive(Clone, Copy, PartialEq, Eq, Hash, Debug, Structural)]
pub struct TilePos {
    pub x: u32,
    pub y: u32,
}

/// Side length of a spatial-index cell.
pub const CELL_SIZE: i64 = 8;

/// Cell key of a position: coordinates divided by the cell side.
pub open spec fn spec_cell_key(p: TilePos) -> (int, int) {
    (p.x as int / 8, p.y as int / 8)
}

/// Chebyshev distance of `p` from `c` is at most `radius`.
pub open spec fn within_chebyshev(p: TilePos, c: TilePos, radius: int) -> bool {
    -radius <= p.x - c.x <= radius && -radius <= p.y - c.y <= radius
}

/// Map a position to the key of the cell that holds it.
pub fn cell_key(pos: &TilePos) -> (k: (i64, i64))
    ensures
        (k.0 as int, k.1 as int) == spec_cell_key(*pos),
{
    (pos.x as i64 / CELL_SIZE, pos.y as i64 / CELL_SIZE)
}

/// One bucket of the index: the positions stored under one cell key.
pub struct GridCell {
    pub key: (i64, i64),
    pub members: Vec<TilePos>,
}

/// A well-formed bucket lists each position once, and only positions that
/// belong to its key.
pub open spec fn cell_wf(c: GridCell) -> bool {
    &&& forall|k: int|
        0 <= k < c.members@.len() ==> spec_cell_key(#[trigger] c.members@[k]) == (
        c.key.0 as int,
        c.key.1 as int,
        )
    &&& c.members@.no_duplicates()
}

/// Position index for one building category: a list of buckets with
/// pairwise distinct cell keys.
pub struct TypedSpatialGrid {
    pub cells: Vec<GridCell>,
}

impl Default for TypedSpatialGrid {
    /// An index holding no positions.
    fn default() -> (r: Self)
        ensures
            r.wf(),
            r.pos_set() == Set::<TilePos>::empty(),
    {
        let r = TypedSpatialGrid { cells: Vec::new() };
        proof {
            assert(r.pos_set() =~= Set::<TilePos>::empty());
        }
        r
    }
}

impl TypedSpatialGrid {
    /// The position is stored in some bucket.
    pub open spec fn contains_pos(self, p: TilePos) -> bool {
        exists|i: int|
            0 <= i < self.cells@.len() && (#[trigger] self.cells@[i]).members@.contains(p)
    }

    /// The abstract value of the index: the set of stored positions.
    pub open spec fn pos_set(self) -> Set<TilePos> {
        Set::new(|p: TilePos| self.contains_pos(p))
    }

    /// Buckets have distinct keys and each bucket is well formed.
    pub open spec fn wf(self) -> bool {
        &&& forall|i: int, j: int|
            0 <= i < j < self.cells@.len() ==> (#[trigger] self.cells@[i]).key != (
            #[trigger] self.cells@[j]).key
        &&& forall|i: int| 0 <= i < self.cells@.len() ==> cell_wf(#[trigger] self.cells@[i])
    }

    /// Index of the bucket with the given key, if one exists.
    fn find_cell(&self, key: (i64, i64)) -> (r: Option<usize>)
        ensures
            match r {
                Some(i) => i < self.cells@.len() && self.cells@[i as int].key == key,
                None => forall|i: int|
                    0 <= i < self.cells@.len() ==> (#[trigger] self.cells@[i]).key != key,
            },
    {
        let n = self.cells.len();
        let mut i: usize = 0;
        while i < n
            invariant
                i <= n,
                n == self.cells@.len(),
                forall|j: int| 0 <= j < i ==> (#[trigger] self.cells@[j]).key != key,
            decreases n - i,
        {
            let c = &self.cells[i];
            if c.key.0 == key.0 && c.key.1 == key.1 {
                return Some(i);
            }
            i = i + 1;
        }
        None
    }

    /// Store `pos`; storing a position that is already present changes nothing.
    pub fn insert(&mut self, pos: TilePos)
        requires
            old(self).wf(),
        ensures
            final(self).wf(),
            final(self).pos_set() == old(self).pos_set().insert(pos),
    {
        let key = cell_key(&pos);
        match self.find_cell(key) {
            Some(i) => {
                if !members_contain(&self.cells[i].members, &pos) {
                    self.cells[i].members.push(pos);
                    proof {
                        let oldg = *old(self);
                        let newg = *self;
                        assert forall|q: TilePos| #[trigger]
                            newg.contains_pos(q) implies oldg.contains_pos(q) || q == pos by {
                            let w = choose|w: int|
                                0 <= w < newg.cells@.len() && (
                                #[trigger] newg.cells@[w]).members@.contains(q);
                            if w != i {
                                assert(oldg.cells@[w].members@.contains(q));
                            } else {
                                if q != pos {
                                    let k = choose|k: int|
                                        0 <= k < newg.cells@[i as int].members@.len()
                                            && newg.cells@[i as int].members@[k] == q;
                                    assert(oldg.cells@[i as int].members@[k] == q);
                                }
                            }
                        }
                        assert(self.contains_pos(pos)) by {
                            let m = self.cells@[i as int].members@;
                            assert(m[m.len() - 1] == pos);
                            assert(0 <= i < self.cells@.len());
                        }
                        assert forall|q: TilePos|
                            oldg.contains_pos(q) implies newg.contains_pos(q) by {
                            let w = choose|w: int|
                                0 <= w < oldg.cells@.len() && (
                                #[trigger] oldg.cells@[w]).members@.contains(q);
                            if w == i {
                                let k = choose|k: int|
                                    0 <= k < oldg.cells@[w].members@.len()
                                        && oldg.cells@[w].members@[k] == q;
                                assert(newg.cells@[w].members@[k] == q);
                            } else {
                                assert(newg.cells@[w].members@.contains(q));
                            }
                        }
                        assert(final(self).pos_set() =~= old(self).pos_set().insert(pos));
                    }
                } else {
                    proof {
                        assert(self.contains_pos(pos)) by {
                            assert(0 <= i < self.cells@.len());
                            assert(self.cells@[i as int].members@.contains(pos));
                        }
                        assert(final(self).pos_set() =~= old(self).pos_set().insert(pos));
                    }
                }
            },
            None => {
                let members: Vec<TilePos> = vec![pos];
                self.cells.push(GridCell { key, members });
                proof {
                    let oldg = *old(self);
                    let newg = *self;
                    let n = oldg.cells@.len() as int;
                    assert(newg.cells@[n].members@[0] == pos);
                    assert(newg.contains_pos(pos));
                    assert forall|q: TilePos| #[trigger]
                        newg.contains_pos(q) implies oldg.contains_pos(q) || q == pos by {
                        let w = choose|w: int|
                            0 <= w < newg.cells@.len() && (
                            #[trigger] newg.cells@[w]).members@.contains(q);
                        if w < n {
                            assert(oldg.cells@[w].members@.contains(q));
                        }
                    }
                    assert forall|q: TilePos|
                        oldg.contains_pos(q) implies newg.contains_pos(q) by {
                        let w = choose|w: int|
                            0 <= w < oldg.cells@.len() && (
                            #[trigger] oldg.cells@[w]).members@.contains(q);
                        assert(newg.cells@[w].members@.contains(q));
                    }
                    assert(final(self).pos_set() =~= old(self).pos_set().insert(pos));
                }
            },
        }
    }

    /// Drop `pos` if stored; if its bucket empties, drop the bucket too.
    /// Removing an untracked position is a silent no-op.
    pub fn remove(&mut self, pos: &TilePos)
        requires
            old(self).wf(),
        ensures
            final(self).wf(),
            final(self).pos_set() == old(self).pos_set().remove(*pos),
    {
        let key = cell_key(pos);
        let found = self.find_cell(key);
        match found {
            Some(i) => {
                let m = member_index(&self.cells[i].members, pos);
                match m {
                    Some(j) => {
                        self.cells[i].members.remove(j);
                        proof {
                            old(self).cells@[i as int].members@.remove_ensures(j as int);
                            lemma_remove_keeps_no_duplicates(
                                old(self).cells@[i as int].members@,
                                j as int,
                            );
                            let oldg = *old(self);
                            let midg = *self;
                            assert forall|q: TilePos| #[trigger]
                                midg.contains_pos(q) implies oldg.contains_pos(q) && q != *pos by {
                                let w = choose|w: int|
                                    0 <= w < midg.cells@.len() && (
                                    #[trigger] midg.cells@[w]).members@.contains(q);
                                if w != i {
                                    assert(oldg.cells@[w].members@.contains(q));
                                    // q sits in a bucket with a different key, so q != pos
                                    assert(oldg.cells@[w].key != key);
                                    if q == *pos {
                                        let k = choose|k: int|
                                            0 <= k < oldg.cells@[w].members@.len()
                                                && oldg.cells@[w].members@[k] == q;
                                        assert(spec_cell_key(q) == (
                                            oldg.cells@[w].key.0 as int,
                                            oldg.cells@[w].key.1 as int,
                                        ));
                                    }
                                } else {
                                    lemma_remove_membership(
                                        oldg.cells@[i as int].members@,
                                        j as int,
                                        q,
                                    );
                                }
                            }
                            assert forall|q: TilePos|
                                oldg.contains_pos(q) && q != *pos implies midg.contains_pos(
                                q,
                            ) by {
                                let w = choose|w: int|
                                    0 <= w < oldg.cells@.len() && (
                                    #[trigger] oldg.cells@[w]).members@.contains(q);
                                if w == i {
                                    lemma_remove_membership(
                                        oldg.cells@[i as int].members@,
                                        j as int,
                                        q,
                                    );
                                    assert(midg.cells@[w].members@.contains(q));
                                } else {
                                    assert(midg.cells@[w].members@.contains(q));
                                }
                            }
                        }
                        if self.cells[i].members.is_empty() {
                            let midg: Ghost<TypedSpatialGrid> = Ghost(*self);
                            self.cells.remove(i);
                            proof {
                                midg@.cells@.remove_ensures(i as int);
                                let newg = *self;
                                assert forall|q: TilePos| #[trigger]
                                    newg.contains_pos(q) implies midg@.contains_pos(q) by {
                                    let w = choose|w: int|
                                        0 <= w < newg.cells@.len() && (
                                        #[trigger] newg.cells@[w]).members@.contains(q);
                                    if w < i {
                                        assert(midg@.cells@[w].members@.contains(q));
                                    } else {
                                        assert(midg@.cells@[w + 1].members@.contains(q));
                                    }
                                }
                                assert forall|q: TilePos| #[trigger]
                                    midg@.contains_pos(q) implies newg.contains_pos(q) by {
                                    let w = choose|w: int|
                                        0 <= w < midg@.cells@.len() && (
                                        #[trigger] midg@.cells@[w]).members@.contains(q);
                                    if w < i {
                                        assert(newg.cells@[w].members@.contains(q));
                                    } else {
                                        assert(w != i);
                                        assert(newg.cells@[w - 1].members@.contains(q));
                                    }
                                }
                                assert(final(self).pos_set() =~= old(self).pos_set().remove(*pos));
                            }
                        } else {
                            proof {
                                assert(final(self).pos_set() =~= old(self).pos_set().remove(*pos));
                            }
                        }
                    },
                    None => {
                        proof {
                            assert(!old(self).contains_pos(*pos)) by {
                                if old(self).contains_pos(*pos) {
                                    let w = choose|w: int|
                                        0 <= w < old(self).cells@.len() && (
                                        #[trigger] old(self).cells@[w]).members@.contains(*pos);
                                    let k = choose|k: int|
                                        0 <= k < old(self).cells@[w].members@.len()
                                            && old(self).cells@[w].members@[k] == *pos;
                                    assert(old(self).cells@[w].key == key);
                                    assert(w == i);
                                }
                            }
                            assert(final(self).pos_set() =~= old(self).pos_set().remove(*pos));
                        }
                    },
                }
            },
            None => {
                proof {
                    assert(!old(self).contains_pos(*pos)) by {
                        if old(self).contains_pos(*pos) {
                            let w = choose|w: int|
                                0 <= w < old(self).cells@.len() && (
                                #[trigger] old(self).cells@[w]).members@.contains(*pos);
                            let k = choose|k: int|
                                0 <= k < old(self).cells@[w].members@.len()
                                    && old(self).cells@[w].members@[k] == *pos;
                            assert(old(self).cells@[w].key == key);
                        }
                    }
                    assert(final(self).pos_set() =~= old(self).pos_set().remove(*pos));
                }
            },
        }
    }
}

impl TypedSpatialGrid {
    /// Every stored position within Chebyshev distance `radius` of `center`,
    /// each exactly once; nothing else.
    ///
    /// Only buckets whose key lies in the cell box around the query square
    /// have their members inspected.
    pub fn query_chebyshev(&self, center: &TilePos, radius: i64) -> (r: Vec<TilePos>)
        requires
            self.wf(),
        ensures
            r@.no_duplicates(),
            forall|p: TilePos| #[trigger]
                r@.contains(p) <==> (self.contains_pos(p) && within_chebyshev(
                    p,
                    *center,
                    radius as int,
                )),
    {
        let mut out: Vec<TilePos> = Vec::new();
        if radius < 0 {
            return out;
        }
        let r_eff: i64 = if radius > 4294967295 {
            4294967295
        } else {
            radius
        };
        proof {
            assert forall|p: TilePos|
                within_chebyshev(p, *center, radius as int) == within_chebyshev(
                    p,
                    *center,
                    r_eff as int,
                ) by {}
        }
        let ck = cell_key(center);
        let cr: i64 = (r_eff + CELL_SIZE - 1) / CELL_SIZE;
        let n = self.cells.len();
        let mut ci: usize = 0;
        while ci < n
            invariant
                self.wf(),
                n == self.cells@.len(),
                ci <= n,
                0 <= r_eff as int <= 4294967295,
                cr as int == (r_eff as int + 7) / 8,
                (ck.0 as int, ck.1 as int) == spec_cell_key(*center),
                out@.no_duplicates(),
                forall|p: TilePos| #[trigger]
                    out@.contains(p) <==> exists|w: int|
                        0 <= w < ci && (#[trigger] self.cells@[w]).members@.contains(p)
                            && within_chebyshev(p, *center, r_eff as int),
            decreases n - ci,
        {
            let k0 = self.cells[ci].key.0;
            let k1 = self.cells[ci].key.1;
            if ck.0 - cr <= k0 && k0 <= ck.0 + cr && ck.1 - cr <= k1 && k1 <= ck.1 + cr {
                let mlen = self.cells[ci].members.len();
                let mut mi: usize = 0;
                while mi < mlen
                    invariant
                        self.wf(),
                        ci < self.cells@.len(),
                        mlen == self.cells@[ci as int].members@.len(),
                        mi <= mlen,
                        0 <= r_eff as int <= 4294967295,
                        out@.no_duplicates(),
                        forall|p: TilePos| #[trigger]
                            out@.contains(p) <==> (exists|w: int|
                                0 <= w < ci && (#[trigger] self.cells@[w]).members@.contains(p)
                                    && within_chebyshev(p, *center, r_eff as int)) || (exists|
                                k: int,
                            |
                                0 <= k < mi && self.cells@[ci as int].members@[k] == p
                                    && within_chebyshev(p, *center, r_eff as int)),
                    decreases mlen - mi,
                {
                    let p = self.cells[ci].members[mi];
                    let ghost old_out = out@;
                    let ghost m = self.cells@[ci as int].members@;
                    let pdx = p.x as i64 - center.x as i64;
                    let pdy = p.y as i64 - center.y as i64;
                    if -r_eff <= pdx && pdx <= r_eff && -r_eff <= pdy && pdy <= r_eff {
                        proof {
                            assert(within_chebyshev(p, *center, r_eff as int));
                            assert(!out@.contains(p)) by {
                                if out@.contains(p) {
                                    if exists|w: int|
                                        0 <= w < ci && (
                                        #[trigger] self.cells@[w]).members@.contains(p)
                                            && within_chebyshev(p, *center, r_eff as int) {
                                        let w = choose|w: int|
                                            0 <= w < ci && (
                                            #[trigger] self.cells@[w]).members@.contains(p)
                                                && within_chebyshev(p, *center, r_eff as int);
                                        let kk = choose|kk: int|
                                            0 <= kk < self.cells@[w].members@.len()
                                                && self.cells@[w].members@[kk] == p;
                                        // p would sit in two buckets with equal keys
                                        assert(self.cells@[w].key == self.cells@[ci as int].key);
                                    } else {
                                        let k = choose|k: int|
                                            0 <= k < mi && self.cells@[ci as int].members@[k] == p
                                                && within_chebyshev(p, *center, r_eff as int);
                                        assert(self.cells@[ci as int].members@[k]
                                            == self.cells@[ci as int].members@[mi as int]);
                                    }
                                }
                            }
                        }
                        out.push(p);
                    } else {
                        proof {
                            assert(!within_chebyshev(p, *center, r_eff as int));
                        }
                    }
                    proof {
                        assert forall|q: TilePos| #[trigger]
                            out@.contains(q) implies old_out.contains(q) || (q == p
                            && within_chebyshev(p, *center, r_eff as int)) by {
                            let k = choose|k: int| 0 <= k < out@.len() && out@[k] == q;
                            if k < old_out.len() {
                                assert(old_out[k] == q);
                            }
                        }
                        assert forall|q: TilePos|
                            old_out.contains(q) implies out@.contains(q) by {
                            let k = choose|k: int| 0 <= k < old_out.len() && old_out[k] == q;
                            assert(out@[k] == q);
                        }
                        assert forall|q: TilePos| #[trigger]
                            out@.contains(q) implies (exists|w: int|
                            0 <= w < ci && (#[trigger] self.cells@[w]).members@.contains(q)
                                && within_chebyshev(q, *center, r_eff as int)) || (exists|k: int|
                            0 <= k < mi + 1 && m[k] == q && within_chebyshev(
                                q,
                                *center,
                                r_eff as int,
                            )) by {
                            if old_out.contains(q) {
                                if exists|k: int|
                                    0 <= k < mi && m[k] == q && within_chebyshev(
                                        q,
                                        *center,
                                        r_eff as int,
                                    ) {
                                    let k = choose|k: int|
                                        0 <= k < mi && m[k] == q && within_chebyshev(
                                            q,
                                            *center,
                                            r_eff as int,
                                        );
                                    assert(0 <= k < mi + 1 && m[k] == q);
                                }
                            } else {
                                assert(q == p && within_chebyshev(p, *center, r_eff as int));
                                assert(m[mi as int] == q);
                            }
                        }
                        assert forall|q: TilePos|
                            (exists|w: int|
                                0 <= w < ci && (#[trigger] self.cells@[w]).members@.contains(q)
                                    && within_chebyshev(q, *center, r_eff as int)) || (exists|
                            k: int,
                        |
                            0 <= k < mi + 1 && m[k] == q && within_chebyshev(
                                q,
                                *center,
                                r_eff as int,
                            )) implies #[trigger] out@.contains(q) by {
                            if exists|k: int|
                                0 <= k < mi + 1 && m[k] == q && within_chebyshev(
                                    q,
                                    *center,
                                    r_eff as int,
                                ) {
                                let k = choose|k: int|
                                    0 <= k < mi + 1 && m[k] == q && within_chebyshev(
                                        q,
                                        *center,
                                        r_eff as int,
                                    );
                                if k == mi {
                                    assert(q == p);
                                    assert(out@[out@.len() - 1] == p);
                                } else {
                                    assert(old_out.contains(q));
                                }
                            } else {
                                assert(old_out.contains(q));
                            }
                        }
                    }
                    mi = mi + 1;
                }
                proof {
                    assert forall|p: TilePos| #[trigger]
                        out@.contains(p) <==> exists|w: int|
                            0 <= w < ci + 1 && (#[trigger] self.cells@[w]).members@.contains(p)
                                && within_chebyshev(p, *center, r_eff as int) by {
                        if out@.contains(p) {
                            if exists|k: int|
                                0 <= k < mlen && self.cells@[ci as int].members@[k] == p
                                    && within_chebyshev(p, *center, r_eff as int) {
                                let k = choose|k: int|
                                    0 <= k < mlen && self.cells@[ci as int].members@[k] == p
                                        && within_chebyshev(p, *center, r_eff as int);
                                assert(self.cells@[ci as int].members@.contains(p));
                            }
                        }
                        if exists|w: int|
                            0 <= w < ci + 1 && (#[trigger] self.cells@[w]).members@.contains(p)
                                && within_chebyshev(p, *center, r_eff as int) {
                            let w = choose|w: int|
                                0 <= w < ci + 1 && (#[trigger] self.cells@[w]).members@.contains(p)
                                    && within_chebyshev(p, *center, r_eff as int);
                            if w == ci {
                                let k = choose|k: int|
                                    0 <= k < self.cells@[w].members@.len()
                                        && self.cells@[w].members@[k] == p;
                            }
                        }
                    }
                }
            } else {
                proof {
                    assert forall|p: TilePos| #[trigger]
                        self.cells@[ci as int].members@.contains(p) implies !within_chebyshev(
                        p,
                        *center,
                        r_eff as int,
                    ) by {
                        let k = choose|k: int|
                            0 <= k < self.cells@[ci as int].members@.len()
                                && self.cells@[ci as int].members@[k] == p;
                        if within_chebyshev(p, *center, r_eff as int) {
                            lemma_cell_box_cover(p, *center, r_eff as int, cr as int);
                        }
                    }
                    assert forall|p: TilePos| #[trigger]
                        out@.contains(p) <==> exists|w: int|
                            0 <= w < ci + 1 && (#[trigger] self.cells@[w]).members@.contains(p)
                                && within_chebyshev(p, *center, r_eff as int) by {
                        if exists|w: int|
                            0 <= w < ci + 1 && (#[trigger] self.cells@[w]).members@.contains(p)
                                && within_chebyshev(p, *center, r_eff as int) {
                            let w = choose|w: int|
                                0 <= w < ci + 1 && (#[trigger] self.cells@[w]).members@.contains(p)
                                    && within_chebyshev(p, *center, r_eff as int);
                            assert(w < ci);
                        }
                    }
                }
            }
            ci = ci + 1;
        }
        out
    }
}

/// A position within Chebyshev distance `r` of `c` lies in a cell whose key
/// is within `(r + 7) / 8` of `c`'s cell key on both axes.
proof fn lemma_cell_box_cover(p: TilePos, c: TilePos, r: int, cr: int)
    requires
        0 <= r,
        cr == (r + 7) / 8,
        within_chebyshev(p, c, r),
    ensures
        spec_cell_key(c).0 - cr <= spec_cell_key(p).0 <= spec_cell_key(c).0 + cr,
        spec_cell_key(c).1 - cr <= spec_cell_key(p).1 <= spec_cell_key(c).1 + cr,
{
    lemma_div8_close(p.x as int, c.x as int, r, cr);
    lemma_div8_close(p.y as int, c.y as int, r, cr);
}

/// If `a` and `b` differ by at most `r`, their quotients by 8 differ by at
/// most `(r + 7) / 8`.
proof fn lemma_div8_close(a: int, b: int, r: int, cr: int)
    requires
        0 <= a,
        0 <= b,
        0 <= r,
        -r <= a - b <= r,
        cr == (r + 7) / 8,
    ensures
        b / 8 - cr <= a / 8 <= b / 8 + cr,
{
    vstd::arithmetic::div_mod::lemma_fundamental_div_mod(r + 7, 8);
    assert(8 * cr >= r);
    assert(a <= b + cr * 8);
    vstd::arithmetic::div_mod::lemma_div_is_ordered(a, b + cr * 8, 8);
    vstd::arithmetic::div_mod::lemma_hoist_over_denominator(b, cr, 8nat);
    assert(a / 8 <= b / 8 + cr);
    assert(b <= a + cr * 8);
    vstd::arithmetic::div_mod::lemma_div_is_ordered(b, a + cr * 8, 8);
    vstd::arithmetic::div_mod::lemma_hoist_over_denominator(a, cr, 8nat);
    assert(b / 8 <= a / 8 + cr);
}

/// Positions of `s` within Chebyshev distance `radius` of `c`.
pub open spec fn in_radius(s: Set<TilePos>, c: TilePos, radius: int) -> Set<TilePos> {
    s.filter(|p: TilePos| within_chebyshev(p, c, radius))
}

/// Layered index: one bucket map per building category plus one for all
/// buildings together.  Decorative buildings occupy a tile (they appear in
/// `all_buildings`) but have no category map of their own.
pub struct SpatialGrid {
    pub residential: TypedSpatialGrid,
    pub commercial: TypedSpatialGrid,
    pub industry: TypedSpatialGrid,
    pub roads: TypedSpatialGrid,
    pub all_buildings: TypedSpatialGrid,
}

impl Default for SpatialGrid {
    /// An index holding no positions in any layer.
    fn default() -> (r: Self)
        ensures
            r.wf(),
            r.residential.pos_set() == Set::<TilePos>::empty(),
            r.commercial.pos_set() == Set::<TilePos>::empty(),
            r.industry.pos_set() == Set::<TilePos>::empty(),
            r.roads.pos_set() == Set::<TilePos>::empty(),
            r.all_buildings.pos_set() == Set::<TilePos>::empty(),
    {
        SpatialGrid {
            residential: TypedSpatialGrid::default(),
            commercial: TypedSpatialGrid::default(),
            industry: TypedSpatialGrid::default(),
            roads: TypedSpatialGrid::default(),
            all_buildings: TypedSpatialGrid::default(),
        }
    }
}

impl SpatialGrid {
    /// All five layers are well formed.
    pub open spec fn wf(self) -> bool {
        &&& self.residential.wf()
        &&& self.commercial.wf()
        &&& self.industry.wf()
        &&& self.roads.wf()
        &&& self.all_buildings.wf()
    }

    /// The category layer that `building_type` is stored in, as a set;
    /// Decorative has no layer of its own.
    pub open spec fn category_set(self, building_type: BuildingType) -> Set<TilePos> {
        match building_type {
            BuildingType::Residential => self.residential.pos_set(),
            BuildingType::Commercial => self.commercial.pos_set(),
            BuildingType::Industry => self.industry.pos_set(),
            BuildingType::Road => self.roads.pos_set(),
            BuildingType::Decorative => Set::empty(),
        }
    }

    /// Record a placed building: it joins `all_buildings` and, unless
    /// decorative, its category layer; the other layers are untouched.
    pub fn insert(&mut self, pos: TilePos, building_type: BuildingType)
        requires
            old(self).wf(),
        ensures
            final(self).wf(),
            final(self).all_buildings.pos_set() == old(self).all_buildings.pos_set().insert(pos),
            final(self).residential.pos_set() == if building_type == BuildingType::Residential {
                old(self).residential.pos_set().insert(pos)
            } else {
                old(self).residential.pos_set()
            },
            final(self).commercial.pos_set() == if building_type == BuildingType::Commercial {
                old(self).commercial.pos_set().insert(pos)
            } else {
                old(self).commercial.pos_set()
            },
            final(self).industry.pos_set() == if building_type == BuildingType::Industry {
                old(self).industry.pos_set().insert(pos)
            } else {
                old(self).industry.pos_set()
            },
            final(self).roads.pos_set() == if building_type == BuildingType::Road {
                old(self).roads.pos_set().insert(pos)
            } else {
                old(self).roads.pos_set()
            },
    {
        self.all_buildings.insert(pos);
        match building_type {
            BuildingType::Residential => self.residential.insert(pos),
            BuildingType::Commercial => self.commercial.insert(pos),
            BuildingType::Industry => self.industry.insert(pos),
            BuildingType::Road => self.roads.insert(pos),
            BuildingType::Decorative => {},
        }
    }

    /// Record a demolished building: it leaves `all_buildings` and, unless
    /// decorative, its category layer; removing an untracked position is a
    /// silent no-op.
    pub fn remove(&mut self, pos: &TilePos, building_type: BuildingType)
        requires
            old(self).wf(),
        ensures
            final(self).wf(),
            final(self).all_buildings.pos_set() == old(self).all_buildings.pos_set().remove(*pos),
            final(self).residential.pos_set() == if building_type == BuildingType::Residential {
                old(self).residential.pos_set().remove(*pos)
            } else {
                old(self).residential.pos_set()
            },
            final(self).commercial.pos_set() == if building_type == BuildingType::Commercial {
                old(self).commercial.pos_set().remove(*pos)
            } else {
                old(self).commercial.pos_set()
            },
            final(self).industry.pos_set() == if building_type == BuildingType::Industry {
                old(self).industry.pos_set().remove(*pos)
            } else {
                old(self).industry.pos_set()
            },
            final(self).roads.pos_set() == if building_type == BuildingType::Road {
                old(self).roads.pos_set().remove(*pos)
            } else {
                old(self).roads.pos_set()
            },
    {
        self.all_buildings.remove(pos);
        match building_type {
            BuildingType::Residential => self.residential.remove(pos),
            BuildingType::Commercial => self.commercial.remove(pos),
            BuildingType::Industry => self.industry.remove(pos),
            BuildingType::Road => self.roads.remove(pos),
            BuildingType::Decorative => {},
        }
    }

    /// Number of residential buildings within `radius` of `center`, never
    /// counting `center` itself, saturating at `u32::MAX`.
    pub fn count_residential_in_radius(&self, center: &TilePos, radius: i64) -> (r: u32)
        requires
            self.wf(),
        ensures
            r as int == spec_count_excluding(
                self.residential.pos_set(),
                *center,
                radius as int,
            ),
    {
        let v = self.residential.query_chebyshev(center, radius);
        count_excluding(v, center, Ghost(self.residential.pos_set()), Ghost(radius as int))
    }

    /// Is any road within `radius` of `center` (the center itself counts)?
    pub fn has_road_in_radius(&self, center: &TilePos, radius: i64) -> (r: bool)
        requires
            self.wf(),
        ensures
            r == exists|p: TilePos|
                #[trigger] self.roads.pos_set().contains(p) && within_chebyshev(
                    p,
                    *center,
                    radius as int,
                ),
    {
        let v = self.roads.query_chebyshev(center, radius);
        if v.len() > 0 {
            proof {
                let p0 = v@[0];
                assert(v@.contains(p0));
                assert(self.roads.contains_pos(p0));
                assert(self.roads.pos_set().contains(p0) && within_chebyshev(
                    p0,
                    *center,
                    radius as int,
                ));
            }
            true
        } else {
            proof {
                assert forall|p: TilePos| #[trigger]
                    self.roads.pos_set().contains(p) implies !within_chebyshev(
                    p,
                    *center,
                    radius as int,
                ) by {
                    if within_chebyshev(p, *center, radius as int) {
                        assert(v@.contains(p));
                    }
                }
            }
            false
        }
    }

    /// Is any building other than `center` itself within `radius` of `center`?
    pub fn has_building_in_radius(&self, center: &TilePos, radius: i64) -> (r: bool)
        requires
            self.wf(),
        ensures
            r == exists|p: TilePos|
                #[trigger] self.all_buildings.pos_set().contains(p) && p != *center
                    && within_chebyshev(p, *center, radius as int),
    {
        let v = self.all_buildings.query_chebyshev(center, radius);
        let n = v.len();
        let mut i: usize = 0;
        while i < n
            invariant
                i <= n,
                n == v@.len(),
                forall|j: int| 0 <= j < i ==> v@[j] == *center,
                forall|p: TilePos| #[trigger]
                    v@.contains(p) <==> self.all_buildings.contains_pos(p) && within_chebyshev(
                        p,
                        *center,
                        radius as int,
                    ),
            decreases n - i,
        {
            if !(v[i].x == center.x && v[i].y == center.y) {
                proof {
                    let p0 = v@[i as int];
                    assert(v@.contains(p0));
                    assert(self.all_buildings.contains_pos(p0));
                    assert(self.all_buildings.pos_set().contains(p0) && p0 != *center
                        && within_chebyshev(p0, *center, radius as int));
                }
                return true;
            }
            i = i + 1;
        }
        proof {
            assert forall|p: TilePos|
                #[trigger] self.all_buildings.pos_set().contains(p) && p != *center
                    implies !within_chebyshev(p, *center, radius as int) by {
                if within_chebyshev(p, *center, radius as int) {
                    assert(v@.contains(p));
                    let j = choose|j: int| 0 <= j < v@.len() && v@[j] == p;
                }
            }
        }
        false
    }

    /// All buildings within `radius` of `center`, `center` included if built.
    pub fn buildings_in_radius(&self, center: &TilePos, radius: i64) -> (r: Vec<TilePos>)
        requires
            self.wf(),
        ensures
            r@.no_duplicates(),
            forall|p: TilePos| #[trigger]
                r@.contains(p) <==> self.all_buildings.pos_set().contains(p) && within_chebyshev(
                    p,
                    *center,
                    radius as int,
                ),
    {
        self.all_buildings.query_chebyshev(center, radius)
    }
}

/// Cardinality of the in-radius positions other than `c` itself, saturated
/// at `u32::MAX`.
pub open spec fn spec_count_excluding(s: Set<TilePos>, c: TilePos, radius: int) -> int {
    let full = in_radius(s, c, radius).remove(c).len() as int;
    if full > u32::MAX as int {
        u32::MAX as int
    } else {
        full
    }
}

/// Count the entries of `v` other than `c`, saturating at `u32::MAX`.
/// `v` must be the duplicate-free listing of the in-radius positions.
fn count_excluding(v: Vec<TilePos>, c: &TilePos, s: Ghost<Set<TilePos>>, radius: Ghost<int>) -> (r:
    u32)
    requires
        v@.no_duplicates(),
        forall|p: TilePos| #[trigger]
            v@.contains(p) <==> s@.contains(p) && within_chebyshev(p, *c, radius@),
    ensures
        r as int == spec_count_excluding(s@, *c, radius@),
{
    let ghost pred = |p: TilePos| p != *c;
    let n = v.len();
    let mut count: u32 = 0;
    let mut i: usize = 0;
    while i < n
        invariant
            i <= n,
            n == v@.len(),
            count as int == sat_u32(v@.take(i as int).filter(|p: TilePos| p != *c).len() as int),
            pred == (|p: TilePos| p != *c),
        decreases n - i,
    {
        proof {
            assert(v@.take(i as int + 1) =~= v@.take(i as int).push(v@[i as int]));
            lemma_filter_push(v@.take(i as int), pred, v@[i as int]);
            broadcast use vstd::seq_lib::group_seq_properties;
        }
        if !(v[i].x == c.x && v[i].y == c.y) {
            if count < u32::MAX {
                count = count + 1;
            }
        } else {
            proof {
                assert(!pred(v@[i as int]));
            }
        }
        i = i + 1;
    }
    proof {
        assert(v@.take(n as int) =~= v@);
        let w = v@.filter(pred);
        lemma_filter_no_duplicates(v@, pred);
        lemma_filter_membership_all(v@, pred);
        w.unique_seq_to_set();
        assert(w.to_set() =~= in_radius(s@, *c, radius@).remove(*c));
    }
    count
}

/// Saturate a nonnegative count at `u32::MAX`.
pub open spec fn sat_u32(n: int) -> int {
    if n > u32::MAX as int {
        u32::MAX as int
    } else {
        n
    }
}

/// `filter` looked at one more element.
proof fn lemma_filter_push(s: Seq<TilePos>, pred: spec_fn(TilePos) -> bool, e: TilePos)
    ensures
        s.push(e).filter(pred) == if pred(e) {
            s.filter(pred).push(e)
        } else {
            s.filter(pred)
        },
{
    reveal(Seq::filter);
    assert(s.push(e).drop_last() =~= s);
    assert(s.push(e).last() == e);
}

/// A filtered duplicate-free sequence stays duplicate free.
proof fn lemma_filter_no_duplicates(s: Seq<TilePos>, pred: spec_fn(TilePos) -> bool)
    requires
        s.no_duplicates(),
    ensures
        s.filter(pred).no_duplicates(),
    decreases s.len(),
{
    reveal(Seq::filter);
    if s.len() > 0 {
        lemma_filter_no_duplicates(s.drop_last(), pred);
        lemma_filter_membership_all(s.drop_last(), pred);
        if pred(s.last()) {
            let w = s.drop_last().filter(pred);
            assert(!s.drop_last().contains(s.last()));
            assert(!w.contains(s.last()));
            assert forall|a: int, b: int|
                0 <= a < b < w.push(s.last()).len() implies w.push(s.last())[a] != w.push(
                s.last(),
            )[b] by {
                if b < w.len() {
                    assert(w[a] != w[b]);
                } else {
                    assert(w.push(s.last())[b] == s.last());
                    assert(w.push(s.last())[a] == w[a]);
                    assert(w.contains(w[a]));
                }
            }
        }
    }
}

/// An element is in the filtered sequence iff it is in the original and
/// satisfies the predicate.
proof fn lemma_filter_membership_all(s: Seq<TilePos>, pred: spec_fn(TilePos) -> bool)
    ensures
        forall|q: TilePos| #[trigger]
            s.filter(pred).contains(q) <==> s.contains(q) && pred(q),
    decreases s.len(),
{
    reveal(Seq::filter);
    if s.len() > 0 {
        lemma_filter_membership_all(s.drop_last(), pred);
        assert forall|q: TilePos| #[trigger]
            s.filter(pred).contains(q) <==> s.contains(q) && pred(q) by {
            let w = s.drop_last().filter(pred);
            if s.filter(pred).contains(q) {
                let k = choose|k: int| 0 <= k < s.filter(pred).len() && s.filter(pred)[k] == q;
                if pred(s.last()) {
                    if k < w.len() {
                        assert(w.contains(q));
                        assert(s.drop_last().contains(q));
                        let j = choose|j: int|
                            0 <= j < s.drop_last().len() && s.drop_last()[j] == q;
                        assert(s[j] == q);
                    } else {
                        assert(q == s.last());
                        assert(s[s.len() - 1] == q);
                    }
                } else {
                    assert(w.contains(q));
                    assert(s.drop_last().contains(q));
                    let j = choose|j: int| 0 <= j < s.drop_last().len() && s.drop_last()[j] == q;
                    assert(s[j] == q);
                }
            }
            if s.contains(q) && pred(q) {
                let k = choose|k: int| 0 <= k < s.len() && s[k] == q;
                if k < s.len() - 1 {
                    assert(s.drop_last()[k] == q);
                    assert(s.drop_last().contains(q));
                    assert(w.contains(q));
                    let j = choose|j: int| 0 <= j < w.len() && w[j] == q;
                    if pred(s.last()) {
                        assert(w.push(s.last())[j] == q);
                    }
                } else {
                    assert(q == s.last());
                    assert(s.filter(pred)[s.filter(pred).len() - 1] == q);
                }
            }
        }
    } else {
        assert(s.filter(pred) =~= Seq::<TilePos>::empty());
    }
}

/// The `all_buildings` layer after a batch of placement events.
pub open spec fn insert_all_positions(s: Set<TilePos>, events: Seq<crate::budget::BuildingPlaced>)
    -> Set<TilePos>
    decreases events.len(),
{
    if events.len() == 0 {
        s
    } else {
        insert_all_positions(s, events.drop_last()).insert(events.last().tile_pos)
    }
}

/// A category layer after a batch of placement events: only events of that
/// category land in it.
pub open spec fn insert_category_positions(
    s: Set<TilePos>,
    events: Seq<crate::budget::BuildingPlaced>,
    cat: BuildingType,
) -> Set<TilePos>
    decreases events.len(),
{
    if events.len() == 0 {
        s
    } else {
        let prev = insert_category_positions(s, events.drop_last(), cat);
        if events.last().building_type == cat {
            prev.insert(events.last().tile_pos)
        } else {
            prev
        }
    }
}

/// The `all_buildings` layer after a batch of demolition events.
pub open spec fn remove_all_positions(
    s: Set<TilePos>,
    events: Seq<crate::budget::BuildingDemolished>,
) -> Set<TilePos>
    decreases events.len(),
{
    if events.len() == 0 {
        s
    } else {
        remove_all_positions(s, events.drop_last()).remove(events.last().tile_pos)
    }
}

/// A category layer after a batch of demolition events.
pub open spec fn remove_category_positions(
    s: Set<TilePos>,
    events: Seq<crate::budget::BuildingDemolished>,
    cat: BuildingType,
) -> Set<TilePos>
    decreases events.len(),
{
    if events.len() == 0 {
        s
    } else {
        let prev = remove_category_positions(s, events.drop_last(), cat);
        if events.last().building_type == cat {
            prev.remove(events.last().tile_pos)
        } else {
            prev
        }
    }
}

/// Record every placement event of a batch in the spatial index, in order.
pub fn sync_spatial_grid_on_placement(
    spatial_grid: &mut SpatialGrid,
    events: &Vec<crate::budget::BuildingPlaced>,
)
    requires
        old(spatial_grid).wf(),
    ensures
        final(spatial_grid).wf(),
        final(spatial_grid).all_buildings.pos_set() == insert_all_positions(
            old(spatial_grid).all_buildings.pos_set(),
            events@,
        ),
        final(spatial_grid).residential.pos_set() == insert_category_positions(
            old(spatial_grid).residential.pos_set(),
            events@,
            BuildingType::Residential,
        ),
        final(spatial_grid).commercial.pos_set() == insert_category_positions(
            old(spatial_grid).commercial.pos_set(),
            events@,
            BuildingType::Commercial,
        ),
        final(spatial_grid).industry.pos_set() == insert_category_positions(
            old(spatial_grid).industry.pos_set(),
            events@,
            BuildingType::Industry,
        ),
        final(spatial_grid).roads.pos_set() == insert_category_positions(
            old(spatial_grid).roads.pos_set(),
            events@,
            BuildingType::Road,
        ),
{
    let n = events.len();
    let mut i: usize = 0;
    while i < n
        invariant
            i <= n,
            n == events@.len(),
            spatial_grid.wf(),
            spatial_grid.all_buildings.pos_set() == insert_all_positions(
                old(spatial_grid).all_buildings.pos_set(),
                events@.take(i as int),
            ),
            spatial_grid.residential.pos_set() == insert_category_positions(
                old(spatial_grid).residential.pos_set(),
                events@.take(i as int),
                BuildingType::Residential,
            ),
            spatial_grid.commercial.pos_set() == insert_category_positions(
                old(spatial_grid).commercial.pos_set(),
                events@.take(i as int),
                BuildingType::Commercial,
            ),
            spatial_grid.industry.pos_set() == insert_category_positions(
                old(spatial_grid).industry.pos_set(),
                events@.take(i as int),
                BuildingType::Industry,
            ),
            spatial_grid.roads.pos_set() == insert_category_positions(
                old(spatial_grid).roads.pos_set(),
                events@.take(i as int),
                BuildingType::Road,
            ),
        decreases n - i,
    {
        let e = events[i];
        spatial_grid.insert(e.tile_pos, e.building_type);
        i = i + 1;
        proof {
            assert(events@.take(i as int).drop_last() =~= events@.take(i as int - 1));
            assert(events@.take(i as int).last() == events@[i as int - 1]);
        }
    }
    proof {
        assert(events@.take(n as int) =~= events@);
    }
}

/// Record every demolition event of a batch in the spatial index, in order.
pub fn sync_spatial_grid_on_demolition(
    spatial_grid: &mut SpatialGrid,
    events: &Vec<crate::budget::BuildingDemolished>,
)
    requires
        old(spatial_grid).wf(),
    ensures
        final(spatial_grid).wf(),
        final(spatial_grid).all_buildings.pos_set() == remove_all_positions(
            old(spatial_grid).all_buildings.pos_set(),
            events@,
        ),
        final(spatial_grid).residential.pos_set() == remove_category_positions(
            old(spatial_grid).residential.pos_set(),
            events@,
            BuildingType::Residential,
        ),
        final(spatial_grid).commercial.pos_set() == remove_category_positions(
            old(spatial_grid).commercial.pos_set(),
            events@,
            BuildingType::Commercial,
        ),
        final(spatial_grid).industry.pos_set() == remove_category_positions(
            old(spatial_grid).industry.pos_set(),
            events@,
            BuildingType::Industry,
        ),
        final(spatial_grid).roads.pos_set() == remove_category_positions(
            old(spatial_grid).roads.pos_set(),
            events@,
            BuildingType::Road,
        ),
{
    let n = events.len();
    let mut i: usize = 0;
    while i < n
        invariant
            i <= n,
            n == events@.len(),
            spatial_grid.wf(),
            spatial_grid.all_buildings.pos_set() == remove_all_positions(
                old(spatial_grid).all_buildings.pos_set(),
                events@.take(i as int),
            ),
            spatial_grid.residential.pos_set() == remove_category_positions(
                old(spatial_grid).residential.pos_set(),
                events@.take(i as int),
                BuildingType::Residential,
            ),
            spatial_grid.commercial.pos_set() == remove_category_positions(
                old(spatial_grid).commercial.pos_set(),
                events@.take(i as int),
                BuildingType::Commercial,
            ),
            spatial_grid.industry.pos_set() == remove_category_positions(
                old(spatial_grid).industry.pos_set(),
                events@.take(i as int),
                BuildingType::Industry,
            ),
            spatial_grid.roads.pos_set() == remove_category_positions(
                old(spatial_grid).roads.pos_set(),
                events@.take(i as int),
                BuildingType::Road,
            ),
        decreases n - i,
    {
        let e = events[i];
        spatial_grid.remove(&e.tile_pos, e.building_type);
        i = i + 1;
        proof {
            assert(events@.take(i as int).drop_last() =~= events@.take(i as int - 1));
            assert(events@.take(i as int).last() == events@[i as int - 1]);
        }
    }
    proof {
        assert(events@.take(n as int) =~= events@);
    }
}

/// The layers of a `SpatialGrid` agree: every categorized position is in
/// `all_buildings`, and no position carries two categories.  (Decorative
/// buildings sit in `all_buildings` alone.)
pub open spec fn layers_consistent(
    residential: Set<TilePos>,
    commercial: Set<TilePos>,
    industry: Set<TilePos>,
    roads: Set<TilePos>,
    all_buildings: Set<TilePos>,
) -> bool {
    &&& residential.subset_of(all_buildings)
    &&& commercial.subset_of(all_buildings)
    &&& industry.subset_of(all_buildings)
    &&& roads.subset_of(all_buildings)
    &&& forall|p: TilePos|
        {
            let layers: int = (if residential.contains(p) {
                1int
            } else {
                0int
            }) + (if commercial.contains(p) {
                1int
            } else {
                0int
            }) + (if industry.contains(p) {
                1int
            } else {
                0int
            }) + (if #[trigger] roads.contains(p) {
                1int
            } else {
                0int
            });
            layers <= 1
        }
}

/// Recording the placement of a building on a free tile keeps the layers
/// consistent: the position joins `all_buildings` and at most its own
/// category.  This is the update `SpatialGrid::insert` performs.
pub proof fn lemma_insert_keeps_layers_consistent(
    residential: Set<TilePos>,
    commercial: Set<TilePos>,
    industry: Set<TilePos>,
    roads: Set<TilePos>,
    all_buildings: Set<TilePos>,
    pos: TilePos,
    building_type: BuildingType,
)
    requires
        layers_consistent(residential, commercial, industry, roads, all_buildings),
        !all_buildings.contains(pos),
    ensures
        layers_consistent(
            if building_type == BuildingType::Residential {
                residential.insert(pos)
            } else {
                residential
            },
            if building_type == BuildingType::Commercial {
                commercial.insert(pos)
            } else {
                commercial
            },
            if building_type == BuildingType::Industry {
                industry.insert(pos)
            } else {
                industry
            },
            if building_type == BuildingType::Road {
                roads.insert(pos)
            } else {
                roads
            },
            all_buildings.insert(pos),
        ),
{
}

/// Recording the demolition of a building of its own category keeps the
/// layers consistent: the position leaves `all_buildings` and its category.
/// This is the update `SpatialGrid::remove` performs.
pub proof fn lemma_remove_keeps_layers_consistent(
    residential: Set<TilePos>,
    commercial: Set<TilePos>,
    industry: Set<TilePos>,
    roads: Set<TilePos>,
    all_buildings: Set<TilePos>,
    pos: TilePos,
    building_type: BuildingType,
)
    requires
        layers_consistent(residential, commercial, industry, roads, all_buildings),
        // the demolition names the category the position actually has, or
        // the position is untracked and the removal is a no-op
        match building_type {
            BuildingType::Residential => residential.contains(pos) || !all_buildings.contains(pos),
            BuildingType::Commercial => commercial.contains(pos) || !all_buildings.contains(pos),
            BuildingType::Industry => industry.contains(pos) || !all_buildings.contains(pos),
            BuildingType::Road => roads.contains(pos) || !all_buildings.contains(pos),
            BuildingType::Decorative => !residential.contains(pos) && !commercial.contains(pos)
                && !industry.contains(pos) && !roads.contains(pos),
        },
    ensures
        layers_consistent(
            if building_type == BuildingType::Residential {
                residential.remove(pos)
            } else {
                residential
            },
            if building_type == BuildingType::Commercial {
                commercial.remove(pos)
            } else {
                commercial
            },
            if building_type == BuildingType::Industry {
                industry.remove(pos)
            } else {
                industry
            },
            if building_type == BuildingType::Road {
                roads.remove(pos)
            } else {
                roads
            },
            all_buildings.remove(pos),
        ),
{
    let r2 = if building_type == BuildingType::Residential {
        residential.remove(pos)
    } else {
        residential
    };
    let c2 = if building_type == BuildingType::Commercial {
        commercial.remove(pos)
    } else {
        commercial
    };
    let i2 = if building_type == BuildingType::Industry {
        industry.remove(pos)
    } else {
        industry
    };
    let o2 = if building_type == BuildingType::Road {
        roads.remove(pos)
    } else {
        roads
    };
    let all2 = all_buildings.remove(pos);
    assert forall|q: TilePos|
        r2.contains(q) || c2.contains(q) || i2.contains(q) || o2.contains(q) implies
        all2.contains(q) by {
        assert((if residential.contains(q) {
            1int
        } else {
            0int
        }) + (if commercial.contains(q) {
            1int
        } else {
            0int
        }) + (if industry.contains(q) {
            1int
        } else {
            0int
        }) + (if roads.contains(q) {
            1int
        } else {
            0int
        }) <= 1);
        assert((if residential.contains(pos) {
            1int
        } else {
            0int
        }) + (if commercial.contains(pos) {
            1int
        } else {
            0int
        }) + (if industry.contains(pos) {
            1int
        } else {
            0int
        }) + (if roads.contains(pos) {
            1int
        } else {
            0int
        }) <= 1);
    }
    assert forall|q: TilePos|
        {
            let layers: int = (if r2.contains(q) {
                1int
            } else {
                0int
            }) + (if c2.contains(q) {
                1int
            } else {
                0int
            }) + (if i2.contains(q) {
                1int
            } else {
                0int
            }) + (if #[trigger] o2.contains(q) {
                1int
            } else {
                0int
            });
            layers <= 1
        } by {
        assert((if residential.contains(q) {
            1int
        } else {
            0int
        }) + (if commercial.contains(q) {
            1int
        } else {
            0int
        }) + (if industry.contains(q) {
            1int
        } else {
            0int
        }) + (if roads.contains(q) {
            1int
        } else {
            0int
        }) <= 1);
    }
}

/// A removed position is never returned by a later radius query: it is not
/// in the index's set, so it is not in any in-radius subset.
pub proof fn lemma_removed_position_not_in_radius(s: Set<TilePos>, p: TilePos, c: TilePos, r: int)
    ensures
        !in_radius(s.remove(p), c, r).contains(p),
{
}

/// Placing a position that was not yet tracked and then removing it restores
/// the index's abstract value exactly.
pub proof fn lemma_insert_remove_round_trip(s: Set<TilePos>, p: TilePos)
    requires
        !s.contains(p),
    ensures
        s.insert(p).remove(p) == s,
{
    assert(s.insert(p).remove(p) =~= s);
}

/// Whether the list contains the position.
fn members_contain(m: &Vec<TilePos>, p: &TilePos) -> (r: bool)
    ensures
        r == m@.contains(*p),
{
    let n = m.len();
    let mut i: usize = 0;
    while i < n
        invariant
            i <= n,
            n == m@.len(),
            forall|j: int| 0 <= j < i ==> m@[j] != *p,
        decreases n - i,
    {
        if m[i].x == p.x && m[i].y == p.y {
            return true;
        }
        i = i + 1;
    }
    false
}

/// Index of the position in the list, if present.
fn member_index(m: &Vec<TilePos>, p: &TilePos) -> (r: Option<usize>)
    ensures
        match r {
            Some(j) => j < m@.len() && m@[j as int] == *p,
            None => !m@.contains(*p),
        },
{
    let n = m.len();
    let mut i: usize = 0;
    while i < n
        invariant
            i <= n,
            n == m@.len(),
            forall|j: int| 0 <= j < i ==> m@[j] != *p,
        decreases n - i,
    {
        if m[i].x == p.x && m[i].y == p.y {
            return Some(i);
        }
        i = i + 1;
    }
    None
}

/// Removing index `j` from a duplicate-free sequence drops exactly `s[j]`.
pub proof fn lemma_remove_membership(s: Seq<TilePos>, j: int, q: TilePos)
    requires
        0 <= j < s.len(),
        s.no_duplicates(),
    ensures
        s.remove(j).contains(q) <==> (s.contains(q) && q != s[j]),
{
    s.remove_ensures(j);
    if s.remove(j).contains(q) {
        let k = choose|k: int| 0 <= k < s.remove(j).len() && s.remove(j)[k] == q;
        if k < j {
            assert(s[k] == q);
        } else {
            assert(s[k + 1] == q);
        }
    }
    if s.contains(q) && q != s[j] {
        let k = choose|k: int| 0 <= k < s.len() && s[k] == q;
        if k < j {
            assert(s.remove(j)[k] == q);
        } else {
            assert(k != j);
            assert(s.remove(j)[k - 1] == q);
        }
    }
}

/// Removing an index from a duplicate-free sequence keeps it duplicate free.
pub proof fn lemma_remove_keeps_no_duplicates(s: Seq<TilePos>, j: int)
    requires
        0 <= j < s.len(),
        s.no_duplicates(),
    ensures
        s.remove(j).no_duplicates(),
{
    s.remove_ensures(j);
    assert forall|a: int, b: int|
        0 <= a < b < s.remove(j).len() implies s.remove(j)[a] != s.remove(j)[b] by {
        let a0: int = if a < j { a } else { a + 1 };
        let b0: int = if b < j { b } else { b + 1 };
        assert(s.remove(j)[a] == s[a0]);
        assert(s.remove(j)[b] == s[b0]);
    }
}

} // verus!
