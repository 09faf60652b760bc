//! Anti-diagonal traversal of the tile grid.
//!
//! Cells are visited grouped by their anti-diagonal index `x + y`, in
//! increasing order, and within one diagonal by increasing `x` (equivalently,
//! decreasing `y`).  Rendering consumes this order for back-to-front
//! isometric painting: farther tiles are emitted first.

use vstd::prelude::*;

use crate::geom::{cell, Pos};
use crate::level::Level;

verus! {

broadcast use vstd::set::group_set_axioms, vstd::seq::group_seq_axioms;

/// `a` is visited strictly before `b` in the anti-diagonal traversal order.
pub open spec fn diag_lt(a: (int, int), b: (int, int)) -> bool {
    a.0 + a.1 < b.0 + b.1 || (a.0 + a.1 == b.0 + b.1 && a.0 < b.0)
}

/// `c` is a cell of a `w` by `h` grid.
pub open spec fn in_grid(w: int, h: int, c: (int, int)) -> bool {
    0 <= c.0 < w && 0 <= c.1 < h
}

/// All cells of a `w` by `h` grid.
pub open spec fn grid_cells(w: int, h: int) -> Set<(int, int)> {
    Set::new(|c: (int, int)| in_grid(w, h, c))
}

/// The grid cells visited strictly before `key` in the traversal order.
pub open spec fn cells_below(w: int, h: int, key: (int, int)) -> Set<(int, int)> {
    Set::new(|c: (int, int)| in_grid(w, h, c) && diag_lt(c, key))
}

/// The cell that an emitted `(tile_id, x, y)` triple speaks of.
pub open spec fn entry_cell(t: (u32, u32, u32)) -> (int, int) {
    (t.1 as int, t.2 as int)
}

/// A cursor over the grid cells in anti-diagonal order.
///
/// Starting at `(0, 0)`, it repeatedly steps to `(x + 1, y - 1)` while both
/// coordinates stay in bounds; when the current diagonal is exhausted it
/// restarts at `(0, last_start.y + 1)` while rows remain, and afterwards at
/// `(last_start.x + 1, last_start.y)`, sweeping the remaining columns.
#[derive(Clone, Copy)]
pub struct DiagonalTileIterator<'a> {
    pub level: &'a Level,
    pub next_tile_pos: Pos,
    pub last_start_pos: Pos,
}

impl<'a> DiagonalTileIterator<'a> {
    /// The cell the cursor stands on.
    pub open spec fn pos_cell(self) -> (int, int) {
        cell(self.next_tile_pos)
    }

    /// The cell the current diagonal started at.
    pub open spec fn start_cell(self) -> (int, int) {
        cell(self.last_start_pos)
    }

    /// The cursor stands on a cell of the grid; when it does not, the
    /// traversal is over.
    pub open spec fn valid_pos(self) -> bool {
        self.next_tile_pos.x < self.level.width && self.next_tile_pos.y < self.level.height
    }

    /// The set of cells emitted so far: exactly those the traversal order
    /// places strictly before the cursor.
    pub open spec fn emitted(self) -> Set<(int, int)> {
        cells_below(self.level.width as int, self.level.height as int, self.pos_cell())
    }

    /// The reachable cursor states: the cursor lies on the diagonal of its
    /// start cell, and the start cell is either a row start, or a bottom-row
    /// start of the final column sweep, or the traversal is over.
    pub open spec fn wf(self) -> bool {
        let w: int = self.level.width as int;
        let h: int = self.level.height as int;
        let x: int = self.pos_cell().0;
        let y: int = self.pos_cell().1;
        let sx: int = self.start_cell().0;
        let sy: int = self.start_cell().1;
        &&& self.level.wf()
        &&& x >= sx
        &&& x - sx == sy - y
        &&& {
            ||| (x < w && y < h && ((sx == 0 && sy < h) || sy == h - 1))
            ||| (x == sx && y == sy && sy == h - 1 && sx >= w)
            ||| ((w == 0 || h == 0) && x == 0 && y == 0 && sx == 0 && sy == 0)
        }
    }

    /// The single-step transition of the cursor, exactly as `next` performs
    /// it.
    pub open spec fn steps_from(self, pre: Self) -> bool {
        let w: int = pre.level.width as int;
        let h: int = pre.level.height as int;
        let x: int = pre.pos_cell().0;
        let y: int = pre.pos_cell().1;
        let sx: int = pre.start_cell().0;
        let sy: int = pre.start_cell().1;
        if x < w - 1 && y > 0 {
            self.start_cell() == pre.start_cell() && self.pos_cell() == (x + 1, y - 1)
        } else if sy < h - 1 {
            self.start_cell() == (0int, sy + 1) && self.pos_cell() == self.start_cell()
        } else {
            self.start_cell() == (sx + 1, sy) && self.pos_cell() == self.start_cell()
        }
    }

    /// There is a cell left to emit.
    pub fn has_more(&self) -> (r: bool)
        ensures
            r == self.valid_pos(),
    {
        self.level.is_valid(self.next_tile_pos.x, self.next_tile_pos.y)
    }

    /// Emits the cursor's cell as `(tile_id, x, y)` and advances the cursor,
    /// or reports that the traversal is over.
    pub fn next(&mut self) -> (r: Option<(u32, u32, u32)>)
        requires
            old(self).wf(),
        ensures
            final(self).wf(),
            final(self).level == old(self).level,
            !old(self).valid_pos() ==> r is None && *final(self) == *old(self),
            old(self).valid_pos() ==> {
                &&& r == Some(
                    (
                        old(self).level.tile_at(old(self).pos_cell().0, old(self).pos_cell().1),
                        old(self).next_tile_pos.x,
                        old(self).next_tile_pos.y,
                    ),
                )
                &&& in_grid(
                    old(self).level.width as int,
                    old(self).level.height as int,
                    old(self).pos_cell(),
                )
                &&& final(self).emitted() == old(self).emitted().insert(old(self).pos_cell())
                &&& final(self).steps_from(*old(self))
            },
    {
        let x = self.next_tile_pos.x;
        let y = self.next_tile_pos.y;
        if !self.level.is_valid(x, y) {
            return None;
        }
        let t = self.level.get_tile(x, y);
        let w = self.level.width();
        let h = self.level.height();
        let ghost wi: int = w as int;
        let ghost hi: int = h as int;
        let ghost oc: (int, int) = (x as int, y as int);
        let ghost s: int = x as int + y as int;

        if x < w - 1 && y > 0 {
            self.next_tile_pos = Pos { x: x + 1, y: y - 1 };
            proof {
                let nc: (int, int) = (oc.0 + 1, oc.1 - 1);
                assert forall|c: (int, int)|
                    cells_below(wi, hi, nc).contains(c) == old(self).emitted().insert(oc).contains(
                        c,
                    ) by {
                    if in_grid(wi, hi, c) && diag_lt(c, nc) && !diag_lt(c, oc) {
                        assert(c.0 + c.1 == s && c.0 == oc.0);
                        assert(c =~= oc);
                    }
                }
                assert(cells_below(wi, hi, nc) =~= old(self).emitted().insert(oc));
            }
        } else if self.last_start_pos.y < h - 1 {
            let sy = self.last_start_pos.y;
            self.last_start_pos = Pos { x: 0, y: sy + 1 };
            self.next_tile_pos = self.last_start_pos;
            proof {
                let nc: (int, int) = (0int, sy as int + 1);
                // In the row phase the start column is 0, so the new
                // diagonal's index is exactly one more than the current one.
                assert(old(self).start_cell().0 == 0);
                assert(nc.0 + nc.1 == s + 1);
                assert forall|c: (int, int)|
                    cells_below(wi, hi, nc).contains(c) == old(self).emitted().insert(oc).contains(
                        c,
                    ) by {
                    if in_grid(wi, hi, c) && diag_lt(c, nc) && !diag_lt(c, oc) {
                        // The current cell ends its diagonal: any later cell
                        // of the same diagonal lies off the grid.
                        assert(c.0 + c.1 == s && c.0 >= oc.0);
                        if c.0 > oc.0 {
                            assert(oc.0 == wi - 1 || oc.1 == 0);
                            assert(!in_grid(wi, hi, c));
                        }
                        assert(c =~= oc);
                    }
                }
                assert(cells_below(wi, hi, nc) =~= old(self).emitted().insert(oc));
            }
        } else {
            let sx = self.last_start_pos.x;
            let sy = self.last_start_pos.y;
            self.last_start_pos = Pos { x: sx + 1, y: sy };
            self.next_tile_pos = self.last_start_pos;
            proof {
                let nc: (int, int) = (sx as int + 1, sy as int);
                assert(sy as int == hi - 1);
                assert(nc.0 + nc.1 == s + 1);
                assert forall|c: (int, int)|
                    cells_below(wi, hi, nc).contains(c) == old(self).emitted().insert(oc).contains(
                        c,
                    ) by {
                    if in_grid(wi, hi, c) && diag_lt(c, nc) && !diag_lt(c, oc) {
                        if c.0 + c.1 == s + 1 {
                            // A cell of the next diagonal before its first
                            // in-grid column would lie below the bottom row.
                            assert(c.0 <= sx as int);
                            assert(c.1 >= hi);
                            assert(false);
                        }
                        assert(c.0 + c.1 == s && c.0 >= oc.0);
                        if c.0 > oc.0 {
                            assert(oc.0 == wi - 1 || oc.1 == 0);
                            assert(!in_grid(wi, hi, c));
                        }
                        assert(c =~= oc);
                    }
                }
                assert(cells_below(wi, hi, nc) =~= old(self).emitted().insert(oc));
            }
        }
        Some((t, x, y))
    }
}

/// The cells of one grid row with `y` fixed.
pub open spec fn grid_row(w: int, y: int) -> Set<(int, int)> {
    Set::new(|c: (int, int)| 0 <= c.0 < w && c.1 == y)
}

proof fn lemma_grid_row_card(w: int, y: int)
    requires
        w >= 0,
    ensures
        grid_row(w, y).finite(),
        grid_row(w, y).len() == w,
    decreases w,
{
    if w == 0 {
        assert(grid_row(0, y) =~= Set::<(int, int)>::empty());
    } else {
        lemma_grid_row_card(w - 1, y);
        assert(!grid_row(w - 1, y).contains((w - 1, y)));
        assert(grid_row(w, y) =~= grid_row(w - 1, y).insert((w - 1, y)));
    }
}

proof fn lemma_disjoint_union_len<A>(s1: Set<A>, s2: Set<A>)
    requires
        s1.finite(),
        s2.finite(),
        forall|a: A| !(s1.contains(a) && s2.contains(a)),
    ensures
        s1.union(s2).finite(),
        s1.union(s2).len() == s1.len() + s2.len(),
    decreases s2.len(),
{
    if s2.len() == 0 {
        s2.lemma_len0_is_empty();
        assert(s1.union(s2) =~= s1);
    } else {
        assert(exists|a: A| s2.contains(a)) by {
            if forall|a: A| !s2.contains(a) {
                assert(s2 =~= Set::<A>::empty());
            }
        }
        let a = s2.choose();
        assert(s2.contains(a));
        lemma_disjoint_union_len(s1, s2.remove(a));
        assert(!s1.union(s2.remove(a)).contains(a));
        assert(s1.union(s2) =~= s1.union(s2.remove(a)).insert(a));
    }
}

/// A `w` by `h` grid has exactly `w * h` cells.
pub proof fn lemma_grid_cells_card(w: int, h: int)
    requires
        w >= 0,
        h >= 0,
    ensures
        grid_cells(w, h).finite(),
        grid_cells(w, h).len() == w * h,
    decreases h,
{
    if h == 0 {
        assert(grid_cells(w, 0) =~= Set::<(int, int)>::empty());
    } else {
        lemma_grid_cells_card(w, h - 1);
        lemma_grid_row_card(w, h - 1);
        lemma_disjoint_union_len(grid_cells(w, h - 1), grid_row(w, h - 1));
        assert(grid_cells(w, h) =~= grid_cells(w, h - 1).union(grid_row(w, h - 1)));
        assert(w * h == w * (h - 1) + w) by (nonlinear_arith);
    }
}

impl Level {
    /// A cursor over this grid's cells in anti-diagonal order, starting at
    /// `(0, 0)`.
    pub fn iter_tiles_diagonal<'a>(&'a self) -> (it: DiagonalTileIterator<'a>)
        requires
            self.wf(),
        ensures
            it.wf(),
            it.level == self,
            it.emitted() == Set::<(int, int)>::empty(),
    {
        let it = DiagonalTileIterator {
            level: self,
            next_tile_pos: Pos { x: 0, y: 0 },
            last_start_pos: Pos { x: 0, y: 0 },
        };
        proof {
            assert(it.emitted() =~= Set::<(int, int)>::empty());
        }
        it
    }

    /// Every `(tile_id, x, y)` triple of the grid in anti-diagonal order:
    /// exactly `width * height` triples, each grid cell exactly once, ordered
    /// so that a cell with a smaller anti-diagonal index `x + y` comes
    /// strictly first, and within one diagonal `x` increases.
    pub fn tiles_diagonal(&self) -> (r: Vec<(u32, u32, u32)>)
        requires
            self.wf(),
        ensures
            r@.len() == self.width * self.height,
            forall|i: int|
                0 <= i < r@.len() ==> in_grid(
                    self.width as int,
                    self.height as int,
                    #[trigger] entry_cell(r@[i]),
                ) && r@[i].0 == self.tile_at(r@[i].1 as int, r@[i].2 as int),
            forall|i: int, j: int|
                0 <= i < j < r@.len() ==> diag_lt(entry_cell(r@[i]), entry_cell(r@[j])),
            forall|i: int, j: int|
                0 <= i < r@.len() && 0 <= j < r@.len() && i != j ==> entry_cell(r@[i])
                    != entry_cell(r@[j]),
            forall|i: int, j: int|
                0 <= i < r@.len() && 0 <= j < r@.len() && entry_cell(r@[i]).0 + entry_cell(
                    r@[i],
                ).1 < entry_cell(r@[j]).0 + entry_cell(r@[j]).1 ==> i < j,
            forall|c: (int, int)|
                #[trigger] in_grid(self.width as int, self.height as int, c)
                    ==> exists|i: int|
                    0 <= i < r@.len() && #[trigger] entry_cell(r@[i]) == c,
    {
        let ghost wi: int = self.width as int;
        let ghost hi: int = self.height as int;
        let mut it = self.iter_tiles_diagonal();
        let mut out: Vec<(u32, u32, u32)> = Vec::new();
        while it.has_more()
            invariant
                self.wf(),
                it.wf(),
                it.level == self,
                wi == self.width as int,
                hi == self.height as int,
                forall|i: int|
                    0 <= i < out@.len() ==> in_grid(wi, hi, #[trigger] entry_cell(out@[i]))
                        && out@[i].0 == self.tile_at(out@[i].1 as int, out@[i].2 as int),
                forall|i: int, j: int|
                    0 <= i < j < out@.len() ==> diag_lt(entry_cell(out@[i]), entry_cell(out@[j])),
                forall|i: int|
                    0 <= i < out@.len() ==> it.emitted().contains(#[trigger] entry_cell(out@[i])),
                forall|c: (int, int)|
                    #[trigger] it.emitted().contains(c) ==> exists|i: int|
                        0 <= i < out@.len() && #[trigger] entry_cell(out@[i]) == c,
            decreases
                    wi + hi - it.start_cell().0 - it.start_cell().1,
                    wi - (it.pos_cell().0 - it.start_cell().0),
        {
            let ghost pre = it;
            let ghost out_old = out@;
            let item = it.next();
            match item {
                Some(t) => {
                    out.push(t);
                    proof {
                        let c_new: (int, int) = pre.pos_cell();
                        let n: int = out@.len() - 1;
                        assert(out@[n] == t);
                        assert(entry_cell(t) == c_new);
                        assert forall|i: int| 0 <= i < n implies diag_lt(
                            entry_cell(out@[i]),
                            c_new,
                        ) by {
                            assert(out@[i] == out_old[i]);
                            assert(pre.emitted().contains(entry_cell(out_old[i])));
                        }
                        assert forall|c: (int, int)| #[trigger] it.emitted().contains(c) implies exists|
                            i: int,
                        | 0 <= i < out@.len() && #[trigger] entry_cell(out@[i]) == c by {
                            if c == c_new {
                                assert(entry_cell(out@[n]) == c);
                            } else {
                                assert(pre.emitted().contains(c));
                                let i = choose|i: int|
                                    0 <= i < out_old.len() && entry_cell(out_old[i]) == c;
                                assert(entry_cell(out@[i]) == c);
                            }
                        }
                        assert forall|i: int| 0 <= i < out@.len() implies it.emitted().contains(
                            #[trigger] entry_cell(out@[i]),
                        ) by {
                            if i < n {
                                assert(out@[i] == out_old[i]);
                                assert(pre.emitted().contains(entry_cell(out_old[i])));
                            }
                        }
                    }
                },
                None => {
                    assert(false);
                },
            }
        }
        proof {
            assert(it.emitted() =~= grid_cells(wi, hi)) by {
                if wi > 0 && hi > 0 {
                    // The cursor has swept past the last diagonal: its key
                    // exceeds the anti-diagonal index of every cell.
                    assert(it.pos_cell().0 + it.pos_cell().1 >= wi + hi - 1);
                    assert forall|c: (int, int)| grid_cells(wi, hi).contains(c) implies it
                        .emitted().contains(c) by {
                        assert(c.0 + c.1 <= wi + hi - 2);
                    }
                }
            }
            let cells = Seq::new(out@.len(), |i: int| entry_cell(out@[i]));
            assert(cells.no_duplicates()) by {
                assert forall|i: int, j: int|
                    0 <= i < cells.len() && 0 <= j < cells.len() && i != j implies cells[i]
                    != cells[j] by {
                    if i < j {
                        assert(diag_lt(entry_cell(out@[i]), entry_cell(out@[j])));
                    } else {
                        assert(diag_lt(entry_cell(out@[j]), entry_cell(out@[i])));
                    }
                }
            }
            cells.unique_seq_to_set();
            assert(cells.to_set() =~= grid_cells(wi, hi)) by {
                assert forall|c: (int, int)| cells.to_set().contains(c) implies grid_cells(
                    wi,
                    hi,
                ).contains(c) by {
                    let i = choose|i: int| 0 <= i < cells.len() && cells[i] == c;
                    assert(in_grid(wi, hi, entry_cell(out@[i])));
                }
                assert forall|c: (int, int)| grid_cells(wi, hi).contains(c) implies cells
                    .to_set().contains(c) by {
                    assert(it.emitted().contains(c));
                    let i = choose|i: int| 0 <= i < out@.len() && entry_cell(out@[i]) == c;
                    assert(cells[i] == c);
                    assert(cells.contains(c));
                }
            }
            lemma_grid_cells_card(wi, hi);
            assert(out@.len() == wi * hi);
            assert forall|i: int, j: int|
                0 <= i < out@.len() && 0 <= j < out@.len() && i != j implies entry_cell(out@[i])
                != entry_cell(out@[j]) by {
                if i < j {
                    assert(diag_lt(entry_cell(out@[i]), entry_cell(out@[j])));
                } else {
                    assert(diag_lt(entry_cell(out@[j]), entry_cell(out@[i])));
                }
            }
            assert forall|i: int, j: int|
                0 <= i < out@.len() && 0 <= j < out@.len() && entry_cell(out@[i]).0 + entry_cell(
                    out@[i],
                ).1 < entry_cell(out@[j]).0 + entry_cell(out@[j]).1 implies i < j by {
                if j < i {
                    assert(diag_lt(entry_cell(out@[j]), entry_cell(out@[i])));
                } else if i == j {
                }
            }
            assert forall|c: (int, int)| #[trigger] in_grid(wi, hi, c) implies exists|i: int|
                0 <= i < out@.len() && #[trigger] entry_cell(out@[i]) == c by {
                assert(grid_cells(wi, hi).contains(c));
                assert(it.emitted().contains(c));
            }
        }
        out
    }
}

} // verus!
