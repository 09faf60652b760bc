//! The per-level tile grid: bounds-checked tile queries, neighbor lookups,
//! and the anti-diagonal traversal used for back-to-front isometric painting.

use vstd::prelude::*;

use crate::geom::{cell, is_cardinal_step, Pos};

verus! {

/// An immutable-per-level grid of tile ids.  A tile id of 0 means that the
/// cell has no tile and cannot be walked on.
#[derive(Debug)]
pub struct Level {
    pub width: u32,
    pub height: u32,
    /// Tile ids in row-major order: the id of `(x, y)` is at `y * width + x`.
    pub tiles: Vec<u32>,
    /// The name the level was loaded under, needed to reload it on restart.
    pub level_name: String,
    /// The name of the successor level, when the level has one.
    pub next_level: Option<String>,
}

impl Level {
    /// The grid stores exactly one tile id per cell.
    pub open spec fn wf(&self) -> bool {
        self.tiles@.len() == self.width * self.height
    }

    /// The tile id of cell `(x, y)`; 0 for any out-of-range coordinate.
    pub open spec fn tile_at(&self, x: int, y: int) -> u32 {
        if 0 <= x < self.width && 0 <= y < self.height {
            self.tiles@[y * self.width + x]
        } else {
            0
        }
    }

    /// The cell `(x, y)` exists and can be walked on.
    pub open spec fn spec_has_tile(&self, x: int, y: int) -> bool {
        self.tile_at(x, y) != 0
    }

    pub fn new(width: u32, height: u32, tiles: Vec<u32>, level_name: String, next_level: Option<
        String,
    >) -> (r: Level)
        requires
            tiles@.len() == width * height,
        ensures
            r == (Level { width, height, tiles, level_name, next_level }),
            r.wf(),
    {
        Level { width, height, tiles, level_name, next_level }
    }

    pub fn width(&self) -> (r: u32)
        ensures
            r == self.width,
    {
        self.width
    }

    pub fn height(&self) -> (r: u32)
        ensures
            r == self.height,
    {
        self.height
    }

    /// `(x, y)` lies inside the grid bounds.
    pub fn is_valid(&self, x: u32, y: u32) -> (r: bool)
        ensures
            r == (x < self.width && y < self.height),
    {
        x < self.width && y < self.height
    }

    /// Returns the tile id of `(x, y)`, or 0 for any out-of-range coordinate.
    pub fn get_tile(&self, x: u32, y: u32) -> (t: u32)
        requires
            self.wf(),
        ensures
            t == self.tile_at(x as int, y as int),
    {
        if !self.is_valid(x, y) {
            return 0;
        }
        proof {
            lemma_row_major_index_in_range(
                self.width as int,
                self.height as int,
                x as int,
                y as int,
            );
        }
        let n = self.tiles.len();
        assert((y as int) * (self.width as int) + (x as int) < n);
        self.tiles[(y as usize) * (self.width as usize) + (x as usize)]
    }

    /// The cell `(x, y)` exists and can be walked on.  Always false when
    /// `x >= width` or `y >= height`.
    pub fn has_tile(&self, x: u32, y: u32) -> (r: bool)
        requires
            self.wf(),
        ensures
            r == self.spec_has_tile(x as int, y as int),
            x >= self.width || y >= self.height ==> !r,
    {
        self.get_tile(x, y) != 0
    }
}

/// For an in-range cell, the row-major index stays within the grid's tile
/// count and within `usize`.
pub proof fn lemma_row_major_index_in_range(w: int, h: int, x: int, y: int)
    requires
        0 <= x < w,
        0 <= y < h,
    ensures
        0 <= y * w + x < w * h,
{
    assert(0 <= y * w + x < w * h) by (nonlinear_arith)
        requires
            0 <= x < w,
            0 <= y < h,
    ;
}

impl Level {
    /// The candidate neighbor of `p` at offset `(dx, dy)`, as a sequence that
    /// is empty when the cell is out of range or has no tile.
    pub open spec fn cand(&self, p: Pos, dx: int, dy: int) -> Seq<Pos> {
        if 0 <= p.x + dx <= u32::MAX && 0 <= p.y + dy <= u32::MAX && self.spec_has_tile(
            p.x + dx,
            p.y + dy,
        ) {
            seq![Pos { x: (p.x + dx) as u32, y: (p.y + dy) as u32 }]
        } else {
            Seq::empty()
        }
    }

    /// The existing-tile neighbors among the four cardinal neighbors of `p`,
    /// in a fixed order.
    pub open spec fn spec_adjacent_four(&self, p: Pos) -> Seq<Pos> {
        self.cand(p, -1, 0) + self.cand(p, 1, 0) + self.cand(p, 0, -1) + self.cand(p, 0, 1)
    }

    /// The existing-tile neighbors among all eight neighbors of `p`, in a
    /// fixed order.
    pub open spec fn spec_adjacent_eight(&self, p: Pos) -> Seq<Pos> {
        self.cand(p, -1, 0) + self.cand(p, 1, 0) + self.cand(p, 0, -1) + self.cand(p, 0, 1)
            + self.cand(p, -1, 1) + self.cand(p, -1, -1) + self.cand(p, 1, 1) + self.cand(p, 1, -1)
    }

    /// Appends the neighbor of `p` at offset `(dx, dy)` when that cell has a
    /// tile.
    fn push_cand(&self, out: &mut Vec<Pos>, p: Pos, dx: i32, dy: i32)
        requires
            self.wf(),
            -1 <= dx <= 1,
            -1 <= dy <= 1,
        ensures
            final(out)@ == old(out)@ + self.cand(p, dx as int, dy as int),
    {
        match crate::geom::offset_pos(p, dx, dy) {
            Some(q) => {
                if self.has_tile(q.x, q.y) {
                    out.push(q);
                } else {
                    assert(old(out)@ + self.cand(p, dx as int, dy as int) =~= old(out)@);
                }
            },
            None => {
                assert(old(out)@ + self.cand(p, dx as int, dy as int) =~= old(out)@);
            },
        }
    }

    /// The existing-tile cells among the four cardinal neighbors of `pos`.
    pub fn get_adjacent_four(&self, pos: Pos) -> (r: Vec<Pos>)
        requires
            self.wf(),
        ensures
            r@ == self.spec_adjacent_four(pos),
    {
        let mut out: Vec<Pos> = Vec::new();
        self.push_cand(&mut out, pos, -1, 0);
        self.push_cand(&mut out, pos, 1, 0);
        self.push_cand(&mut out, pos, 0, -1);
        self.push_cand(&mut out, pos, 0, 1);
        assert(out@ =~= self.spec_adjacent_four(pos));
        out
    }

    /// The existing-tile cells among all eight neighbors of `pos`.
    pub fn get_adjacent_eight(&self, pos: Pos) -> (r: Vec<Pos>)
        requires
            self.wf(),
        ensures
            r@ == self.spec_adjacent_eight(pos),
    {
        let mut out: Vec<Pos> = Vec::new();
        self.push_cand(&mut out, pos, -1, 0);
        self.push_cand(&mut out, pos, 1, 0);
        self.push_cand(&mut out, pos, 0, -1);
        self.push_cand(&mut out, pos, 0, 1);
        self.push_cand(&mut out, pos, -1, 1);
        self.push_cand(&mut out, pos, -1, -1);
        self.push_cand(&mut out, pos, 1, 1);
        self.push_cand(&mut out, pos, 1, -1);
        assert(out@ =~= self.spec_adjacent_eight(pos));
        out
    }

    /// A cell is a cardinal neighbor with a tile exactly when it appears in
    /// `spec_adjacent_four`.
    pub proof fn lemma_adjacent_four_membership(&self, p: Pos, q: Pos)
        ensures
            self.spec_adjacent_four(p).contains(q) <==> (is_cardinal_step(cell(p), cell(q))
                && self.spec_has_tile(q.x as int, q.y as int)),
    {
        let s = self.spec_adjacent_four(p);
        let c0 = self.cand(p, -1, 0);
        let c1 = self.cand(p, 1, 0);
        let c2 = self.cand(p, 0, -1);
        if is_cardinal_step(cell(p), cell(q)) && self.spec_has_tile(q.x as int, q.y as int) {
            let dx = q.x - p.x;
            let dy = q.y - p.y;
            assert(self.cand(p, dx, dy) == seq![q]);
            if dx == -1 && dy == 0 {
                assert(s[0] == q);
            } else if dx == 1 && dy == 0 {
                assert(s[c0.len() as int] == q);
            } else if dx == 0 && dy == -1 {
                assert(s[(c0.len() + c1.len()) as int] == q);
            } else {
                assert(s[(c0.len() + c1.len() + c2.len()) as int] == q);
            }
            assert(s.contains(q));
        }
        if s.contains(q) {
            let i = choose|i: int| 0 <= i < s.len() && s[i] == q;
            assert(exists|dx: int, dy: int|
                (dx == -1 && dy == 0 || dx == 1 && dy == 0 || dx == 0 && dy == -1 || dx == 0 && dy
                    == 1) && self.cand(p, dx, dy).contains(q)) by {
                let c3 = self.cand(p, 0, 1);
                if i < c0.len() {
                    assert(c0.contains(q));
                } else if i < c0.len() + c1.len() {
                    assert(c1[i - c0.len()] == q);
                    assert(c1.contains(q));
                } else if i < c0.len() + c1.len() + c2.len() {
                    assert(c2[i - c0.len() - c1.len()] == q);
                    assert(c2.contains(q));
                } else {
                    assert(c3[i - c0.len() - c1.len() - c2.len()] == q);
                    assert(c3.contains(q));
                }
            }
        }
    }
}

} // verus!
