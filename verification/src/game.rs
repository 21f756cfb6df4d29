use vstd::prelude::*;
use vstd::string::StringExecFns;

verus! {

/// One generation of the simulation: a fixed-size rectangular grid of cells,
/// stored row-major in a flat vector (the cell at row `r`, column `c` sits at
/// index `r * width + c`).
#[derive(Clone, Debug)]
pub struct State {
    pub grid: Vec<bool>,
    pub width: usize,
    pub height: usize,
}

/// 1 for a live cell, 0 for a dead one; used to sum neighbour contributions.
pub open spec fn b2i(b: bool) -> int {
    if b {
        1
    } else {
        0
    }
}

/// The two-character glyph a cell renders as: a block for a live cell, two
/// spaces for a dead one, so that a cell fills a roughly square patch of a
/// terminal.
pub open spec fn glyph(b: bool) -> Seq<char> {
    if b {
        seq!['#', '#']
    } else {
        seq![' ', ' ']
    }
}

/// Index bounds used throughout: a cell inside an `h`-row, `w`-column grid
/// has a flat index below `h * w`, and strictly inside its own row.
proof fn lemma_flat_index(w: int, h: int, r: int, c: int)
    by (nonlinear_arith)
    requires
        0 <= r < h,
        0 <= c < w,
    ensures
        0 <= r * w + c,
        r * w + c < h * w,
        r * w + c < (r + 1) * w,
        r * w <= r * w + c,
{
}

impl State {
    /// The grid always holds exactly `width * height` cells, and both
    /// dimensions are positive.
    pub open spec fn wf(self) -> bool {
        &&& self.grid@.len() == self.width as int * self.height as int
        &&& self.width >= 1
        &&& self.height >= 1
    }

    /// Whether `(r, c)` names a cell of the grid.
    pub open spec fn in_bounds(self, r: int, c: int) -> bool {
        &&& 0 <= r < self.height as int
        &&& 0 <= c < self.width as int
    }

    /// Liveness of the cell at `(r, c)`, which must be in bounds.
    pub open spec fn sp_cell(self, r: int, c: int) -> bool {
        self.grid@[r * self.width as int + c]
    }

    /// Liveness of `(r, c)` with the clamped-boundary policy: a coordinate
    /// outside the grid counts as dead, so edges never wrap around.
    pub open spec fn sp_live(self, r: int, c: int) -> bool {
        self.in_bounds(r, c) && self.sp_cell(r, c)
    }

    /// Returns the liveness of the cell at `(row, col)`.
    pub fn cell_at(&self, row: usize, col: usize) -> (b: bool)
        requires
            self.wf(),
            self.in_bounds(row as int, col as int),
        ensures
            b == self.sp_cell(row as int, col as int),
    {
        let n = self.grid.len();
        proof {
            lemma_flat_index(
                self.width as int,
                self.height as int,
                row as int,
                col as int,
            );
            assert((row as int) * (self.width as int) + (col as int) < (n as int));
        }
        self.grid[row * self.width + col]
    }

    /// Number of live cells among the eight Moore neighbours of `(r, c)`.
    /// Offsets that land outside the grid contribute nothing: the boundary is
    /// clamped, never wrapped, and the cell itself is not counted.
    pub open spec fn sp_neighbors(self, r: int, c: int) -> int {
        b2i(self.sp_live(r - 1, c - 1)) + b2i(self.sp_live(r - 1, c)) + b2i(
            self.sp_live(r - 1, c + 1),
        ) + b2i(self.sp_live(r, c - 1)) + b2i(self.sp_live(r, c + 1)) + b2i(
            self.sp_live(r + 1, c - 1),
        ) + b2i(self.sp_live(r + 1, c)) + b2i(self.sp_live(r + 1, c + 1))
    }

    /// The birth/survival/death rule: a dead cell comes alive on exactly
    /// three live neighbours; a live cell survives on two or three.
    pub open spec fn sp_next_cell(self, r: int, c: int) -> bool {
        if self.sp_cell(r, c) {
            self.sp_neighbors(r, c) == 2 || self.sp_neighbors(r, c) == 3
        } else {
            self.sp_neighbors(r, c) == 3
        }
    }

    /// Counts the live Moore neighbours of `cell`, clamped at the grid
    /// boundary.
    pub fn check_neighbours(&self, cell: (usize, usize)) -> (n: u8)
        requires
            self.wf(),
            self.in_bounds(cell.0 as int, cell.1 as int),
        ensures
            n as int == self.sp_neighbors(cell.0 as int, cell.1 as int),
            n <= 8,
    {
        let r = cell.0;
        let c = cell.1;
        let mut n: u8 = 0;
        if r > 0 && c > 0 && self.cell_at(r - 1, c - 1) {
            n += 1;
        }
        if r > 0 && self.cell_at(r - 1, c) {
            n += 1;
        }
        if r > 0 && c + 1 < self.width && self.cell_at(r - 1, c + 1) {
            n += 1;
        }
        if c > 0 && self.cell_at(r, c - 1) {
            n += 1;
        }
        if c + 1 < self.width && self.cell_at(r, c + 1) {
            n += 1;
        }
        if r + 1 < self.height && c > 0 && self.cell_at(r + 1, c - 1) {
            n += 1;
        }
        if r + 1 < self.height && self.cell_at(r + 1, c) {
            n += 1;
        }
        if r + 1 < self.height && c + 1 < self.width && self.cell_at(r + 1, c + 1) {
            n += 1;
        }
        n
    }

    /// Computes the next generation: every cell of the result is the rule
    /// applied to the same input generation, and the dimensions are kept.
    pub fn next(&self) -> (s: State)
        requires
            self.wf(),
        ensures
            s.wf(),
            s.width == self.width,
            s.height == self.height,
            forall|r: int, c: int|
                self.in_bounds(r, c) ==> #[trigger] s.sp_cell(r, c) == self.sp_next_cell(r, c),
    {
        let width = self.width;
        let height = self.height;
        let mut grid: Vec<bool> = Vec::new();
        let mut r: usize = 0;
        while r < height
            invariant
                self.wf(),
                r <= height,
                width == self.width,
                height == self.height,
                grid@.len() == r as int * width as int,
                forall|i: int, j: int|
                    0 <= i < r as int && 0 <= j < width as int ==> grid@[i * width as int + j]
                        == #[trigger] self.sp_next_cell(i, j),
            decreases height - r,
        {
            let mut c: usize = 0;
            while c < width
                invariant
                    self.wf(),
                    r < height,
                    c <= width,
                    width == self.width,
                    height == self.height,
                    grid@.len() == r as int * width as int + c as int,
                    forall|i: int, j: int|
                        0 <= i < r as int && 0 <= j < width as int ==> grid@[i * width as int + j]
                            == #[trigger] self.sp_next_cell(i, j),
                    forall|j: int|
                        0 <= j < c as int ==> grid@[r as int * width as int + j]
                            == #[trigger] self.sp_next_cell(r as int, j),
                decreases width - c,
            {
                let num_neighbours = self.check_neighbours((r, c));
                let cur = self.cell_at(r, c);
                let alive = (!cur && num_neighbours == 3) || (cur && (num_neighbours == 2
                    || num_neighbours == 3));
                grid.push(alive);
                proof {
                    assert forall|i: int, j: int|
                        0 <= i < r as int && 0 <= j < width as int implies grid@[i * width as int
                        + j] == #[trigger] self.sp_next_cell(i, j) by {
                        lemma_flat_index(width as int, r as int, i, j);
                        assert(i * width as int + j < r as int * width as int + c as int);
                    }
                }
                c += 1;
            }
            proof {
                assert((r + 1) as int * width as int == r as int * width as int + width as int)
                    by (nonlinear_arith);
            }
            r += 1;
        }
        let s = State { grid, width, height };
        proof {
            assert(height as int * width as int == width as int * height as int)
                by (nonlinear_arith);
            assert forall|rr: int, cc: int| s.in_bounds(rr, cc) implies #[trigger] s.sp_cell(rr, cc)
                == self.sp_next_cell(rr, cc) by {
                lemma_flat_index(width as int, height as int, rr, cc);
            }
        }
        s
    }

    /// Width of a viewport of `vw` columns clamped to the grid's extent.
    pub open spec fn sp_view_width(self, vw: int) -> int {
        if self.width as int <= vw {
            self.width as int
        } else {
            vw
        }
    }

    /// Height of a viewport of `vh` rows clamped to the grid's extent.
    pub open spec fn sp_view_height(self, vh: int) -> int {
        if self.height as int <= vh {
            self.height as int
        } else {
            vh
        }
    }

    /// First grid row of the centered viewport of `vh` rows.
    pub open spec fn sp_row_offset(self, vh: int) -> int {
        (self.height as int - self.sp_view_height(vh)) / 2
    }

    /// First grid column of the centered viewport of `vw` columns.
    pub open spec fn sp_col_offset(self, vw: int) -> int {
        (self.width as int - self.sp_view_width(vw)) / 2
    }

    /// Glyphs of the first `c` cells of viewport row `vr`, for the window
    /// whose top-left grid cell is `(ro, co)`.
    pub open spec fn sp_row_text(self, ro: int, co: int, vr: int, c: int) -> Seq<char>
        decreases c,
    {
        if c <= 0 {
            Seq::empty()
        } else {
            self.sp_row_text(ro, co, vr, c - 1) + glyph(self.sp_cell(ro + vr, co + c - 1))
        }
    }

    /// Text of the first `r` viewport rows, each `vw` cells wide and closed
    /// by a newline, for the window whose top-left grid cell is `(ro, co)`.
    pub open spec fn sp_rows_text(self, ro: int, co: int, vw: int, r: int) -> Seq<char>
        decreases r,
    {
        if r <= 0 {
            Seq::empty()
        } else {
            self.sp_rows_text(ro, co, vw, r - 1) + self.sp_row_text(ro, co, r - 1, vw) + seq!['\n']
        }
    }

    /// Text of the `vw`-column, `vh`-row window whose top-left grid cell is
    /// `(ro, co)`: each cell as its glyph, each row closed by a newline.
    pub open spec fn sp_window_text(self, ro: int, co: int, vw: int, vh: int) -> Seq<char> {
        self.sp_rows_text(ro, co, vw, vh)
    }

    /// Text of the whole grid.
    pub open spec fn sp_text(self) -> Seq<char> {
        self.sp_window_text(0, 0, self.width as int, self.height as int)
    }

    /// Renders the window of the grid that starts at cell `(ro, co)` and
    /// spans `vw` columns and `vh` rows.
    fn render_window(&self, ro: usize, co: usize, vw: usize, vh: usize) -> (t: String)
        requires
            self.wf(),
            ro as int + vh as int <= self.height as int,
            co as int + vw as int <= self.width as int,
        ensures
            t@ == self.sp_window_text(ro as int, co as int, vw as int, vh as int),
    {
        let mut t = String::new();
        proof {
            assert(t@ =~= self.sp_rows_text(ro as int, co as int, vw as int, 0));
        }
        let mut r: usize = 0;
        while r < vh
            invariant
                self.wf(),
                r <= vh,
                ro as int + vh as int <= self.height as int,
                co as int + vw as int <= self.width as int,
                t@ == self.sp_rows_text(ro as int, co as int, vw as int, r as int),
            decreases vh - r,
        {
            let mut c: usize = 0;
            proof {
                assert(t@ =~= self.sp_rows_text(ro as int, co as int, vw as int, r as int)
                    + self.sp_row_text(ro as int, co as int, r as int, 0));
            }
            while c < vw
                invariant
                    self.wf(),
                    r < vh,
                    c <= vw,
                    ro as int + vh as int <= self.height as int,
                    co as int + vw as int <= self.width as int,
                    t@ == self.sp_rows_text(ro as int, co as int, vw as int, r as int)
                        + self.sp_row_text(ro as int, co as int, r as int, c as int),
                decreases vw - c,
            {
                let live = self.cell_at(ro + r, co + c);
                if live {
                    t.append("##");
                } else {
                    t.append("  ");
                }
                proof {
                    reveal_strlit("##");
                    reveal_strlit("  ");
                    assert("##"@ =~= glyph(true));
                    assert("  "@ =~= glyph(false));
                    assert(t@ =~= self.sp_rows_text(ro as int, co as int, vw as int, r as int)
                        + self.sp_row_text(ro as int, co as int, r as int, c as int + 1));
                }
                c += 1;
            }
            t.append("\n");
            proof {
                reveal_strlit("\n");
                assert("\n"@ =~= seq!['\n']);
                assert(t@ =~= self.sp_rows_text(ro as int, co as int, vw as int, r as int + 1));
            }
            r += 1;
        }
        t
    }

    /// Renders the whole grid as text: each live cell as a two-character
    /// block, each dead cell as two spaces, rows separated by newlines.
    pub fn render(&self) -> (t: String)
        requires
            self.wf(),
        ensures
            t@ == self.sp_text(),
    {
        self.render_window(0, 0, self.width, self.height)
    }

    /// The sub-grid seen through a centered viewport of at most `dims.0`
    /// columns and `dims.1` rows, clamped to the grid's own extent.
    pub fn center(&self, dims: (usize, usize)) -> (s: State)
        requires
            self.wf(),
            dims.0 >= 1,
            dims.1 >= 1,
        ensures
            s.wf(),
            s.width as int == self.sp_view_width(dims.0 as int),
            s.height as int == self.sp_view_height(dims.1 as int),
            forall|r: int, c: int|
                s.in_bounds(r, c) ==> #[trigger] s.sp_cell(r, c) == self.sp_cell(
                    r + self.sp_row_offset(dims.1 as int),
                    c + self.sp_col_offset(dims.0 as int),
                ),
    {
        let vw = if dims.0 < self.width {
            dims.0
        } else {
            self.width
        };
        let vh = if dims.1 < self.height {
            dims.1
        } else {
            self.height
        };
        let ro = (self.height - vh) / 2;
        let co = (self.width - vw) / 2;
        let mut grid: Vec<bool> = Vec::new();
        let mut r: usize = 0;
        while r < vh
            invariant
                self.wf(),
                r <= vh,
                1 <= vw <= self.width,
                1 <= vh <= self.height,
                ro as int == (self.height as int - vh as int) / 2,
                co as int == (self.width as int - vw as int) / 2,
                ro as int + vh as int <= self.height as int,
                co as int + vw as int <= self.width as int,
                grid@.len() == r as int * vw as int,
                forall|i: int, j: int|
                    0 <= i < r as int && 0 <= j < vw as int ==> grid@[i * vw as int + j]
                        == #[trigger] self.sp_cell(ro as int + i, co as int + j),
            decreases vh - r,
        {
            let mut c: usize = 0;
            while c < vw
                invariant
                    self.wf(),
                    r < vh,
                    c <= vw,
                    1 <= vw <= self.width,
                    1 <= vh <= self.height,
                    ro as int + vh as int <= self.height as int,
                    co as int + vw as int <= self.width as int,
                    grid@.len() == r as int * vw as int + c as int,
                    forall|i: int, j: int|
                        0 <= i < r as int && 0 <= j < vw as int ==> grid@[i * vw as int + j]
                            == #[trigger] self.sp_cell(ro as int + i, co as int + j),
                    forall|j: int|
                        0 <= j < c as int ==> grid@[r as int * vw as int + j]
                            == #[trigger] self.sp_cell(ro as int + r as int, co as int + j),
                decreases vw - c,
            {
                let live = self.cell_at(ro + r, co + c);
                grid.push(live);
                proof {
                    assert forall|i: int, j: int|
                        0 <= i < r as int && 0 <= j < vw as int implies grid@[i * vw as int + j]
                        == #[trigger] self.sp_cell(ro as int + i, co as int + j) by {
                        lemma_flat_index(vw as int, r as int, i, j);
                        assert(i * vw as int + j < r as int * vw as int + c as int);
                    }
                }
                c += 1;
            }
            proof {
                assert((r + 1) as int * vw as int == r as int * vw as int + vw as int)
                    by (nonlinear_arith);
            }
            r += 1;
        }
        let s = State { grid, width: vw, height: vh };
        proof {
            assert(vh as int * vw as int == vw as int * vh as int) by (nonlinear_arith);
            assert(vw as int == self.sp_view_width(dims.0 as int));
            assert(vh as int == self.sp_view_height(dims.1 as int));
            assert(ro as int == self.sp_row_offset(dims.1 as int));
            assert(co as int == self.sp_col_offset(dims.0 as int));
            assert forall|rr: int, cc: int| s.in_bounds(rr, cc) implies #[trigger] s.sp_cell(rr, cc)
                == self.sp_cell(
                rr + self.sp_row_offset(dims.1 as int),
                cc + self.sp_col_offset(dims.0 as int),
            ) by {
                lemma_flat_index(vw as int, vh as int, rr, cc);
                assert(grid@[rr * (vw as int) + cc] == self.sp_cell(
                    ro as int + rr,
                    co as int + cc,
                ));
            }
        }
        s
    }

    /// The text of the centered viewport: what `center` selects, rendered as
    /// `render` renders it.
    pub fn centered_text(&self, dims: (usize, usize)) -> (t: String)
        requires
            self.wf(),
            dims.0 >= 1,
            dims.1 >= 1,
        ensures
            t@ == self.sp_window_text(
                self.sp_row_offset(dims.1 as int),
                self.sp_col_offset(dims.0 as int),
                self.sp_view_width(dims.0 as int),
                self.sp_view_height(dims.1 as int),
            ),
    {
        let vw = if dims.0 < self.width {
            dims.0
        } else {
            self.width
        };
        let vh = if dims.1 < self.height {
            dims.1
        } else {
            self.height
        };
        let ro = (self.height - vh) / 2;
        let co = (self.width - vw) / 2;
        self.render_window(ro, co, vw, vh)
    }

    /// Fills a `dims.0`-column, `dims.1`-row grid at random: each cell is
    /// drawn independently and comes alive with probability
    /// `alive_weight / total_weight`. The boundary weights are deterministic
    /// whatever the random source does: weight zero gives an all-dead grid,
    /// and the full weight an all-live one.
    pub fn random(alive_weight: u64, total_weight: u64, dims: (usize, usize)) -> (s: State)
        requires
            total_weight >= 1,
            alive_weight <= total_weight,
            dims.0 >= 1,
            dims.1 >= 1,
            (dims.0 as int) * (dims.1 as int) <= usize::MAX as int,
        ensures
            s.wf(),
            s.width == dims.0,
            s.height == dims.1,
            alive_weight == 0 ==> forall|r: int, c: int|
                s.in_bounds(r, c) ==> !(#[trigger] s.sp_cell(r, c)),
            alive_weight == total_weight ==> forall|r: int, c: int|
                s.in_bounds(r, c) ==> #[trigger] s.sp_cell(r, c),
    {
        let width = dims.0;
        let height = dims.1;
        let mut grid: Vec<bool> = Vec::new();
        let mut r: usize = 0;
        while r < height
            invariant
                r <= height,
                total_weight >= 1,
                alive_weight <= total_weight,
                grid@.len() == r as int * width as int,
                alive_weight == 0 ==> forall|p: int| 0 <= p < grid@.len() ==> !(#[trigger] grid@[p]),
                alive_weight == total_weight ==> forall|p: int|
                    0 <= p < grid@.len() ==> #[trigger] grid@[p],
            decreases height - r,
        {
            let mut c: usize = 0;
            while c < width
                invariant
                    r < height,
                    c <= width,
                    total_weight >= 1,
                    alive_weight <= total_weight,
                    grid@.len() == r as int * width as int + c as int,
                    alive_weight == 0 ==> forall|p: int|
                        0 <= p < grid@.len() ==> !(#[trigger] grid@[p]),
                    alive_weight == total_weight ==> forall|p: int|
                        0 <= p < grid@.len() ==> #[trigger] grid@[p],
                decreases width - c,
            {
                let draw = crate::rng::draw_below(total_weight);
                grid.push(draw < alive_weight);
                c += 1;
            }
            proof {
                assert((r + 1) as int * width as int == r as int * width as int + width as int)
                    by (nonlinear_arith);
            }
            r += 1;
        }
        let s = State { grid, width, height };
        proof {
            assert(height as int * width as int == width as int * height as int)
                by (nonlinear_arith);
            assert forall|rr: int, cc: int|
                s.in_bounds(rr, cc) implies 0 <= rr * (width as int) + cc < grid@.len() by {
                lemma_flat_index(width as int, height as int, rr, cc);
            }
        }
        s
    }

    /// Builds a grid from a row-major matrix: row `r` of the matrix becomes
    /// row `r` of the grid. The matrix must be rectangular and non-empty.
    pub fn from(grid_2d: Vec<Vec<bool>>) -> (s: State)
        requires
            grid_2d@.len() >= 1,
            grid_2d@[0]@.len() >= 1,
            forall|i: int|
                0 <= i < grid_2d@.len() ==> (#[trigger] grid_2d@[i])@.len() == grid_2d@[0]@.len(),
        ensures
            s.wf(),
            s.height == grid_2d@.len(),
            s.width == grid_2d@[0]@.len(),
            forall|r: int, c: int|
                s.in_bounds(r, c) ==> #[trigger] s.sp_cell(r, c) == grid_2d@[r]@[c],
    {
        let width = grid_2d[0].len();
        let height = grid_2d.len();
        let mut grid: Vec<bool> = Vec::new();
        let mut r: usize = 0;
        while r < height
            invariant
                r <= height,
                height == grid_2d@.len(),
                width == grid_2d@[0]@.len(),
                width >= 1,
                forall|i: int|
                    0 <= i < grid_2d@.len() ==> (#[trigger] grid_2d@[i])@.len() == width as int,
                grid@.len() == r as int * width as int,
                forall|i: int, j: int|
                    0 <= i < r as int && 0 <= j < width as int ==> grid@[i * width as int + j]
                        == (#[trigger] grid_2d@[i]@[j]),
            decreases height - r,
        {
            let row = &grid_2d[r];
            let mut c: usize = 0;
            while c < width
                invariant
                    c <= width,
                    r < height,
                    height == grid_2d@.len(),
                    width == grid_2d@[0]@.len(),
                    row@ == grid_2d@[r as int]@,
                    row@.len() == width as int,
                    grid@.len() == r as int * width as int + c as int,
                    forall|i: int, j: int|
                        0 <= i < r as int && 0 <= j < width as int ==> grid@[i * width as int + j]
                            == (#[trigger] grid_2d@[i]@[j]),
                    forall|j: int|
                        0 <= j < c as int ==> grid@[r as int * width as int + j]
                            == (#[trigger] grid_2d@[r as int]@[j]),
                decreases width - c,
            {
                grid.push(row[c]);
                proof {
                    assert forall|i: int, j: int|
                        0 <= i < r as int && 0 <= j < width as int implies grid@[i * width as int
                        + j] == (#[trigger] grid_2d@[i]@[j]) by {
                        lemma_flat_index(width as int, r as int, i, j);
                        assert(i * width as int + j < r as int * width as int + c as int);
                    }
                }
                c += 1;
            }
            proof {
                assert(grid@.len() == r as int * width as int + width as int);
                assert((r + 1) as int * width as int == r as int * width as int + width as int)
                    by (nonlinear_arith);
            }
            r += 1;
        }
        let s = State { grid, width, height };
        proof {
            assert(height as int * width as int == width as int * height as int)
                by (nonlinear_arith);
            assert forall|rr: int, cc: int| s.in_bounds(rr, cc) implies #[trigger] s.sp_cell(rr, cc)
                == grid_2d@[rr]@[cc] by {
                lemma_flat_index(width as int, height as int, rr, cc);
            }
        }
        s
    }
}

impl PartialEq for State {
    /// Two generations are equal when they have the same dimensions and the
    /// same cells.
    fn eq(&self, other: &State) -> (r: bool) {
        let dims_ok = self.width == other.width && self.height == other.height;
        let grids_ok = self.grid == other.grid;
        proof {
            if grids_ok {
                assert(self.grid@ =~= other.grid@);
            } else {
                if self.grid@ == other.grid@ {
                    assert(forall|i: int|
                        0 <= i < self.grid@.len() ==> #[trigger] self.grid@[i] == other.grid@[i]);
                    assert(false);
                }
            }
        }
        dims_ok && grids_ok
    }
}

impl vstd::std_specs::cmp::PartialEqSpecImpl for State {
    open spec fn obeys_eq_spec() -> bool {
        true
    }

    open spec fn eq_spec(&self, other: &State) -> bool {
        &&& self.grid@ == other.grid@
        &&& self.width == other.width
        &&& self.height == other.height
    }
}

/// Law: a neighbour count lies between zero and eight, on every grid and for
/// every coordinate.
pub proof fn lemma_neighbor_count_range(s: State, r: int, c: int)
    ensures
        0 <= s.sp_neighbors(r, c) <= 8,
{
}

/// A still life: a grid that the birth/survival/death rule leaves exactly as
/// it is, cell for cell.
pub open spec fn is_still_life(s: State) -> bool {
    forall|r: int, c: int| s.in_bounds(r, c) ==> #[trigger] s.sp_next_cell(r, c) == s.sp_cell(r, c)
}

/// Law: a still life is a fixed point of advancing a generation. Whenever
/// `t` holds what `next` promises of `s`'s successor and `s` is a still
/// life, `t` carries the very same flat grid; advancing is a no-op only on
/// such grids, as a pattern with any cell the rule flips comes out changed.
pub proof fn lemma_still_life_fixed(s: State, t: State)
    requires
        s.wf(),
        t.wf(),
        t.width == s.width,
        t.height == s.height,
        forall|r: int, c: int|
            s.in_bounds(r, c) ==> #[trigger] t.sp_cell(r, c) == s.sp_next_cell(r, c),
        is_still_life(s),
    ensures
        t.grid@ =~= s.grid@,
{
    let w = s.width as int;
    let h = s.height as int;
    assert(w * h == h * w) by (nonlinear_arith);
    assert forall|p: int| 0 <= p < s.grid@.len() implies t.grid@[p] == s.grid@[p] by {
        let r = p / w;
        let c = p % w;
        vstd::arithmetic::div_mod::lemma_fundamental_div_mod(p, w);
        vstd::arithmetic::div_mod::lemma_mod_bound(p, w);
        assert(p == w * r + c);
        assert(0 <= r < h) by (nonlinear_arith)
            requires
                w >= 1,
                0 <= c < w,
                p == w * r + c,
                0 <= p < w * h,
        ;
        assert(r * w + c == p) by (nonlinear_arith)
            requires
                p == w * r + c,
        ;
        assert(t.sp_cell(r, c) == s.sp_next_cell(r, c));
        assert(s.sp_next_cell(r, c) == s.sp_cell(r, c));
    }
}

/// Law: a cell that is the only live cell of its grid has no live
/// neighbours. Its own liveness is never counted, and coordinates beyond the
/// boundary never contribute: the grid does not wrap around.
pub proof fn lemma_isolated_cell(s: State, r: int, c: int)
    requires
        s.wf(),
        forall|i: int, j: int|
            s.in_bounds(i, j) && !(i == r && j == c) ==> !(#[trigger] s.sp_cell(i, j)),
    ensures
        s.sp_neighbors(r, c) == 0,
{
    assert(!s.sp_live(r - 1, c - 1));
    assert(!s.sp_live(r - 1, c));
    assert(!s.sp_live(r - 1, c + 1));
    assert(!s.sp_live(r, c - 1));
    assert(!s.sp_live(r, c + 1));
    assert(!s.sp_live(r + 1, c - 1));
    assert(!s.sp_live(r + 1, c));
    assert(!s.sp_live(r + 1, c + 1));
}

} // verus!
