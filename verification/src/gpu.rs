//! Bookkeeping of the GPU-driven simulation.
//!
//! The grid lives on the GPU in two cell buffers of `width * height` 32-bit cells, laid out
//! row by row; each frame reads one buffer and writes the other. What is decided here is which
//! buffer is current, where a cell or a run of cells is written, how many workgroups a frame
//! dispatches, and how the integer simulation parameters change. The GPU calls themselves are
//! made by the caller with the values computed here.
use vstd::prelude::*;

verus! {

/// Bytes per cell in a cell buffer.
pub const CELL_BYTES: u64 = 4;

/// Cells per side of a compute workgroup.
pub const WORKGROUP_SIDE: u32 = 16;

/// The birth rule of standard Life: a dead cell with three neighbours is born.
pub const STANDARD_BIRTH_RULE: u32 = 0b1000;

/// The survival rule of standard Life: a live cell with two or three neighbours survives.
pub const STANDARD_SURVIVE_RULE: u32 = 0b1100;

/// The abstract state of the simulation.
pub struct LifeView {
    /// Cells per row.
    pub width: nat,
    /// Rows.
    pub height: nat,
    /// Bit `n` set: a dead cell with `n` live neighbours is born.
    pub birth_rule: u32,
    /// Bit `n` set: a live cell with `n` live neighbours survives.
    pub survive_rule: u32,
    /// Frames run since the cells were last (re)initialised.
    pub frame_index: nat,
}

/// Whether a grid of the given size has a cell count that fits in a `u32`.
pub open spec fn grid_fits(width: int, height: int) -> bool {
    width * height <= u32::MAX
}

/// The integer state of the simulation: the grid size, the rules and the frame counter.
pub struct LifeState {
    width: u32,
    height: u32,
    birth_rule: u32,
    survive_rule: u32,
    frame_index: usize,
}

/// One write of a run of cells into the current cell buffer: the cells
/// `values[start..end]` go to byte `offset` of the buffer.
#[derive(Clone, Copy, Debug, PartialEq, Eq, Structural)]
pub struct RowWrite {
    /// Byte offset in the cell buffer.
    pub offset: u64,
    /// First index in the values, inclusive.
    pub start: usize,
    /// Last index in the values, exclusive.
    pub end: usize,
}

/// What a frame dispatches: the bind group pair to use and the workgroup counts.
#[derive(Clone, Copy, Debug, PartialEq, Eq, Structural)]
pub struct FramePlan {
    /// Which of the two bind groups (and so which cell buffer is read) this frame uses.
    pub bind_group: usize,
    /// Workgroups along the x axis.
    pub workgroups_x: u32,
    /// Workgroups along the y axis.
    pub workgroups_y: u32,
}

/// The index of cell `x`, `y` in a buffer laid out row by row.
pub open spec fn cell_index(width: int, x: int, y: int) -> int {
    y * width + x
}

/// The smaller of two integers.
pub open spec fn min_int(a: int, b: int) -> int {
    if a <= b {
        a
    } else {
        b
    }
}

/// The number of rows that a write of `height` rows starting at row `y` puts into a grid of
/// `grid_height` rows.
pub open spec fn rows_written(grid_height: int, y: int, height: int) -> int {
    if y >= grid_height {
        0
    } else {
        min_int(height, grid_height - y)
    }
}

/// Workgroups needed to cover `n` cells along an axis.
pub open spec fn workgroups_for(n: int) -> int {
    (n + 15) / 16
}

impl View for LifeState {
    type V = LifeView;

    closed spec fn view(&self) -> LifeView {
        LifeView {
            width: self.width as nat,
            height: self.height as nat,
            birth_rule: self.birth_rule,
            survive_rule: self.survive_rule,
            frame_index: self.frame_index as nat,
        }
    }
}

impl LifeState {
    #[verifier::type_invariant]
    spec fn cell_count_fits(self) -> bool {
        grid_fits(self.width as int, self.height as int)
    }

    /// The state of a freshly made simulation of a `width` by `height` grid: the cells are
    /// to be initialised, the rules are those of standard Life.
    pub fn new(width: u32, height: u32) -> (s: Self)
        requires
            grid_fits(width as int, height as int),
        ensures
            s@ == (LifeView {
                width: width as nat,
                height: height as nat,
                birth_rule: STANDARD_BIRTH_RULE,
                survive_rule: STANDARD_SURVIVE_RULE,
                frame_index: 0,
            }),
    {
        assert(1u32 << 3u32 == 0b1000u32 && (1u32 << 2u32) | (1u32 << 3u32) == 0b1100u32)
            by (bit_vector);
        LifeState {
            width,
            height,
            birth_rule: 1 << 3,
            survive_rule: (1 << 2) | (1 << 3),
            frame_index: 0,
        }
    }

    /// Cells per row.
    pub fn width(&self) -> (w: u32)
        ensures
            w == self@.width,
            grid_fits(self@.width as int, self@.height as int),
    {
        proof {
            use_type_invariant(self);
        }
        self.width
    }

    /// Rows.
    pub fn height(&self) -> (h: u32)
        ensures
            h == self@.height,
            grid_fits(self@.width as int, self@.height as int),
    {
        proof {
            use_type_invariant(self);
        }
        self.height
    }

    /// The birth rule.
    pub fn birth_rule(&self) -> (r: u32)
        ensures
            r == self@.birth_rule,
    {
        self.birth_rule
    }

    /// The survival rule.
    pub fn survive_rule(&self) -> (r: u32)
        ensures
            r == self@.survive_rule,
    {
        self.survive_rule
    }

    /// Frames run since the cells were last (re)initialised.
    pub fn frame_index(&self) -> (f: usize)
        ensures
            f == self@.frame_index,
    {
        self.frame_index
    }

    /// The number of cells in the grid, and so in each cell buffer.
    pub fn cell_count(&self) -> (n: usize)
        ensures
            n == self@.width * self@.height,
    {
        proof {
            use_type_invariant(self);
        }
        (self.width * self.height) as usize
    }

    /// The cell buffer that holds the current generation, and that writes go to.
    pub fn current_buffer(&self) -> (b: usize)
        ensures
            b == self@.frame_index % 2,
            b < 2,
    {
        self.frame_index % 2
    }

    /// Starts over from freshly written cells: the frame counter goes back to zero.
    pub fn reset(&mut self)
        ensures
            final(self)@ == (LifeView { frame_index: 0, ..old(self)@ }),
    {
        proof {
            use_type_invariant(&*self);
        }
        self.frame_index = 0;
    }

    /// The byte offset in the current cell buffer at which cell `x`, `y` is written, or
    /// `None` when the cell lies outside the grid (and nothing is written).
    pub fn cell_offset(&self, x: u32, y: u32) -> (r: Option<u64>)
        ensures
            r == (if x < self@.width && y < self@.height {
                Some((cell_index(self@.width as int, x as int, y as int) * 4) as u64)
            } else {
                None
            }),
            r matches Some(o) ==> o + CELL_BYTES <= self@.width * self@.height * CELL_BYTES,
    {
        proof {
            use_type_invariant(self);
        }
        if x < self.width && y < self.height {
            proof {
                lemma_index_in_grid(self.width as int, self.height as int, x as int, y as int);
            }
            let idx = (y * self.width + x) as u64 * 4;
            Some(idx)
        } else {
            None
        }
    }

    /// The writes that put a `width` by `height` block of cell values, given row by row in a
    /// slice of `values_len` values, at cell `x`, `y` of the current buffer. Rows that fall
    /// below the grid are dropped and each row is cut at the grid's right edge. When the
    /// slice does not hold exactly `width * height` values, nothing is written.
    pub fn row_writes(&self, x: u32, y: u32, width: u32, height: u32, values_len: usize) -> (r:
        Vec<RowWrite>)
        requires
            grid_fits(width as int, height as int),
            values_len == width * height && height > 0 && y < self@.height ==> x <= self@.width,
        ensures
            values_len != width * height ==> r@.len() == 0,
            values_len == width * height ==> r@.len() == rows_written(
                self@.height as int,
                y as int,
                height as int,
            ),
            forall|k: int|
                #![trigger r@[k]]
                0 <= k < r@.len() ==> {
                    &&& r@[k].offset == cell_index(self@.width as int, x as int, y + k) * 4
                    &&& r@[k].start == k * width
                    &&& r@[k].end == k * width + min_int(width as int, self@.width - x)
                },
    {
        proof {
            use_type_invariant(self);
        }
        let mut writes: Vec<RowWrite> = Vec::new();
        if values_len != (width * height) as usize {
            return writes;
        }
        let gw = self.width;
        let gh = self.height;
        let mut row: u32 = 0;
        while row < height
            invariant
                row <= height,
                gw == self@.width,
                gh == self@.height,
                grid_fits(gw as int, gh as int),
                grid_fits(width as int, height as int),
                height > 0 && y < gh ==> x <= gw,
                y < gh ==> y + row <= gh,
                y >= gh ==> row == 0,
                writes@.len() == row,
                forall|k: int|
                    #![trigger writes@[k]]
                    0 <= k < writes@.len() ==> {
                        &&& writes@[k].offset == cell_index(gw as int, x as int, y + k) * 4
                        &&& writes@[k].start == k * width
                        &&& writes@[k].end == k * width + min_int(width as int, gw - x)
                    },
            ensures
                writes@.len() == rows_written(gh as int, y as int, height as int),
                forall|k: int|
                    #![trigger writes@[k]]
                    0 <= k < writes@.len() ==> {
                        &&& writes@[k].offset == cell_index(gw as int, x as int, y + k) * 4
                        &&& writes@[k].start == k * width
                        &&& writes@[k].end == k * width + min_int(width as int, gw - x)
                    },
            decreases height - row,
        {
            let dy = y + row;
            if dy >= gh {
                break;
            }
            let dx = x;
            let row_len = if width <= gw - dx {
                width
            } else {
                gw - dx
            };
            proof {
                lemma_index_in_grid(gw as int, gh as int, dx as int, dy as int);
                lemma_row_start_in_block(width as int, height as int, row as int);
            }
            let buffer_idx = (dy * gw + dx) as u64 * 4;
            let values_start = (row * width) as usize;
            let values_end = values_start + row_len as usize;
            writes.push(RowWrite { offset: buffer_idx, start: values_start, end: values_end });
            row = row + 1;
        }
        writes
    }

    /// The dispatch of the next frame: the bind group pair of the current buffer and enough
    /// workgroups of 16 by 16 cells to cover the grid.
    pub fn frame_plan(&self) -> (p: FramePlan)
        requires
            self@.width + 15 <= u32::MAX,
            self@.height + 15 <= u32::MAX,
        ensures
            p.bind_group == self@.frame_index % 2,
            p.workgroups_x == workgroups_for(self@.width as int),
            p.workgroups_y == workgroups_for(self@.height as int),
    {
        FramePlan {
            bind_group: self.frame_index % 2,
            workgroups_x: (self.width + 15) / 16,
            workgroups_y: (self.height + 15) / 16,
        }
    }

    /// Records that a frame has run: the generations swap buffers.
    pub fn finish_frame(&mut self)
        requires
            old(self)@.frame_index < usize::MAX,
        ensures
            final(self)@ == (LifeView { frame_index: old(self)@.frame_index + 1, ..old(self)@ }),
    {
        proof {
            use_type_invariant(&*self);
        }
        self.frame_index = self.frame_index + 1;
    }

    /// Sets the birth and survival rules.
    pub fn update_rules(&mut self, birth_rule: u32, survive_rule: u32)
        ensures
            final(self)@ == (LifeView { birth_rule, survive_rule, ..old(self)@ }),
    {
        proof {
            use_type_invariant(&*self);
        }
        self.birth_rule = birth_rule;
        self.survive_rule = survive_rule;
    }

    /// Changes the grid size; the cell buffers are made anew and the frame counter goes
    /// back to zero.
    pub fn resize(&mut self, width: u32, height: u32)
        requires
            grid_fits(width as int, height as int),
        ensures
            final(self)@ == (LifeView {
                width: width as nat,
                height: height as nat,
                frame_index: 0,
                ..old(self)@
            }),
    {
        *self = LifeState {
            width,
            height,
            birth_rule: self.birth_rule,
            survive_rule: self.survive_rule,
            frame_index: 0,
        };
    }

    /// The size in bytes of a cell buffer, as read back from the GPU.
    pub fn readback_size(&self) -> (n: u64)
        requires
            self@.width * self@.height * 4 <= u32::MAX,
        ensures
            n == self@.width * self@.height * CELL_BYTES,
    {
        (self.width * self.height * 4) as u64
    }
}

/// Enough workgroups of 16 cells to cover `n` cells, and no more: one workgroup fewer would
/// leave cells uncovered.
pub proof fn lemma_workgroups_cover(n: int)
    requires
        0 <= n,
    ensures
        workgroups_for(n) * 16 >= n,
        (workgroups_for(n) - 1) * 16 < n || n == 0,
        n == 0 ==> workgroups_for(n) == 0,
{
}

/// A block of `height` rows placed at row `y` writes exactly its rows that fall inside the
/// grid: row `k` of the block is written exactly when `k < height` and `y + k` is a row of
/// the grid.
pub proof fn lemma_rows_written_are_inside(grid_height: int, y: int, height: int, k: int)
    requires
        0 <= y,
        0 <= height,
        0 <= k,
    ensures
        k < rows_written(grid_height, y, height) <==> (k < height && y + k < grid_height),
        0 <= rows_written(grid_height, y, height) <= height,
{
}

/// In a grid of `width` columns, cell `x`, `y` sits `x` places after the start of row `y`,
/// and rows follow one another `width` places apart.
pub proof fn lemma_cell_index_layout(width: int, x: int, y: int)
    ensures
        cell_index(width, x, y) == cell_index(width, 0, y) + x,
        cell_index(width, 0, y + 1) == cell_index(width, 0, y) + width,
        cell_index(width, 0, 0) == 0,
{
    assert((y + 1) * width == y * width + width) by (nonlinear_arith);
}

/// `min_int` is the smaller of its two arguments.
pub proof fn lemma_min_int(a: int, b: int)
    ensures
        min_int(a, b) <= a && min_int(a, b) <= b && (min_int(a, b) == a || min_int(a, b) == b),
{
}

/// Each finished frame swaps which buffer is current, and a reset or resize makes the first
/// buffer current again.
pub proof fn lemma_frames_alternate_buffers(v: LifeView)
    ensures
        (v.frame_index + 1) % 2 == 1 - v.frame_index % 2,
        (LifeView { frame_index: 0, ..v }).frame_index % 2 == 0,
{
}

/// Distinct cells of a grid go to distinct places of the cell buffer.
pub proof fn lemma_cell_index_injective(width: int, x1: int, y1: int, x2: int, y2: int)
    requires
        0 <= x1 < width,
        0 <= x2 < width,
        0 <= y1,
        0 <= y2,
        cell_index(width, x1, y1) == cell_index(width, x2, y2),
    ensures
        x1 == x2,
        y1 == y2,
{
    if y1 < y2 {
        assert(y1 * width + width <= y2 * width) by (nonlinear_arith)
            requires
                y1 < y2,
                0 <= width,
        ;
    } else if y2 < y1 {
        assert(y2 * width + width <= y1 * width) by (nonlinear_arith)
            requires
                y2 < y1,
                0 <= width,
        ;
    }
}

/// The writes of a block of cells stay inside the cell buffer and inside the values, and
/// the writes of two rows do not overlap.
pub proof fn lemma_row_writes_in_bounds(
    grid_width: int,
    grid_height: int,
    x: int,
    y: int,
    width: int,
    height: int,
    k: int,
    k2: int,
)
    requires
        0 <= x <= grid_width,
        0 <= y,
        0 <= width,
        0 <= height,
        0 <= k < k2 < rows_written(grid_height, y, height),
    ensures
        0 <= min_int(width, grid_width - x),
        cell_index(grid_width, x, y + k) + min_int(width, grid_width - x) <= grid_width
            * grid_height,
        k * width + min_int(width, grid_width - x) <= width * height,
        cell_index(grid_width, x, y + k) + min_int(width, grid_width - x) <= cell_index(
            grid_width,
            x,
            y + k2,
        ),
        cell_index(grid_width, x, y + k2) + min_int(width, grid_width - x) <= grid_width
            * grid_height,
        k2 * width + min_int(width, grid_width - x) <= width * height,
{
    lemma_index_in_grid(grid_width, grid_height, x, y + k);
    lemma_index_in_grid(grid_width, grid_height, x, y + k2);
    lemma_row_start_in_block(width, height, k);
    lemma_row_start_in_block(width, height, k2);
    assert((y + k) * grid_width + grid_width <= (y + k2) * grid_width) by (nonlinear_arith)
        requires
            k < k2,
            0 <= grid_width,
    ;
}

/// A cell inside a `width` by `height` grid has an index below `width * height`.
proof fn lemma_index_in_grid(width: int, height: int, x: int, y: int)
    requires
        0 <= x <= width,
        0 <= y < height,
    ensures
        0 <= y * width + x <= width * height,
        y * width + width <= width * height,
        x < width ==> y * width + x < width * height,
{
    assert(y * width + width <= width * height) by (nonlinear_arith)
        requires
            0 <= y < height,
            0 <= width,
    ;
    assert(0 <= y * width) by (nonlinear_arith)
        requires
            0 <= y,
            0 <= width,
    ;
}

/// Row `row` of a `width` by `height` block starts at value `row * width`, and the row ends
/// within the block.
proof fn lemma_row_start_in_block(width: int, height: int, row: int)
    requires
        0 <= row < height,
        0 <= width,
    ensures
        0 <= row * width,
        row * width + width <= width * height,
{
    assert(row * width + width <= width * height) by (nonlinear_arith)
        requires
            0 <= row < height,
            0 <= width,
    ;
    assert(0 <= row * width) by (nonlinear_arith)
        requires
            0 <= row,
            0 <= width,
    ;
}

} // verus!
