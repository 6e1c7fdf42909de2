//! The fire grid: its state, the seeding rule and the propagation step.
use vstd::prelude::*;
use crate::decay::{random_decay, DECAY_BOUND};
use crate::grid::{
    cell_count_of, columns_of, grid_fits, lemma_cell_offset, lemma_factor_le_product,
    lemma_index_in_grid, rows_of,
};
use crate::palette::{color_of, palette, palette_rgb, Rgb, MAX_INTENSITY, PALETTE_SIZE};

verus! {

/// Every intensity of `s` has a colour in the ramp.
pub open spec fn intensities_bounded(s: Seq<u8>) -> bool {
    forall|i: int| 0 <= i < s.len() ==> #[trigger] s[i] <= MAX_INTENSITY
}

/// `p` is the colour ramp, entry for entry.
pub open spec fn is_palette(p: Seq<Rgb>) -> bool {
    &&& p.len() == PALETTE_SIZE
    &&& forall|i: int| 0 <= i < PALETTE_SIZE ==> #[trigger] p[i] == palette_rgb(i)
}

/// A grid of `n` cold cells.
pub open spec fn cold_grid(n: int) -> Seq<u8> {
    Seq::new(n as nat, |i: int| 0u8)
}

/// A freshly seeded grid: the last row at the hottest intensity, every other
/// cell cold.
pub open spec fn seeded_grid(cols: int, rows: int) -> Seq<u8> {
    Seq::new(
        (cols * rows) as nat,
        |i: int|
            if i >= cols * rows - cols {
                MAX_INTENSITY
            } else {
                0u8
            },
    )
}

/// The intensity carried up from a cell of intensity `below` by a decay of
/// `decay`: never below zero.
pub open spec fn decayed(below: u8, decay: u8) -> u8 {
    if below >= decay {
        (below - decay) as u8
    } else {
        0
    }
}

/// Where the cell at `index` writes under a decay of `decay`: shifted left by
/// the decay, but never before the start of the buffer.
pub open spec fn wind_target(index: int, decay: u8) -> int {
    if index < decay {
        index
    } else {
        index - decay
    }
}

/// The grid after the cell at `i` has been processed: a cell with a cell below
/// it writes that cell's decayed intensity to its wind target; a cell of the
/// last row is left alone.
pub open spec fn spread_cell(g: Seq<u8>, cols: int, draws: Seq<u8>, i: int) -> Seq<u8> {
    if i + cols < g.len() {
        g.update(wind_target(i, draws[i]), decayed(g[i + cols], draws[i]))
    } else {
        g
    }
}

/// The grid after the cells `0 .. k` have been processed in order, in place,
/// so that a later cell may read what an earlier one wrote.
pub open spec fn spread_upto(g: Seq<u8>, cols: int, draws: Seq<u8>, k: nat) -> Seq<u8>
    decreases k,
{
    if k == 0 {
        g
    } else {
        spread_cell(spread_upto(g, cols, draws, (k - 1) as nat), cols, draws, k - 1)
    }
}

/// One full propagation pass over `g` with the decay draws `draws`, one per
/// cell.
pub open spec fn spread(g: Seq<u8>, cols: int, draws: Seq<u8>) -> Seq<u8> {
    spread_upto(g, cols, draws, g.len())
}

/// A propagation pass keeps the length of the grid.
pub proof fn lemma_spread_len(g: Seq<u8>, cols: int, draws: Seq<u8>, k: nat)
    requires
        cols >= 0,
    ensures
        spread_upto(g, cols, draws, k).len() == g.len(),
    decreases k,
{
    if k > 0 {
        lemma_spread_len(g, cols, draws, (k - 1) as nat);
    }
}

/// `draws` is a valid set of decay draws for a grid of `n` cells.
pub open spec fn valid_draws(draws: Seq<u8>, n: int) -> bool {
    &&& draws.len() == n
    &&& forall|i: int| 0 <= i < n ==> #[trigger] draws[i] < DECAY_BOUND
}

/// `after` is what one propagation pass can make of `before` for some draws.
pub open spec fn stepped(before: Seq<u8>, cols: int, after: Seq<u8>) -> bool {
    exists|draws: Seq<u8>| valid_draws(draws, before.len() as int) && after == spread(before, cols, draws)
}

/// The intensity carried up from `below` by a decay of `decay`.
pub fn decayed_intensity(below: u8, decay: u8) -> (r: u8)
    ensures
        r == decayed(below, decay),
{
    if below >= decay {
        below - decay
    } else {
        0
    }
}

/// The index that the cell at `index` writes to under a decay of `decay`.
pub fn wind_index(index: usize, decay: u8) -> (r: usize)
    ensures
        r == wind_target(index as int, decay),
{
    if index < decay as usize {
        index
    } else {
        index - decay as usize
    }
}

/// The fire simulation: a row-major grid of intensities covering a viewport
/// of `size` pixels with square cells of `pixel_size` pixels.
pub struct DoomFire {
    pub fire: Vec<u8>,
    pub pixel_size: u32,
    pub size: (u32, u32),
    pub color_palettes: Vec<Rgb>,
    pub debug: bool,
}

impl DoomFire {
    pub open spec fn cols(&self) -> int {
        columns_of(self.size.0, self.pixel_size)
    }

    pub open spec fn rows(&self) -> int {
        rows_of(self.size.1, self.pixel_size)
    }

    /// The intensity of cell `(col, row)`.
    pub open spec fn cell(&self, col: int, row: int) -> u8 {
        self.fire@[col + self.cols() * row]
    }

    /// A grid whose buffer matches its dimensions, whose colour table is the
    /// ramp, and whose every intensity has a colour.
    pub open spec fn wf(&self) -> bool {
        &&& grid_fits(self.size.0, self.size.1, self.pixel_size)
        &&& self.fire@.len() == self.cols() * self.rows()
        &&& is_palette(self.color_palettes@)
        &&& intensities_bounded(self.fire@)
    }

    /// A cold grid for a viewport of `width` by `height` pixels and cells of
    /// `pixel_size` pixels.
    pub fn new(width: u32, height: u32, pixel_size: u32) -> (f: DoomFire)
        requires
            grid_fits(width, height, pixel_size),
        ensures
            f.wf(),
            f.size == (width, height),
            f.pixel_size == pixel_size,
            f.fire@ == cold_grid(cell_count_of(width, height, pixel_size)),
            !f.debug,
    {
        let mut f = DoomFire::default();
        f.resize(width, height, pixel_size);
        f
    }

    /// The number of columns and rows.
    pub fn dimensions(&self) -> (r: (u32, u32))
        requires
            self.wf(),
        ensures
            r.0 == self.cols(),
            r.1 == self.rows(),
    {
        proof {
            lemma_factor_le_product(self.cols(), self.rows());
        }
        (self.size.0 / self.pixel_size + 1, self.size.1 / self.pixel_size + 1)
    }

    /// Takes new viewport dimensions and cell size; the grid is reallocated to
    /// the new shape with every cell cold. It is not seeded.
    pub fn resize(&mut self, width: u32, height: u32, pixel_size: u32)
        requires
            grid_fits(width, height, pixel_size),
            is_palette(old(self).color_palettes@),
        ensures
            final(self).wf(),
            final(self).size == (width, height),
            final(self).pixel_size == pixel_size,
            final(self).fire@ == cold_grid(cell_count_of(width, height, pixel_size)),
            final(self).color_palettes == old(self).color_palettes,
            final(self).debug == old(self).debug,
    {
        proof {
            lemma_factor_le_product(columns_of(width, pixel_size), rows_of(height, pixel_size));
        }
        let cols = width / pixel_size + 1;
        let rows = height / pixel_size + 1;
        let total = cols * rows;
        let mut fire: Vec<u8> = Vec::new();
        let mut i: u32 = 0;
        while i < total
            invariant
                i <= total,
                total == cell_count_of(width, height, pixel_size),
                fire@ == cold_grid(i as int),
            decreases total - i,
        {
            fire.push(0);
            i = i + 1;
            assert(fire@ =~= cold_grid(i as int));
        }
        self.fire = fire;
        self.size = (width, height);
        self.pixel_size = pixel_size;
    }

    /// Seeds the fire: every cell of the last row takes the hottest intensity
    /// and every other cell goes cold, whatever the grid held before.
    pub fn seed(&mut self)
        requires
            old(self).wf(),
        ensures
            final(self).wf(),
            final(self).fire@ == seeded_grid(old(self).cols(), old(self).rows()),
            final(self).size == old(self).size,
            final(self).pixel_size == old(self).pixel_size,
            final(self).color_palettes == old(self).color_palettes,
            final(self).debug == old(self).debug,
    {
        let (cols, rows) = self.dimensions();
        proof {
            lemma_factor_le_product(cols as int, rows as int);
        }
        let total = cols * rows;
        let source = total - cols;
        let mut fire: Vec<u8> = Vec::new();
        let mut i: u32 = 0;
        while i < total
            invariant
                i <= total,
                total == cols * rows,
                source == total - cols,
                fire@.len() == i,
                forall|j: int| 0 <= j < i ==> #[trigger] fire@[j] == seeded_grid(cols as int, rows as int)[j],
            decreases total - i,
        {
            if i >= source {
                fire.push(MAX_INTENSITY);
            } else {
                fire.push(0);
            }
            i = i + 1;
        }
        assert(fire@ =~= seeded_grid(cols as int, rows as int));
        self.fire = fire;
    }

    /// One propagation pass with the given decay draws, one per cell: each
    /// cell that has a cell below it, in row-major order, writes the decayed
    /// intensity of that cell to its wind target, in place.
    pub fn step_with(&mut self, draws: &Vec<u8>)
        requires
            old(self).wf(),
            draws@.len() == old(self).fire@.len(),
        ensures
            final(self).wf(),
            final(self).fire@ == spread(old(self).fire@, old(self).cols(), draws@),
            forall|i: int|
                old(self).fire@.len() - old(self).cols() <= i < old(self).fire@.len()
                    ==> #[trigger] final(self).fire@[i] == old(self).fire@[i],
            final(self).size == old(self).size,
            final(self).pixel_size == old(self).pixel_size,
            final(self).color_palettes == old(self).color_palettes,
            final(self).debug == old(self).debug,
    {
        let (cols, rows) = self.dimensions();
        proof {
            lemma_factor_le_product(cols as int, rows as int);
        }
        let len = self.fire.len();
        let source = len - cols as usize;
        let mut i: usize = 0;
        while i < len
            invariant
                i <= len,
                len == old(self).fire@.len(),
                cols == old(self).cols(),
                source == len - cols,
                draws@.len() == len,
                self.fire@ == spread_upto(old(self).fire@, cols as int, draws@, i as nat),
                self.fire@.len() == len,
                intensities_bounded(self.fire@),
                forall|j: int| source <= j < len ==> #[trigger] self.fire@[j] == old(self).fire@[j],
                self.size == old(self).size,
                self.pixel_size == old(self).pixel_size,
                self.color_palettes == old(self).color_palettes,
                self.debug == old(self).debug,
            decreases len - i,
        {
            if i < source {
                let decay = draws[i];
                let below = self.fire[i + cols as usize];
                let target = wind_index(i, decay);
                let value = decayed_intensity(below, decay);
                self.fire.set(target, value);
            }
            proof {
                lemma_spread_len(old(self).fire@, cols as int, draws@, (i + 1) as nat);
            }
            i = i + 1;
        }
    }

    /// One propagation pass with a fresh random draw of 0, 1 or 2 for each
    /// cell.
    pub fn step(&mut self)
        requires
            old(self).wf(),
        ensures
            final(self).wf(),
            stepped(old(self).fire@, old(self).cols(), final(self).fire@),
            forall|i: int|
                old(self).fire@.len() - old(self).cols() <= i < old(self).fire@.len()
                    ==> #[trigger] final(self).fire@[i] == old(self).fire@[i],
            final(self).size == old(self).size,
            final(self).pixel_size == old(self).pixel_size,
            final(self).color_palettes == old(self).color_palettes,
            final(self).debug == old(self).debug,
    {
        let len = self.fire.len();
        let mut draws: Vec<u8> = Vec::new();
        let mut i: usize = 0;
        while i < len
            invariant
                i <= len,
                draws@.len() == i,
                forall|j: int| 0 <= j < i ==> #[trigger] draws@[j] < DECAY_BOUND,
            decreases len - i,
        {
            draws.push(random_decay());
            i = i + 1;
        }
        self.step_with(&draws);
        assert(valid_draws(draws@, len as int));
    }

    /// The intensity of cell `(col, row)`.
    pub fn intensity_at(&self, col: u32, row: u32) -> (r: u8)
        requires
            self.wf(),
            col < self.cols(),
            row < self.rows(),
        ensures
            r == self.cell(col as int, row as int),
            r <= MAX_INTENSITY,
    {
        let (cols, rows) = self.dimensions();
        proof {
            lemma_index_in_grid(col as int, row as int, cols as int, rows as int);
        }
        self.fire[(col + cols * row) as usize]
    }

    /// The colour of cell `(col, row)`.
    pub fn color_at(&self, col: u32, row: u32) -> (c: Rgb)
        requires
            self.wf(),
            col < self.cols(),
            row < self.rows(),
        ensures
            c == palette_rgb(self.cell(col as int, row as int) as int),
    {
        let (cols, rows) = self.dimensions();
        proof {
            lemma_index_in_grid(col as int, row as int, cols as int, rows as int);
        }
        let value = self.fire[(col + cols * row) as usize];
        self.color_palettes[value as usize]
    }

    /// The top-left pixel of cell `(col, row)`.
    pub fn cell_position(&self, col: u32, row: u32) -> (p: (u32, u32))
        requires
            self.wf(),
            col < self.cols(),
            row < self.rows(),
        ensures
            p.0 == col * self.pixel_size,
            p.1 == row * self.pixel_size,
    {
        proof {
            lemma_cell_offset(col as int, self.size.0, self.pixel_size);
            lemma_cell_offset(row as int, self.size.1, self.pixel_size);
        }
        (col * self.pixel_size, row * self.pixel_size)
    }
}

impl Default for DoomFire {
    /// An empty grid with no viewport yet, holding the colour ramp.
    fn default() -> (f: DoomFire)
        ensures
            f.fire@.len() == 0,
            f.pixel_size == 0,
            f.size == (0u32, 0u32),
            is_palette(f.color_palettes@),
            !f.debug,
    {
        DoomFire { fire: Vec::new(), pixel_size: 0, size: (0, 0), color_palettes: palette(), debug: false }
    }
}

/// Every cell of a well-formed grid has an intensity between 0 and the
/// hottest; since every operation that changes a grid keeps it well-formed,
/// this holds of every state the engine reaches.
pub proof fn lemma_intensity_in_range(f: DoomFire, col: int, row: int)
    requires
        f.wf(),
        0 <= col < f.cols(),
        0 <= row < f.rows(),
    ensures
        0 <= f.cell(col, row) <= MAX_INTENSITY,
{
    lemma_index_in_grid(col, row, f.cols(), f.rows());
}

/// After seeding, the cell `(col, row)` is at the hottest intensity if it is
/// in the last row and cold otherwise.
pub proof fn lemma_seeded_cell(cols: int, rows: int, col: int, row: int)
    requires
        0 <= col < cols,
        0 <= row < rows,
    ensures
        seeded_grid(cols, rows)[col + cols * row] == (if row == rows - 1 {
            MAX_INTENSITY
        } else {
            0u8
        }),
{
    lemma_index_in_grid(col, row, cols, rows);
}

/// Propagation never heats: the value written to a cell's wind target is at
/// most the intensity of the cell below it.
pub proof fn lemma_decay_never_heats(g: Seq<u8>, cols: int, draws: Seq<u8>, i: int)
    requires
        0 <= i,
        cols >= 0,
        i + cols < g.len(),
        draws.len() == g.len(),
    ensures
        spread_cell(g, cols, draws, i)[wind_target(i, draws[i])] <= g[i + cols],
{
}

/// A cold cell stays cold when carried up, whatever the decay: the
/// subtraction never wraps around.
pub proof fn lemma_cold_stays_cold(decay: u8)
    ensures
        decayed(0, decay) == 0,
{
}

/// The wind never pushes a write before the start of the buffer: a cell whose
/// index is smaller than the decay writes to itself, and every target lies
/// between the buffer start and the cell.
pub proof fn lemma_wind_clamp(index: int, decay: u8)
    requires
        0 <= index,
    ensures
        index < decay ==> wind_target(index, decay) == index,
        0 <= wind_target(index, decay) <= index,
{
}

/// A grid that was just resized reads cold at every cell.
pub proof fn lemma_resized_is_cold(f: DoomFire, col: int, row: int)
    requires
        f.wf(),
        f.fire@ == cold_grid(f.fire@.len() as int),
        0 <= col < f.cols(),
        0 <= row < f.rows(),
    ensures
        f.cell(col, row) == 0,
{
    lemma_index_in_grid(col, row, f.cols(), f.rows());
}

} // verus!
