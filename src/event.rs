//! What the host reports to the engine, and how the engine reacts.
use vstd::prelude::*;
use crate::fire::{seeded_grid, stepped, DoomFire};
use crate::grid::{columns_of, grid_fits, lemma_larger_cells_fewer, rows_of};

verus! {

/// An event from the host: a timer tick, a new viewport size, or one of the
/// keys that toggle the diagnostic overlay and change the cell size.
#[derive(Debug, Clone, Copy, PartialEq, Eq, Structural)]
pub enum Message {
    Tick,
    Resized { width: u32, height: u32 },
    ToggleDebug,
    GrowCells,
    ShrinkCells,
}

impl DoomFire {
    /// The events the engine can take in its current state: a new viewport
    /// or a smaller cell size must still give a grid that fits.
    pub open spec fn accepts(&self, message: Message) -> bool {
        match message {
            Message::Resized { width, height } => grid_fits(width, height, self.pixel_size),
            Message::ShrinkCells => self.pixel_size > 1 ==> grid_fits(
                self.size.0,
                self.size.1,
                (self.pixel_size - 1) as u32,
            ),
            _ => true,
        }
    }

    /// The grid right after a reshape to `size` and `pixel_size`: seeded and
    /// carried one step.
    pub open spec fn restarted(&self, size: (u32, u32), pixel_size: u32) -> bool {
        &&& self.size == size
        &&& self.pixel_size == pixel_size
        &&& stepped(
            seeded_grid(columns_of(size.0, pixel_size), rows_of(size.1, pixel_size)),
            columns_of(size.0, pixel_size),
            self.fire@,
        )
    }

    /// Resizes to the given shape, seeds and runs one step.
    fn restart(&mut self, width: u32, height: u32, pixel_size: u32)
        requires
            old(self).wf(),
            grid_fits(width, height, pixel_size),
        ensures
            final(self).wf(),
            final(self).restarted((width, height), pixel_size),
            final(self).color_palettes == old(self).color_palettes,
            final(self).debug == old(self).debug,
    {
        self.resize(width, height, pixel_size);
        self.seed();
        self.step();
    }

    /// Reacts to an event and says whether the picture changed. A tick runs
    /// one step. A new viewport size reshapes the grid, reseeds it and runs
    /// one step. The debug key flips the overlay. The up key grows the cells
    /// by one pixel while they stay smaller than both viewport sides, the
    /// down key shrinks them while they are larger than one pixel; either
    /// reshapes, reseeds and steps. A key that cannot act changes nothing.
    pub fn update(&mut self, message: Message) -> (redraw: bool)
        requires
            old(self).wf(),
            old(self).accepts(message),
        ensures
            final(self).wf(),
            final(self).color_palettes == old(self).color_palettes,
            match message {
                Message::Tick => {
                    &&& redraw
                    &&& stepped(old(self).fire@, old(self).cols(), final(self).fire@)
                    &&& final(self).size == old(self).size
                    &&& final(self).pixel_size == old(self).pixel_size
                    &&& final(self).debug == old(self).debug
                },
                Message::Resized { width, height } => {
                    &&& redraw
                    &&& final(self).restarted((width, height), old(self).pixel_size)
                    &&& final(self).debug == old(self).debug
                },
                Message::ToggleDebug => {
                    &&& redraw
                    &&& final(self).debug == !old(self).debug
                    &&& final(self).fire == old(self).fire
                    &&& final(self).size == old(self).size
                    &&& final(self).pixel_size == old(self).pixel_size
                },
                Message::GrowCells => if old(self).pixel_size < old(self).size.0
                    && old(self).pixel_size < old(self).size.1 {
                    &&& redraw
                    &&& final(self).restarted(old(self).size, (old(self).pixel_size + 1) as u32)
                    &&& final(self).debug == old(self).debug
                } else {
                    !redraw && *final(self) == *old(self)
                },
                Message::ShrinkCells => if old(self).pixel_size > 1 {
                    &&& redraw
                    &&& final(self).restarted(old(self).size, (old(self).pixel_size - 1) as u32)
                    &&& final(self).debug == old(self).debug
                } else {
                    !redraw && *final(self) == *old(self)
                },
            },
    {
        match message {
            Message::Tick => {
                self.step();
                true
            },
            Message::Resized { width, height } => {
                let pixel_size = self.pixel_size;
                self.restart(width, height, pixel_size);
                true
            },
            Message::ToggleDebug => {
                self.debug = !self.debug;
                true
            },
            Message::GrowCells => {
                if self.pixel_size < self.size.0 && self.pixel_size < self.size.1 {
                    let (width, height) = self.size;
                    let pixel_size = self.pixel_size + 1;
                    proof {
                        lemma_larger_cells_fewer(width, height, self.pixel_size, pixel_size);
                    }
                    self.restart(width, height, pixel_size);
                    true
                } else {
                    false
                }
            },
            Message::ShrinkCells => {
                if self.pixel_size > 1 {
                    let (width, height) = self.size;
                    let pixel_size = self.pixel_size - 1;
                    self.restart(width, height, pixel_size);
                    true
                } else {
                    false
                }
            },
        }
    }
}

} // verus!
