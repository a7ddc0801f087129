//! The 64x32 monochrome framebuffer.

use vstd::prelude::*;

verus! {

/// Number of columns of the screen.
pub const SCREEN_WIDTH: usize = 64;

/// Number of rows of the screen.
pub const SCREEN_HEIGHT: usize = 32;

/// Number of cells of the screen.
pub const SCREEN_CELLS: usize = 2048;

/// Side of the square block that stands for one cell when rasterized.
pub const SCALE: u32 = 10;

/// A filled rectangle in window coordinates.
#[derive(Clone, Copy, Debug, PartialEq, Eq, Structural)]
pub struct Block {
    pub x: i32,
    pub y: i32,
    pub width: u32,
    pub height: u32,
}

/// The index of the cell that coordinates `(x, y)` fall on, in row-major
/// order; both coordinates wrap around the screen.
pub open spec fn cell_index(x: int, y: int) -> int {
    (y % 32) * 64 + x % 64
}

/// A screen with every cell off.
pub open spec fn blank_screen() -> Seq<bool> {
    Seq::new(2048, |cell: int| false)
}

/// The screen `cells` after `on` is XORed into the cell at `(x, y)`.
pub open spec fn toggled(cells: Seq<bool>, x: int, y: int, on: bool) -> Seq<bool> {
    cells.update(cell_index(x, y), cells[cell_index(x, y)] != on)
}

/// Whether XORing `on` into the cell at `(x, y)` of `cells` turns a lit
/// cell off.
pub open spec fn collides(cells: Seq<bool>, x: int, y: int, on: bool) -> bool {
    cells[cell_index(x, y)] && on
}

/// The block that stands for cell number `cell`.
pub open spec fn block_of(cell: int) -> Block {
    Block { x: ((cell % 64) * 10) as i32, y: ((cell / 64) * 10) as i32, width: 10, height: 10 }
}

/// The blocks of the lit cells among the first `upto` cells of `cells`,
/// in row-major order.
pub open spec fn lit_blocks(cells: Seq<bool>, upto: nat) -> Seq<Block>
    decreases upto,
{
    if upto == 0 {
        Seq::empty()
    } else {
        let before = lit_blocks(cells, (upto - 1) as nat);
        if cells[upto - 1] {
            before.push(block_of(upto - 1))
        } else {
            before
        }
    }
}

/// The numbers of the cells, among the first `upto`, on which the
/// screens `before` and `after` differ, in ascending order.
pub open spec fn differing_cells(before: Seq<bool>, after: Seq<bool>, upto: nat) -> Seq<usize>
    decreases upto,
{
    if upto == 0 {
        Seq::empty()
    } else {
        let earlier = differing_cells(before, after, (upto - 1) as nat);
        if before[upto - 1] != after[upto - 1] {
            earlier.push((upto - 1) as usize)
        } else {
            earlier
        }
    }
}

/// What one instruction did to the screen.
#[derive(Debug, PartialEq, Eq)]
pub struct Mutation {
    /// The numbers of the cells that changed, in ascending order; cell
    /// `(x, y)` has the number `64 * y + x`.
    pub toggled: Vec<usize>,
    /// Whether a sprite turned off a cell that was lit.
    pub collision: bool,
}

/// The framebuffer: one boolean per cell, row by row.
pub struct Display {
    framebuffer: [bool; 2048],
}

impl View for Display {
    type V = Seq<bool>;

    closed spec fn view(&self) -> Seq<bool> {
        self.framebuffer@
    }
}

impl Display {
    /// A screen always has 2048 cells.
    pub proof fn lemma_cells(&self)
        ensures
            self@.len() == 2048,
    {
    }

    /// A screen with every cell off.
    pub fn new() -> (display: Display)
        ensures
            display@ == blank_screen(),
    {
        let display = Display { framebuffer: [false; 2048] };
        assert(display@ =~= blank_screen());
        display
    }

    /// Turns every cell off.
    pub fn clear(&mut self)
        ensures
            final(self)@ == blank_screen(),
    {
        self.framebuffer = [false; 2048];
        assert(self@ =~= blank_screen());
    }

    /// XORs `on` into the cell at `(x mod 64, y mod 32)`.
    ///
    /// Reports a collision when the cell was lit and `on` is set, which is
    /// when the call turns a lit cell off.
    pub fn set_pixel(&mut self, x: usize, y: usize, on: bool) -> (collision: bool)
        ensures
            final(self)@ == toggled(old(self)@, x as int, y as int, on),
            collision == collides(old(self)@, x as int, y as int, on),
    {
        let index: usize = (y % SCREEN_HEIGHT) * SCREEN_WIDTH + x % SCREEN_WIDTH;
        let lit: bool = self.framebuffer[index];
        self.framebuffer[index] = lit ^ on;
        lit && on
    }

    /// Whether the cell at `(x mod 64, y mod 32)` is lit.
    pub fn pixel(&self, x: usize, y: usize) -> (lit: bool)
        ensures
            lit == self@[cell_index(x as int, y as int)],
    {
        self.framebuffer[(y % SCREEN_HEIGHT) * SCREEN_WIDTH + x % SCREEN_WIDTH]
    }

    /// A copy of all cells, row by row, for rendering.
    pub fn snapshot(&self) -> (grid: [bool; 2048])
        ensures
            grid@ == self@,
    {
        self.framebuffer
    }

    /// The numbers of the cells that differ from those of the earlier
    /// snapshot `earlier`, in ascending order.
    pub fn changes_since(&self, earlier: &[bool; 2048]) -> (cells: Vec<usize>)
        ensures
            cells@ == differing_cells(earlier@, self@, 2048),
    {
        let mut cells: Vec<usize> = Vec::new();
        let mut cell: usize = 0;
        while cell < SCREEN_CELLS
            invariant
                cell <= 2048,
                cells@ == differing_cells(earlier@, self@, cell as nat),
            decreases 2048 - cell,
        {
            if earlier[cell] != self.framebuffer[cell] {
                cells.push(cell);
            }
            cell += 1;
        }
        cells
    }

    /// The rectangles to fill in order to show the screen: one block per
    /// lit cell, row by row.
    pub fn draw(&self) -> (blocks: Vec<Block>)
        ensures
            blocks@ == lit_blocks(self@, 2048),
    {
        let mut blocks: Vec<Block> = Vec::new();
        let mut cell: usize = 0;
        while cell < SCREEN_CELLS
            invariant
                cell <= 2048,
                blocks@ == lit_blocks(self@, cell as nat),
            decreases 2048 - cell,
        {
            if self.framebuffer[cell] {
                let column: u32 = (cell % SCREEN_WIDTH) as u32;
                let row: u32 = (cell / SCREEN_WIDTH) as u32;
                blocks.push(
                    Block {
                        x: (column * SCALE) as i32,
                        y: (row * SCALE) as i32,
                        width: SCALE,
                        height: SCALE,
                    },
                );
            }
            cell += 1;
        }
        blocks
    }
}

/// Setting a pixel twice undoes itself: the screen is as it was, and
/// exactly one of the two calls reports a collision.
pub proof fn law_set_pixel_twice(cells: Seq<bool>, x: int, y: int)
    requires
        cells.len() == 2048,
    ensures
        toggled(toggled(cells, x, y, true), x, y, true) == cells,
        collides(toggled(cells, x, y, true), x, y, true) != collides(cells, x, y, true),
        !cells[cell_index(x, y)] ==> !collides(cells, x, y, true) && collides(
            toggled(cells, x, y, true),
            x,
            y,
            true,
        ),
{
    assert(0 <= cell_index(x, y) < 2048);
    assert(toggled(toggled(cells, x, y, true), x, y, true) =~= cells);
}

/// The differing cells are exactly the cells on which the two screens
/// differ, each listed once, in ascending order.
pub proof fn law_differing_cells(before: Seq<bool>, after: Seq<bool>, upto: nat)
    requires
        upto <= before.len(),
        upto <= after.len(),
        upto <= usize::MAX,
    ensures
        forall|cell: usize|
            #[trigger] differing_cells(before, after, upto).contains(cell) <==> cell < upto
                && before[cell as int] != after[cell as int],
        forall|j: int, k: int|
            0 <= j < k < differing_cells(before, after, upto).len() ==> differing_cells(
                before,
                after,
                upto,
            )[j] < differing_cells(before, after, upto)[k],
    decreases upto,
{
    let cells = differing_cells(before, after, upto);
    if upto > 0 {
        let earlier = differing_cells(before, after, (upto - 1) as nat);
        law_differing_cells(before, after, (upto - 1) as nat);
        let last = (upto - 1) as usize;
        assert forall|k: int| 0 <= k < earlier.len() implies earlier[k] < last by {
            let cell = earlier[k];
            assert(differing_cells(before, after, (upto - 1) as nat).contains(cell));
            assert(cell < (upto - 1) as nat);
        }
        assert forall|cell: usize| #[trigger]
            cells.contains(cell) <==> cell < upto && before[cell as int] != after[cell as int] by {
            if before[upto - 1] != after[upto - 1] {
                assert(cells == earlier.push(last));
                if cells.contains(cell) {
                    let k = choose|k: int| 0 <= k < cells.len() && cells[k] == cell;
                    if k < earlier.len() {
                        assert(earlier[k] == cell);
                        assert(earlier.contains(cell));
                    }
                }
                if cell < upto && before[cell as int] != after[cell as int] {
                    if cell == last {
                        assert(cells[earlier.len() as int] == cell);
                    } else {
                        assert(earlier.contains(cell));
                        let k = choose|k: int| 0 <= k < earlier.len() && earlier[k] == cell;
                        assert(cells[k] == cell);
                    }
                }
            }
        }
    }
}

/// Setting a pixel with `on` unset changes nothing and reports no collision.
pub proof fn law_set_pixel_off(cells: Seq<bool>, x: int, y: int)
    requires
        cells.len() == 2048,
    ensures
        toggled(cells, x, y, false) == cells,
        !collides(cells, x, y, false),
{
    assert(0 <= cell_index(x, y) < 2048);
    assert(toggled(cells, x, y, false) =~= cells);
}

} // verus!
