//! The 64 x 32 monochrome frame buffer and XOR sprite drawing with
//! wraparound at the edges.

use vstd::prelude::*;

verus! {

/// Pixels per row.
pub const WIDTH: usize = 64;

/// Rows of pixels.
pub const HEIGHT: usize = 32;

/// Pixels in the whole display.
pub const DISPLAY_SIZE: usize = WIDTH * HEIGHT;

/// Intensity handed to a presentation sink for a pixel that is on.
pub const PX_ON: u32 = 0xFFFFFF;

/// Intensity handed to a presentation sink for a pixel that is off.
pub const PX_OFF: u32 = 0;

/// Whether column `col` (0 is the leftmost) of a sprite row is set.
pub open spec fn sprite_bit(row: u8, col: u8) -> bool {
    row & (0x80u8 >> col) != 0
}

/// Sprite column that lands on `cell` when a sprite is drawn with its left
/// edge at `x`, counting wraparound.
pub open spec fn sprite_col(x: int, cell: int) -> int {
    (cell % WIDTH as int - x) % WIDTH as int
}

/// Sprite row that lands on `cell` when a sprite is drawn with its top edge
/// at `y`, counting wraparound.
pub open spec fn sprite_row(y: int, cell: int) -> int {
    (cell / WIDTH as int - y) % HEIGHT as int
}

/// Whether drawing the sprite `rows` at `(x, y)` flips `cell`: some set bit
/// of the sprite lands on it.
pub open spec fn covers(rows: Seq<u8>, x: u8, y: u8, cell: int) -> bool {
    let c = sprite_col(x as int, cell);
    let r = sprite_row(y as int, cell);
    r < rows.len() && c < 8 && sprite_bit(rows[r], c as u8)
}

/// The display after drawing the sprite `rows` at `(x, y)`: every covered
/// pixel is flipped, all others keep their state.
pub open spec fn drawn(cells: Seq<bool>, rows: Seq<u8>, x: u8, y: u8) -> Seq<bool> {
    Seq::new(cells.len(), |i: int| cells[i] != covers(rows, x, y, i))
}

/// Whether drawing the sprite `rows` at `(x, y)` turns off a pixel that was on.
pub open spec fn collides(cells: Seq<bool>, rows: Seq<u8>, x: u8, y: u8) -> bool {
    exists|i: int| 0 <= i < cells.len() && covers(rows, x, y, i) && #[trigger] cells[i]
}

/// The intensity of one pixel state.
pub open spec fn intensity(on: bool) -> u32 {
    if on {
        PX_ON
    } else {
        PX_OFF
    }
}

/// Sprite pixels at `(r, c)` with `(r, c)` before `(dr, dc)` in row-major
/// order: the ones a drawing loop has handled so far.
spec fn handled(y: int, x: int, cell: int, dr: int, dc: int) -> bool {
    let r = sprite_row(y, cell);
    let c = sprite_col(x, cell);
    r < dr || (r == dr && c < dc)
}

/// Every cell is the one at its own sprite row and column.
proof fn lemma_cell_position(x: int, y: int, cell: int)
    requires
        0 <= cell < DISPLAY_SIZE,
    ensures
        cell == (x + sprite_col(x, cell)) % WIDTH as int + WIDTH as int * ((y + sprite_row(
            y,
            cell,
        )) % HEIGHT as int),
        0 <= sprite_col(x, cell) < WIDTH,
        0 <= sprite_row(y, cell) < HEIGHT,
{
    let a = cell % 64;
    let b = cell / 64;
    assert(cell == a + 64 * b) by (nonlinear_arith)
        requires
            a == cell % 64,
            b == cell / 64,
    ;
    assert(0 <= b < 32) by (nonlinear_arith)
        requires
            b == cell / 64,
            0 <= cell < 2048,
    ;
    vstd::arithmetic::div_mod::lemma_add_mod_noop(x, a - x, 64);
    vstd::arithmetic::div_mod::lemma_mod_twice(a - x, 64);
    vstd::arithmetic::div_mod::lemma_small_mod(a as nat, 64);
    assert((x + (a - x) % 64) % 64 == a) by {
        vstd::arithmetic::div_mod::lemma_add_mod_noop(x, (a - x) % 64, 64);
        vstd::arithmetic::div_mod::lemma_add_mod_noop(x, a - x, 64);
        vstd::arithmetic::div_mod::lemma_mod_twice(a - x, 64);
    }
    assert((y + (b - y) % 32) % 32 == b) by {
        vstd::arithmetic::div_mod::lemma_add_mod_noop(y, (b - y) % 32, 32);
        vstd::arithmetic::div_mod::lemma_add_mod_noop(y, b - y, 32);
        vstd::arithmetic::div_mod::lemma_mod_twice(b - y, 32);
        vstd::arithmetic::div_mod::lemma_small_mod(b as nat, 32);
    }
}

/// The cell at sprite row `r` and column `c` has that row and column.
proof fn lemma_position_cell(x: int, y: int, r: int, c: int)
    requires
        0 <= x,
        0 <= y,
        0 <= r < HEIGHT,
        0 <= c < WIDTH,
    ensures
        ({
            let cell = (x + c) % WIDTH as int + WIDTH as int * ((y + r) % HEIGHT as int);
            &&& 0 <= cell < DISPLAY_SIZE
            &&& sprite_col(x, cell) == c
            &&& sprite_row(y, cell) == r
        }),
{
    let a = (x + c) % 64;
    let b = (y + r) % 32;
    let cell = a + 64 * b;
    assert(0 <= a < 64 && 0 <= b < 32);
    assert(cell % 64 == a && cell / 64 == b) by {
        vstd::arithmetic::div_mod::lemma_fundamental_div_mod_converse(cell, 64, b, a);
    }
    assert((a - x) % 64 == c) by {
        vstd::arithmetic::div_mod::lemma_add_mod_noop(x + c, -x, 64);
        vstd::arithmetic::div_mod::lemma_mod_twice(x + c, 64);
        vstd::arithmetic::div_mod::lemma_add_mod_noop(a, -x, 64);
        vstd::arithmetic::div_mod::lemma_small_mod(c as nat, 64);
    }
    assert((b - y) % 32 == r) by {
        vstd::arithmetic::div_mod::lemma_add_mod_noop(y + r, -y, 32);
        vstd::arithmetic::div_mod::lemma_mod_twice(y + r, 32);
        vstd::arithmetic::div_mod::lemma_add_mod_noop(b, -y, 32);
        vstd::arithmetic::div_mod::lemma_small_mod(r as nat, 32);
    }
}

/// Drawing a sprite twice at the same place gives back the display as it
/// was. On a clear display the first drawing turns nothing off, and the
/// second turns a pixel off exactly when the sprite has a set bit.
pub proof fn lemma_draw_twice(cells: Seq<bool>, rows: Seq<u8>, x: u8, y: u8)
    requires
        cells.len() == DISPLAY_SIZE,
        rows.len() <= HEIGHT,
    ensures
        drawn(drawn(cells, rows, x, y), rows, x, y) == cells,
        (forall|i: int| 0 <= i < DISPLAY_SIZE ==> !cells[i]) ==> {
            &&& !collides(cells, rows, x, y)
            &&& collides(drawn(cells, rows, x, y), rows, x, y) == exists|r: int, c: u8|
                0 <= r < rows.len() && c < 8 && #[trigger] sprite_bit(rows[r], c)
        },
{
    assert(drawn(drawn(cells, rows, x, y), rows, x, y) =~= cells);
    if forall|i: int| 0 <= i < DISPLAY_SIZE ==> !cells[i] {
        let once = drawn(cells, rows, x, y);
        if exists|r: int, c: u8| 0 <= r < rows.len() && c < 8 && #[trigger] sprite_bit(rows[r], c) {
            let (r, c) = choose|r: int, c: u8|
                0 <= r < rows.len() && c < 8 && #[trigger] sprite_bit(rows[r], c);
            lemma_position_cell(x as int, y as int, r, c as int);
            let cell = (x + c) % WIDTH as int + WIDTH as int * ((y + r) % HEIGHT as int);
            assert(covers(rows, x, y, cell));
            assert(once[cell]);
        }
        if collides(once, rows, x, y) {
            let i = choose|i: int| 0 <= i < once.len() && covers(rows, x, y, i) && #[trigger] once[i];
            lemma_cell_position(x as int, y as int, i);
            let r = sprite_row(y as int, i);
            let c = sprite_col(x as int, i) as u8;
            assert(0 <= r < rows.len() && c < 8 && sprite_bit(rows[r], c));
        }
    }
}

/// The display: one on/off state per pixel, row-major.
pub struct Display {
    cells: [bool; DISPLAY_SIZE],
}

impl View for Display {
    type V = Seq<bool>;

    closed spec fn view(&self) -> Seq<bool> {
        self.cells@
    }
}

impl Display {
    /// The display always holds exactly `DISPLAY_SIZE` pixels.
    pub proof fn lemma_size(&self)
        ensures
            self@.len() == DISPLAY_SIZE,
    {
    }

    /// A display with every pixel off.
    pub fn new() -> (d: Display)
        ensures
            d@ == Seq::new(DISPLAY_SIZE as nat, |i: int| false),
    {
        let d = Display { cells: [false; DISPLAY_SIZE] };
        assert(d@ =~= Seq::new(DISPLAY_SIZE as nat, |i: int| false));
        d
    }

    /// Turns every pixel off.
    pub fn clear(&mut self)
        ensures
            final(self)@ == Seq::new(DISPLAY_SIZE as nat, |i: int| false),
    {
        for i in 0..DISPLAY_SIZE
            invariant
                self@.len() == DISPLAY_SIZE,
                forall|j: int| 0 <= j < i ==> !self@[j],
        {
            self.cells[i] = false;
        }
        assert(self@ =~= Seq::new(DISPLAY_SIZE as nat, |i: int| false));
    }

    /// Whether the pixel at `(x, y)` is on, both taken modulo the display size.
    pub fn is_on(&self, x: usize, y: usize) -> (r: bool)
        ensures
            r == self@[(x % WIDTH) + WIDTH * (y % HEIGHT)],
    {
        self.cells[(x % WIDTH) + WIDTH * (y % HEIGHT)]
    }

    /// Flips the pixel at `(x, y)`, both taken modulo the display size, and
    /// returns whether it was on before.
    pub fn toggle_pixel(&mut self, x: usize, y: usize) -> (was_on: bool)
        ensures
            ({
                let i = (x % WIDTH) + WIDTH * (y % HEIGHT);
                &&& was_on == old(self)@[i]
                &&& final(self)@ == old(self)@.update(i, !was_on)
            }),
    {
        let i = (x % WIDTH) + WIDTH * (y % HEIGHT);
        let was_on = self.cells[i];
        self.cells[i] = !was_on;
        was_on
    }

    /// XORs the sprite `rows` (eight pixels wide, one byte per row, leftmost
    /// pixel in the high bit) onto the display at `(x, y)`, wrapping at the
    /// edges. Returns whether a pixel that was on got turned off.
    pub fn draw_sprite(&mut self, rows: &[u8], x: u8, y: u8) -> (collision: bool)
        requires
            rows@.len() <= HEIGHT,
        ensures
            final(self)@ == drawn(old(self)@, rows@, x, y),
            collision == collides(old(self)@, rows@, x, y),
    {
        let ghost start = self@;
        let mut collision = false;
        let n = rows.len();
        for r in 0..n
            invariant
                n == rows@.len(),
                n <= HEIGHT,
                self@.len() == DISPLAY_SIZE,
                forall|i: int|
                    0 <= i < DISPLAY_SIZE ==> #[trigger] self@[i] == (start[i] != (covers(
                        rows@,
                        x,
                        y,
                        i,
                    ) && handled(y as int, x as int, i, r as int, 0))),
                collision == exists|i: int|
                    0 <= i < DISPLAY_SIZE && covers(rows@, x, y, i) && handled(
                        y as int,
                        x as int,
                        i,
                        r as int,
                        0,
                    ) && #[trigger] start[i],
        {
            let row = rows[r];
            for c in 0..8usize
                invariant
                    n == rows@.len(),
                    r < n <= HEIGHT,
                    row == rows@[r as int],
                    self@.len() == DISPLAY_SIZE,
                    forall|i: int|
                        0 <= i < DISPLAY_SIZE ==> #[trigger] self@[i] == (start[i] != (covers(
                            rows@,
                            x,
                            y,
                            i,
                        ) && handled(y as int, x as int, i, r as int, c as int))),
                    collision == exists|i: int|
                        0 <= i < DISPLAY_SIZE && covers(rows@, x, y, i) && handled(
                            y as int,
                            x as int,
                            i,
                            r as int,
                            c as int,
                        ) && #[trigger] start[i],
            {
                let ghost before = self@;
                let ghost hit_before = collision;
                let px = (x as usize + c) % WIDTH;
                let py = (y as usize + r) % HEIGHT;
                let idx = px + WIDTH * py;
                proof {
                    lemma_position_cell(x as int, y as int, r as int, c as int);
                    assert forall|i: int| 0 <= i < DISPLAY_SIZE && i != idx implies
                        (handled(y as int, x as int, i, r as int, c as int + 1) == handled(
                            y as int,
                            x as int,
                            i,
                            r as int,
                            c as int,
                        )) by {
                        lemma_cell_position(x as int, y as int, i);
                    }
                }
                if row & (0x80u8 >> c as u8) != 0 {
                    let was_on = self.cells[idx];
                    if was_on {
                        collision = true;
                    }
                    self.cells[idx] = !was_on;
                }
                proof {
                    assert(covers(rows@, x, y, idx as int) == sprite_bit(row, c as u8));
                    assert forall|i: int| 0 <= i < DISPLAY_SIZE implies #[trigger] self@[i] == (
                    start[i] != (covers(rows@, x, y, i) && handled(
                        y as int,
                        x as int,
                        i,
                        r as int,
                        c as int + 1,
                    ))) by {
                        if i != idx {
                            assert(before[i] == self@[i]);
                        }
                    }
                    if collision && !hit_before {
                        assert(covers(rows@, x, y, idx as int) && start[idx as int]);
                    }
                    if hit_before {
                        let i = choose|i: int|
                            0 <= i < DISPLAY_SIZE && covers(rows@, x, y, i) && handled(
                                y as int,
                                x as int,
                                i,
                                r as int,
                                c as int,
                            ) && #[trigger] start[i];
                        assert(i != idx);
                    }
                }
            }
            proof {
                assert forall|i: int| 0 <= i < DISPLAY_SIZE implies (covers(rows@, x, y, i)
                    && handled(y as int, x as int, i, r as int, 8)) == (covers(rows@, x, y, i)
                    && handled(y as int, x as int, i, r as int + 1, 0)) by {
                    lemma_cell_position(x as int, y as int, i);
                }
            }
        }
        proof {
            assert forall|i: int| 0 <= i < DISPLAY_SIZE && covers(rows@, x, y, i) implies handled(
                y as int,
                x as int,
                i,
                n as int,
                0,
            ) by {}
            assert(self@ =~= drawn(start, rows@, x, y));
        }
        collision
    }

    /// The frame handed to a presentation sink: one intensity per pixel.
    pub fn frame(&self) -> (f: [u32; DISPLAY_SIZE])
        ensures
            f@ == Seq::new(DISPLAY_SIZE as nat, |i: int| intensity(self@[i])),
    {
        let mut f = [PX_OFF; DISPLAY_SIZE];
        for i in 0..DISPLAY_SIZE
            invariant
                f@.len() == DISPLAY_SIZE,
                self@.len() == DISPLAY_SIZE,
                forall|j: int| 0 <= j < i ==> f@[j] == intensity(self@[j]),
                forall|j: int| i <= j < DISPLAY_SIZE ==> f@[j] == PX_OFF,
        {
            if self.cells[i] {
                f[i] = PX_ON;
            }
        }
        assert(f@ =~= Seq::new(DISPLAY_SIZE as nat, |i: int| intensity(self@[i])));
        f
    }
}

} // verus!
