//! The fixed-size playing field: a `BOARD_SIZE` x `BOARD_SIZE` grid holding
//! one display character per cell.
//!
//! A blank cell is a space; the other characters mark the player, the
//! opponent, the live target, and a crash.  The board itself enforces
//! nothing about which character goes where: the engine clears a cell
//! before repurposing it.

use vstd::prelude::*;

use crate::util::{next_state, random_number, RandomSource};

verus! {

/// Side length of the square grid; coordinates run in `[0, BOARD_SIZE)`.
pub const BOARD_SIZE: usize = 8;

/// Cell character for a segment of the local player's snake.
pub const PLAYER_CHAR: char = '+';

/// Cell character for a segment of the opponent's snake.
pub const OPPONENT_CHAR: char = '-';

/// Cell character for the live target.
pub const TARGET_CHAR: char = 'o';

/// Cell character marking a crash site on the final frame.
pub const CRASH_CHAR: char = 'x';

/// A well-shaped grid: `BOARD_SIZE` rows of `BOARD_SIZE` cells each.
pub open spec fn grid_wf(b: Seq<Seq<char>>) -> bool {
    &&& b.len() == BOARD_SIZE
    &&& forall|i: int| 0 <= i < b.len() ==> (#[trigger] b[i]).len() == BOARD_SIZE
}

/// Both coordinates of `p` lie on the grid.
pub open spec fn on_grid(p: (usize, usize)) -> bool {
    p.0 < BOARD_SIZE && p.1 < BOARD_SIZE
}

/// The character stored at `p`.
pub open spec fn cell(b: Seq<Seq<char>>, p: (usize, usize)) -> char {
    b[p.0 as int][p.1 as int]
}

/// The grid with the cell at `p` replaced by `c`.
pub open spec fn write_cell(b: Seq<Seq<char>>, p: (usize, usize), c: char) -> Seq<Seq<char>> {
    b.update(p.0 as int, b[p.0 as int].update(p.1 as int, c))
}

/// The all-blank grid.
pub open spec fn blank_grid() -> Seq<Seq<char>> {
    Seq::new(BOARD_SIZE as nat, |i: int| Seq::new(BOARD_SIZE as nat, |j: int| ' '))
}

/// The grid after writing `ch` into each of `cells`, in order.
pub open spec fn cells_marked(b: Seq<Seq<char>>, cells: Seq<(usize, usize)>, ch: char) -> Seq<
    Seq<char>,
>
    decreases cells.len(),
{
    if cells.len() == 0 {
        b
    } else {
        write_cell(cells_marked(b, cells.drop_last(), ch), cells.last(), ch)
    }
}

/// No blank cell and no target cell remains.  A target still counts as
/// room: the board is not full while one is on it.
pub open spec fn grid_full(b: Seq<Seq<char>>) -> bool {
    forall|i: int, j: int|
        0 <= i < BOARD_SIZE && 0 <= j < BOARD_SIZE ==> (#[trigger] b[i][j]) != ' ' && b[i][j] != TARGET_CHAR
}

/// The blank cells of `row` (row index `i`) among its first `n` columns,
/// in column order.
pub open spec fn blank_cells_in_row(row: Seq<char>, i: usize, n: int) -> Seq<(usize, usize)>
    decreases n,
{
    if n <= 0 {
        Seq::empty()
    } else if row[n - 1] == ' ' {
        blank_cells_in_row(row, i, n - 1) + seq![(i, (n - 1) as usize)]
    } else {
        blank_cells_in_row(row, i, n - 1)
    }
}

/// The blank cells of the first `n` rows of `b`, in row-major order.
pub open spec fn blank_cells_upto(b: Seq<Seq<char>>, n: int) -> Seq<(usize, usize)>
    decreases n,
{
    if n <= 0 {
        Seq::empty()
    } else {
        blank_cells_upto(b, n - 1) + blank_cells_in_row(b[n - 1], (n - 1) as usize, BOARD_SIZE as int)
    }
}

/// All blank cells of the grid, in row-major order.
pub open spec fn blank_cells(b: Seq<Seq<char>>) -> Seq<(usize, usize)> {
    blank_cells_upto(b, BOARD_SIZE as int)
}

/// The cell a uniform draw `rand` picks among the blank cells of `b`, if
/// any blank cell exists.
pub open spec fn picked_blank_cell(b: Seq<Seq<char>>, rand: u64) -> Option<(usize, usize)> {
    if blank_cells(b).len() == 0 {
        None
    } else {
        Some(blank_cells(b)[rand as int % blank_cells(b).len() as int])
    }
}

/// Every entry of `blank_cells_in_row` lies in row `i`, on the grid, and
/// names a blank cell; and every blank cell of the row is an entry.
proof fn lemma_blank_cells_in_row(row: Seq<char>, i: usize, n: int)
    requires
        i < BOARD_SIZE,
        0 <= n <= BOARD_SIZE,
        row.len() == BOARD_SIZE,
    ensures
        forall|k: int|
            0 <= k < blank_cells_in_row(row, i, n).len()
                ==> (#[trigger] blank_cells_in_row(row, i, n)[k]).0 == i
                    && blank_cells_in_row(row, i, n)[k].1 < n
                    && row[blank_cells_in_row(row, i, n)[k].1 as int] == ' ',
        forall|j: int| 0 <= j < n && row[j] == ' '
            ==> exists|k: int|
                0 <= k < blank_cells_in_row(row, i, n).len()
                    && (#[trigger] blank_cells_in_row(row, i, n)[k]) == (i, j as usize),
    decreases n,
{
    if n > 0 {
        lemma_blank_cells_in_row(row, i, n - 1);
        let prev = blank_cells_in_row(row, i, n - 1);
        let cur = blank_cells_in_row(row, i, n);
        assert forall|j: int| 0 <= j < n && row[j] == ' '
            implies exists|k: int| 0 <= k < cur.len() && (#[trigger] cur[k]) == (i, j as usize) by {
            if j < n - 1 {
                let k = choose|k: int| 0 <= k < prev.len() && (#[trigger] prev[k]) == (i, j as usize);
                assert(cur[k] == (i, j as usize));
            } else {
                assert(cur[cur.len() - 1] == (i, j as usize));
            }
        }
    }
}

/// Every entry of `blank_cells_upto` is an on-grid blank cell, and every
/// blank cell among the first `n` rows is an entry.
proof fn lemma_blank_cells_upto(b: Seq<Seq<char>>, n: int)
    requires
        grid_wf(b),
        0 <= n <= BOARD_SIZE,
    ensures
        forall|k: int|
            0 <= k < blank_cells_upto(b, n).len()
                ==> on_grid(#[trigger] blank_cells_upto(b, n)[k])
                    && blank_cells_upto(b, n)[k].0 < n
                    && cell(b, blank_cells_upto(b, n)[k]) == ' ',
        forall|i: int, j: int|
            0 <= i < n && 0 <= j < BOARD_SIZE && b[i][j] == ' '
                ==> exists|k: int|
                    0 <= k < blank_cells_upto(b, n).len()
                        && (#[trigger] blank_cells_upto(b, n)[k]) == (i as usize, j as usize),
    decreases n,
{
    if n > 0 {
        lemma_blank_cells_upto(b, n - 1);
        lemma_blank_cells_in_row(b[n - 1], (n - 1) as usize, BOARD_SIZE as int);
        let prev = blank_cells_upto(b, n - 1);
        let rowpart = blank_cells_in_row(b[n - 1], (n - 1) as usize, BOARD_SIZE as int);
        let cur = blank_cells_upto(b, n);
        assert forall|i: int, j: int|
            0 <= i < n && 0 <= j < BOARD_SIZE && b[i][j] == ' '
            implies exists|k: int|
                0 <= k < cur.len() && (#[trigger] cur[k]) == (i as usize, j as usize) by {
            if i < n - 1 {
                let k = choose|k: int|
                    0 <= k < prev.len() && (#[trigger] prev[k]) == (i as usize, j as usize);
                assert(cur[k] == (i as usize, j as usize));
            } else {
                let k = choose|k: int|
                    0 <= k < rowpart.len() && (#[trigger] rowpart[k]) == ((n - 1) as usize, j as usize);
                assert(cur[prev.len() + k] == (i as usize, j as usize));
            }
        }
    }
}

/// What `blank_cells` promises: each entry is an on-grid blank cell, and
/// each blank cell is an entry.  In particular the list is empty exactly
/// when no blank cell exists.
pub proof fn lemma_blank_cells(b: Seq<Seq<char>>)
    requires
        grid_wf(b),
    ensures
        forall|k: int|
            0 <= k < blank_cells(b).len()
                ==> on_grid(#[trigger] blank_cells(b)[k]) && cell(b, blank_cells(b)[k]) == ' ',
        forall|i: int, j: int|
            0 <= i < BOARD_SIZE && 0 <= j < BOARD_SIZE && b[i][j] == ' '
                ==> exists|k: int|
                    0 <= k < blank_cells(b).len()
                        && (#[trigger] blank_cells(b)[k]) == (i as usize, j as usize),
{
    lemma_blank_cells_upto(b, BOARD_SIZE as int);
    assert(blank_cells(b) == blank_cells_upto(b, BOARD_SIZE as int));
    assert forall|i: int, j: int|
        0 <= i < BOARD_SIZE && 0 <= j < BOARD_SIZE && b[i][j] == ' '
        implies exists|k: int|
            0 <= k < blank_cells(b).len()
                && (#[trigger] blank_cells(b)[k]) == (i as usize, j as usize) by {
        let up = blank_cells_upto(b, BOARD_SIZE as int);
        let k = choose|k: int| 0 <= k < up.len() && (#[trigger] up[k]) == (i as usize, j as usize);
        assert(blank_cells(b)[k] == (i as usize, j as usize));
    }
}

/// The inner part of a horizontal border: `n` repetitions of `" + "`.
pub open spec fn border_cells(n: int) -> Seq<char>
    decreases n,
{
    if n <= 0 {
        Seq::empty()
    } else {
        border_cells(n - 1) + seq![' ', '+', ' ']
    }
}

/// A full horizontal border line, newline included.
pub open spec fn border_line() -> Seq<char> {
    seq!['+'] + border_cells(BOARD_SIZE as int) + seq!['+', '\n']
}

/// The first `n` cells of `row`, each padded to `" c "`.
pub open spec fn drawn_cells(row: Seq<char>, n: int) -> Seq<char>
    decreases n,
{
    if n <= 0 {
        Seq::empty()
    } else {
        drawn_cells(row, n - 1) + seq![' ', row[n - 1], ' ']
    }
}

/// One grid row as a text line, framed and newline-terminated.
pub open spec fn drawn_line(row: Seq<char>) -> Seq<char> {
    seq!['+'] + drawn_cells(row, BOARD_SIZE as int) + seq!['+', '\n']
}

/// The first `n` grid rows of `b` as text lines.
pub open spec fn drawn_lines(b: Seq<Seq<char>>, n: int) -> Seq<char>
    decreases n,
{
    if n <= 0 {
        Seq::empty()
    } else {
        drawn_lines(b, n - 1) + drawn_line(b[n - 1])
    }
}

/// The whole grid as text: a border, one line per row, a border.
pub open spec fn rendering(b: Seq<Seq<char>>) -> Seq<char> {
    border_line() + drawn_lines(b, BOARD_SIZE as int) + border_line()
}

/// Relies on `String::from_iter` (through `Iterator::collect`): the
/// string collected from a char iterator holds exactly those chars in
/// order.
#[verifier::external_body]
fn chars_to_string(cs: &Vec<char>) -> (r: String)
    ensures
        r@ == cs@,
{
    cs.iter().collect()
}

/// Writing one cell touches that cell alone and keeps the grid well-shaped.
pub proof fn lemma_write_cell(b: Seq<Seq<char>>, p: (usize, usize), c: char)
    requires
        grid_wf(b),
        on_grid(p),
    ensures
        grid_wf(write_cell(b, p, c)),
        cell(write_cell(b, p, c), p) == c,
        forall|q: (usize, usize)|
            on_grid(q) && q != p ==> #[trigger] cell(write_cell(b, p, c), q) == cell(b, q),
{
}

/// The playing field.
pub struct Board {
    pixels: Vec<Vec<char>>,
}

impl View for Board {
    type V = Seq<Seq<char>>;

    closed spec fn view(&self) -> Seq<Seq<char>> {
        Seq::new(self.pixels@.len(), |i: int| self.pixels@[i]@)
    }
}

impl Board {
    /// The board's shape invariant.
    pub open spec fn wf(&self) -> bool {
        grid_wf(self@)
    }

    /// A board of blank cells.
    pub fn new() -> (r: Board)
        ensures
            r.wf(),
            r@ == blank_grid(),
            forall|q: (usize, usize)| on_grid(q) ==> #[trigger] cell(r@, q) == ' ',
    {
        let mut pixels: Vec<Vec<char>> = Vec::new();
        let mut i: usize = 0;
        while i < BOARD_SIZE
            invariant
                i <= BOARD_SIZE,
                pixels@.len() == i,
                forall|k: int| 0 <= k < i ==> (#[trigger] pixels@[k])@.len() == BOARD_SIZE,
                forall|k: int, j: int|
                    0 <= k < i && 0 <= j < BOARD_SIZE ==> (#[trigger] pixels@[k]@[j]) == ' ',
            decreases BOARD_SIZE - i,
        {
            let mut row: Vec<char> = Vec::new();
            let mut j: usize = 0;
            while j < BOARD_SIZE
                invariant
                    j <= BOARD_SIZE,
                    row@.len() == j,
                    forall|t: int| 0 <= t < j ==> (#[trigger] row@[t]) == ' ',
                decreases BOARD_SIZE - j,
            {
                row.push(' ');
                j += 1;
            }
            pixels.push(row);
            i += 1;
        }
        let board = Board { pixels };
        assert forall|q: (usize, usize)| on_grid(q) implies #[trigger] cell(board@, q) == ' ' by {
            assert(board@[q.0 as int] == pixels@[q.0 as int]@);
        }
        proof {
            assert(board@ =~~= blank_grid());
        }
        board
    }

    /// Write `value` into the cell at `pos`.
    pub fn mark(&mut self, pos: (usize, usize), value: char)
        requires
            old(self).wf(),
            on_grid(pos),
        ensures
            final(self)@ == write_cell(old(self)@, pos, value),
            final(self).wf(),
    {
        proof {
            assert(self.pixels@.len() == self@.len());
            assert(self.pixels@[pos.0 as int]@ == self@[pos.0 as int]);
        }
        let row: &mut Vec<char> = &mut self.pixels[pos.0];
        row.set(pos.1, value);
        proof {
            assert(self@ =~~= write_cell(old(self)@, pos, value));
            lemma_write_cell(old(self)@, pos, value);
        }
    }

    /// Blank the cell at `pos`.
    pub fn unmark(&mut self, pos: (usize, usize))
        requires
            old(self).wf(),
            on_grid(pos),
        ensures
            final(self)@ == write_cell(old(self)@, pos, ' '),
            final(self).wf(),
    {
        self.mark(pos, ' ');
    }

    /// Read the cell at `pos`.
    pub fn value(&self, pos: (usize, usize)) -> (r: char)
        requires
            self.wf(),
            on_grid(pos),
        ensures
            r == cell(self@, pos),
    {
        proof {
            assert(self.pixels@.len() == self@.len());
            assert(self.pixels@[pos.0 as int]@ == self@[pos.0 as int]);
        }
        self.pixels[pos.0][pos.1]
    }

    /// A uniformly drawn blank cell, or `None` when no cell is blank.
    /// When a cell is drawn, one value is consumed from the random source
    /// and the choice is a pure function of the grid and the draw; when no
    /// cell is blank the source is left untouched.
    pub fn random_position(&self, rng: &mut RandomSource) -> (r: Option<(usize, usize)>)
        requires
            self.wf(),
        ensures
            blank_cells(self@).len() == 0 ==> r is None && final(rng).state() == old(rng).state(),
            blank_cells(self@).len() > 0 ==> final(rng).state() == next_state(old(rng).state())
                && r == picked_blank_cell(self@, next_state(old(rng).state())),
            match r {
                Some(p) => on_grid(p) && cell(self@, p) == ' ',
                None => blank_cells(self@).len() == 0,
            },
    {
        let ghost b = self@;
        let mut available: Vec<(usize, usize)> = Vec::new();
        let mut i: usize = 0;
        while i < BOARD_SIZE
            invariant
                self.wf(),
                b == self@,
                i <= BOARD_SIZE,
                available@ == blank_cells_upto(b, i as int),
            decreases BOARD_SIZE - i,
        {
            let mut j: usize = 0;
            while j < BOARD_SIZE
                invariant
                    self.wf(),
                    b == self@,
                    i < BOARD_SIZE,
                    j <= BOARD_SIZE,
                    available@ == blank_cells_upto(b, i as int)
                        + blank_cells_in_row(b[i as int], i, j as int),
                decreases BOARD_SIZE - j,
            {
                proof {
                    assert(self.pixels@.len() == self@.len());
                    assert(self.pixels@[i as int]@ == self@[i as int]);
                }
                if self.pixels[i][j] == ' ' {
                    available.push((i, j));
                }
                proof {
                    assert(available@ =~= blank_cells_upto(b, i as int)
                        + blank_cells_in_row(b[i as int], i, j as int + 1));
                }
                j += 1;
            }
            proof {
                assert(available@ =~= blank_cells_upto(b, i as int + 1));
            }
            i += 1;
        }
        proof {
            lemma_blank_cells(b);
        }
        if available.len() == 0 {
            None
        } else {
            let rand = random_number(rng);
            let idx = (rand % (available.len() as u64)) as usize;
            Some(available[idx])
        }
    }

    /// Whether no blank and no target cell remains anywhere on the grid.
    pub fn is_full(&self) -> (r: bool)
        requires
            self.wf(),
        ensures
            r == grid_full(self@),
    {
        let mut i: usize = 0;
        while i < BOARD_SIZE
            invariant
                self.wf(),
                i <= BOARD_SIZE,
                forall|a: int, b: int|
                    0 <= a < i && 0 <= b < BOARD_SIZE
                        ==> (#[trigger] self@[a][b]) != ' ' && self@[a][b] != TARGET_CHAR,
            decreases BOARD_SIZE - i,
        {
            let mut j: usize = 0;
            while j < BOARD_SIZE
                invariant
                    self.wf(),
                    i < BOARD_SIZE,
                    j <= BOARD_SIZE,
                    forall|b: int|
                        0 <= b < j ==> (#[trigger] self@[i as int][b]) != ' '
                            && self@[i as int][b] != TARGET_CHAR,
                decreases BOARD_SIZE - j,
            {
                proof {
                    assert(self.pixels@.len() == self@.len());
                    assert(self.pixels@[i as int]@ == self@[i as int]);
                }
                let pixel = self.pixels[i][j];
                assert(pixel == self@[i as int][j as int]);
                if pixel == ' ' || pixel == TARGET_CHAR {
                    return false;
                }
                j += 1;
            }
            i += 1;
        }
        true
    }

    /// The grid as a multi-line text picture: a horizontal border, one
    /// framed line per row, and a closing border.
    pub fn draw(&self) -> (r: String)
        requires
            self.wf(),
        ensures
            r@ == rendering(self@),
    {
        let ghost b = self@;
        let mut cs: Vec<char> = Vec::new();
        cs.push('+');
        let mut k: usize = 0;
        while k < BOARD_SIZE
            invariant
                k <= BOARD_SIZE,
                cs@ == seq!['+'] + border_cells(k as int),
            decreases BOARD_SIZE - k,
        {
            cs.push(' ');
            cs.push('+');
            cs.push(' ');
            proof {
                assert(cs@ =~= seq!['+'] + border_cells(k as int + 1));
            }
            k += 1;
        }
        cs.push('+');
        cs.push('\n');
        proof {
            assert(cs@ =~= border_line());
        }
        let mut i: usize = 0;
        while i < BOARD_SIZE
            invariant
                self.wf(),
                b == self@,
                i <= BOARD_SIZE,
                cs@ == border_line() + drawn_lines(b, i as int),
            decreases BOARD_SIZE - i,
        {
            cs.push('+');
            let mut j: usize = 0;
            while j < BOARD_SIZE
                invariant
                    self.wf(),
                    b == self@,
                    i < BOARD_SIZE,
                    j <= BOARD_SIZE,
                    cs@ == border_line() + drawn_lines(b, i as int) + seq!['+']
                        + drawn_cells(b[i as int], j as int),
                decreases BOARD_SIZE - j,
            {
                proof {
                    assert(self.pixels@.len() == self@.len());
                    assert(self.pixels@[i as int]@ == self@[i as int]);
                }
                let pixel = self.pixels[i][j];
                cs.push(' ');
                cs.push(pixel);
                cs.push(' ');
                proof {
                    assert(cs@ =~= border_line() + drawn_lines(b, i as int) + seq!['+']
                        + drawn_cells(b[i as int], j as int + 1));
                }
                j += 1;
            }
            cs.push('+');
            cs.push('\n');
            proof {
                assert(cs@ =~= border_line() + drawn_lines(b, i as int + 1));
            }
            i += 1;
        }
        cs.push('+');
        let mut t: usize = 0;
        while t < BOARD_SIZE
            invariant
                t <= BOARD_SIZE,
                cs@ == border_line() + drawn_lines(b, BOARD_SIZE as int) + seq!['+']
                    + border_cells(t as int),
            decreases BOARD_SIZE - t,
        {
            cs.push(' ');
            cs.push('+');
            cs.push(' ');
            proof {
                assert(cs@ =~= border_line() + drawn_lines(b, BOARD_SIZE as int) + seq!['+']
                    + border_cells(t as int + 1));
            }
            t += 1;
        }
        cs.push('+');
        cs.push('\n');
        proof {
            assert(cs@ =~= rendering(b));
        }
        chars_to_string(&cs)
    }
}

} // verus!
