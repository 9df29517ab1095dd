use vstd::prelude::*;

verus! {

/// Default board width, in cells.
pub const BOARD_WIDTH: usize = 128;

/// Default board height, in cells.
pub const BOARD_HEIGHT: usize = 72;

/// Index one step up, pinned to the last valid index `n - 1`.
pub open spec fn up(k: int, n: int) -> int {
    if k + 1 <= n - 1 { k + 1 } else { n - 1 }
}

/// Index one step down, pinned to 0.
pub open spec fn down(k: int) -> int {
    if k <= 0 { 0 } else { k - 1 }
}

/// State of cell `(i, j)` of grid `g` as a number.
pub open spec fn at(g: Seq<Seq<u8>>, i: int, j: int) -> int {
    g[i][j] as int
}

/// The neighbour count with clamped addressing: each of the eight offsets is
/// pinned into the grid, so cells on the edge may count a cell twice or count
/// a cell of their own row or column.
pub open spec fn clamped_count(g: Seq<Seq<u8>>, w: int, h: int, i: int, j: int) -> int {
    at(g, i, up(j, h)) + at(g, up(i, w), up(j, h)) + at(g, up(i, w), j) + at(g, up(i, w), down(j))
        + at(g, i, down(j)) + at(g, down(i), j) + at(g, down(i), down(j)) + at(g, down(i), up(j, h))
}

/// The live cells among the eight true geometric neighbours of `(i, j)`.
pub open spec fn geometric_count(g: Seq<Seq<u8>>, i: int, j: int) -> int {
    at(g, i - 1, j - 1) + at(g, i - 1, j) + at(g, i - 1, j + 1) + at(g, i, j - 1) + at(g, i, j + 1)
        + at(g, i + 1, j - 1) + at(g, i + 1, j) + at(g, i + 1, j + 1)
}

/// The state a cell with state `c` and `n` live neighbours has one generation later.
pub open spec fn next_state(c: u8, n: int) -> u8 {
    if n == 3 { 1 } else if n == 2 { c } else { 0 }
}

/// Cell `(i, j)` of the generation that follows `g`.
pub open spec fn next_cell(g: Seq<Seq<u8>>, w: int, h: int, i: int, j: int) -> u8 {
    next_state(g[i][j], clamped_count(g, w, h, i, j))
}

/// The generation that follows the `w` by `h` grid `g`.
pub open spec fn next_grid(g: Seq<Seq<u8>>, w: int, h: int) -> Seq<Seq<u8>> {
    Seq::new(w as nat, |i: int| Seq::new(h as nat, |j: int| next_cell(g, w, h, i, j)))
}

/// `g` is a `w` by `h` grid of cells that are 0 or 1.
pub open spec fn is_grid(g: Seq<Seq<u8>>, w: int, h: int) -> bool {
    &&& g.len() == w
    &&& forall|i: int| 0 <= i < w ==> #[trigger] g[i].len() == h
    &&& forall|i: int, j: int| 0 <= i < w && 0 <= j < h ==> #[trigger] g[i][j] <= 1
}

/// Every cell of the `w` by `h` grid `g` is dead.
pub open spec fn all_dead(g: Seq<Seq<u8>>, w: int, h: int) -> bool {
    forall|i: int, j: int| 0 <= i < w && 0 <= j < h ==> #[trigger] g[i][j] == 0
}

/// `g` with cell `(i, j)` flipped between dead and alive.
pub open spec fn toggled(g: Seq<Seq<u8>>, i: int, j: int) -> Seq<Seq<u8>> {
    g.update(i, g[i].update(j, (1 - g[i][j]) as u8))
}

/// `k` pinned into `0 .. n`.
pub open spec fn pin(k: int, n: int) -> int {
    if k < n { k } else { n - 1 }
}

/// `k + 1`, but no more than `n - 1`.
pub fn clamp_up(k: usize, n: usize) -> (r: usize)
    requires
        k < n,
    ensures
        r == up(k as int, n as int),
{
    if k + 1 <= n - 1 { k + 1 } else { n - 1 }
}

/// `k`, but no more than `n - 1`.
pub fn pin_index(k: usize, n: usize) -> (r: usize)
    requires
        n >= 1,
    ensures
        r == pin(k as int, n as int),
{
    if k < n { k } else { n - 1 }
}

/// `k - 1`, but no less than 0.
pub fn clamp_down(k: usize) -> (r: usize)
    ensures
        r == down(k as int),
{
    if k == 0 { 0 } else { k - 1 }
}

/// A fixed-size grid of cells, each dead (0) or alive (1), indexed `[column][row]`.
pub struct Board {
    cells: Vec<Vec<u8>>,
    width: usize,
    height: usize,
}

/// Relies on rand's `Rng::gen_ratio(1, 2)` on the thread-local generator: a
/// fair coin. Nothing is promised of the outcome.
#[verifier::external_body]
fn coin_flip() -> (r: bool) {
    rand::Rng::gen_ratio(&mut rand::thread_rng(), 1, 2)
}

/// A `width` by `height` grid of dead cells.
fn dead_cells(width: usize, height: usize) -> (r: Vec<Vec<u8>>)
    ensures
        r@.len() == width,
        forall|i: int| 0 <= i < width ==> (#[trigger] r@[i])@.len() == height,
        forall|i: int, j: int| 0 <= i < width && 0 <= j < height ==> #[trigger] r@[i]@[j] == 0,
{
    let mut cells: Vec<Vec<u8>> = Vec::new();
    let mut i: usize = 0;
    while i < width
        invariant
            i <= width,
            cells@.len() == i,
            forall|k: int| 0 <= k < i ==> (#[trigger] cells@[k])@.len() == height,
            forall|k: int, j: int| 0 <= k < i && 0 <= j < height ==> #[trigger] cells@[k]@[j] == 0,
        decreases width - i,
    {
        let mut row: Vec<u8> = Vec::new();
        let mut j: usize = 0;
        while j < height
            invariant
                j <= height,
                row@.len() == j,
                forall|k: int| 0 <= k < j ==> #[trigger] row@[k] == 0,
            decreases height - j,
        {
            row.push(0);
            j = j + 1;
        }
        cells.push(row);
        i = i + 1;
    }
    cells
}

impl View for Board {
    type V = Seq<Seq<u8>>;

    closed spec fn view(&self) -> Seq<Seq<u8>> {
        self.cells@.map_values(|r: Vec<u8>| r@)
    }
}

impl Board {
    pub closed spec fn spec_width(&self) -> int {
        self.width as int
    }

    pub closed spec fn spec_height(&self) -> int {
        self.height as int
    }

    /// The board has at least one cell, its dimensions match its rows, and
    /// every cell is 0 or 1.
    pub open spec fn wf(&self) -> bool {
        &&& self.spec_width() >= 1
        &&& self.spec_height() >= 1
        &&& is_grid(self@, self.spec_width(), self.spec_height())
    }

    /// A board of `width` columns and `height` rows with every cell dead.
    pub fn new(width: usize, height: usize) -> (r: Board)
        requires
            width >= 1,
            height >= 1,
        ensures
            r.wf(),
            r.spec_width() == width,
            r.spec_height() == height,
            all_dead(r@, width as int, height as int),
    {
        let r = Board { cells: dead_cells(width, height), width, height };
        assert(r@.len() == width);
        r
    }

    /// Number of columns.
    pub fn width(&self) -> (r: usize)
        ensures
            r == self.spec_width(),
    {
        self.width
    }

    /// Number of rows.
    pub fn height(&self) -> (r: usize)
        ensures
            r == self.spec_height(),
    {
        self.height
    }

    /// State of cell `(i, j)`; coordinates past the edge are pinned to the last
    /// column or row.
    pub fn cell_at(&self, i: usize, j: usize) -> (r: u8)
        requires
            self.wf(),
        ensures
            r == self@[pin(i as int, self.spec_width())][pin(j as int, self.spec_height())],
            r <= 1,
    {
        let ci = pin_index(i, self.width);
        let cj = pin_index(j, self.height);
        assert(self.cells@[ci as int]@ == self@[ci as int]);
        self.cells[ci][cj]
    }

    /// Flips cell `(i, j)` between dead and alive; coordinates past the edge
    /// are pinned to the last column or row.
    pub fn toggle_cell(&mut self, i: usize, j: usize)
        requires
            old(self).wf(),
        ensures
            final(self).wf(),
            final(self).spec_width() == old(self).spec_width(),
            final(self).spec_height() == old(self).spec_height(),
            final(self)@ == toggled(
                old(self)@,
                pin(i as int, old(self).spec_width()),
                pin(j as int, old(self).spec_height()),
            ),
    {
        let ci = pin_index(i, self.width);
        let cj = pin_index(j, self.height);
        let ghost g = self@;
        assert(self.cells@[ci as int]@ == g[ci as int]);
        let mut row = self.cells[ci].clone();
        assert(row@ =~= g[ci as int]);
        let v: u8 = if row[cj] == 0 { 1 } else { 0 };
        row.set(cj, v);
        self.cells.set(ci, row);
        assert(self@ =~= toggled(g, ci as int, cj as int));
    }

    /// Makes every cell dead.
    pub fn clear(&mut self)
        requires
            old(self).wf(),
        ensures
            final(self).wf(),
            final(self).spec_width() == old(self).spec_width(),
            final(self).spec_height() == old(self).spec_height(),
            all_dead(final(self)@, final(self).spec_width(), final(self).spec_height()),
    {
        self.cells = dead_cells(self.width, self.height);
    }

    /// The number of live cells around `(i, j)`, with clamped addressing at
    /// the edges; coordinates past the edge are pinned to the last column or row.
    pub fn neighbor_count(&self, i: usize, j: usize) -> (r: u8)
        requires
            self.wf(),
        ensures
            r as int == clamped_count(
                self@,
                self.spec_width(),
                self.spec_height(),
                pin(i as int, self.spec_width()),
                pin(j as int, self.spec_height()),
            ),
            r <= 8,
    {
        self.count_in_range(pin_index(i, self.width), pin_index(j, self.height))
    }

    fn count_in_range(&self, i: usize, j: usize) -> (r: u8)
        requires
            self.wf(),
            i < self.spec_width(),
            j < self.spec_height(),
        ensures
            r as int == clamped_count(self@, self.spec_width(), self.spec_height(), i as int, j as int),
            r <= 8,
    {
        let w = self.width;
        let h = self.height;
        let iu = clamp_up(i, w);
        let id = clamp_down(i);
        let ju = clamp_up(j, h);
        let jd = clamp_down(j);
        assert(self.cells@[i as int]@ == self@[i as int]);
        assert(self.cells@[iu as int]@ == self@[iu as int]);
        assert(self.cells@[id as int]@ == self@[id as int]);
        self.cells[i][ju] + self.cells[iu][ju] + self.cells[iu][j] + self.cells[iu][jd]
            + self.cells[i][jd] + self.cells[id][j] + self.cells[id][jd] + self.cells[id][ju]
    }

    /// Replaces the board with the next generation. Every cell is computed from
    /// the board as it was before the call: a cell with exactly three live
    /// neighbours is alive, one with exactly two keeps its state, and every
    /// other cell is dead.
    pub fn advance(&mut self)
        requires
            old(self).wf(),
        ensures
            final(self).wf(),
            final(self).spec_width() == old(self).spec_width(),
            final(self).spec_height() == old(self).spec_height(),
            final(self)@ == next_grid(old(self)@, old(self).spec_width(), old(self).spec_height()),
            forall|i: int, j: int|
                0 <= i < old(self).spec_width() && 0 <= j < old(self).spec_height()
                    ==> #[trigger] final(self)@[i][j] == next_cell(
                    old(self)@,
                    old(self).spec_width(),
                    old(self).spec_height(),
                    i,
                    j,
                ),
    {
        let w = self.width;
        let h = self.height;
        let ghost g = self@;
        let mut next: Vec<Vec<u8>> = Vec::new();
        let mut i: usize = 0;
        while i < w
            invariant
                self.wf(),
                self@ == g,
                w == self.width,
                h == self.height,
                i <= w,
                next@.len() == i,
                forall|k: int| 0 <= k < i ==> (#[trigger] next@[k])@.len() == h,
                forall|k: int, j: int|
                    0 <= k < i && 0 <= j < h ==> #[trigger] next@[k]@[j] == next_cell(
                        g,
                        w as int,
                        h as int,
                        k,
                        j,
                    ),
            decreases w - i,
        {
            let mut row: Vec<u8> = Vec::new();
            let mut j: usize = 0;
            assert(self.cells@[i as int]@ == g[i as int]);
            while j < h
                invariant
                    self.wf(),
                    self@ == g,
                    w == self.width,
                    h == self.height,
                    i < w,
                    j <= h,
                    row@.len() == j,
                    forall|k: int| 0 <= k < j ==> #[trigger] row@[k] == next_cell(g, w as int, h as int, i as int, k),
                decreases h - j,
            {
                let n = self.count_in_range(i, j);
                let c: u8 = if n == 3 {
                    1
                } else if n == 2 {
                    self.cells[i][j]
                } else {
                    0
                };
                row.push(c);
                j = j + 1;
            }
            next.push(row);
            i = i + 1;
        }
        self.cells = next;
        assert forall|k: int, j: int| 0 <= k < w && 0 <= j < h implies #[trigger] self@[k][j] <= 1 by {
            assert(self@[k][j] == next_cell(g, w as int, h as int, k, j));
        }
        assert(self@ =~~= next_grid(g, w as int, h as int));
    }

    /// Sets each cell from `bits`: alive where it holds `true`, dead elsewhere.
    pub fn fill_with(&mut self, bits: &Vec<Vec<bool>>)
        requires
            old(self).wf(),
            bits@.len() == old(self).spec_width(),
            forall|i: int| 0 <= i < old(self).spec_width() ==> (#[trigger] bits@[i])@.len() == old(self).spec_height(),
        ensures
            final(self).wf(),
            final(self).spec_width() == old(self).spec_width(),
            final(self).spec_height() == old(self).spec_height(),
            forall|i: int, j: int|
                0 <= i < old(self).spec_width() && 0 <= j < old(self).spec_height()
                    ==> #[trigger] final(self)@[i][j] == (if bits@[i]@[j] { 1u8 } else { 0u8 }),
    {
        let w = self.width;
        let h = self.height;
        let mut next: Vec<Vec<u8>> = Vec::new();
        let mut i: usize = 0;
        while i < w
            invariant
                w == self.width,
                h == self.height,
                bits@.len() == w,
                forall|k: int| 0 <= k < w ==> (#[trigger] bits@[k])@.len() == h,
                i <= w,
                next@.len() == i,
                forall|k: int| 0 <= k < i ==> (#[trigger] next@[k])@.len() == h,
                forall|k: int, j: int|
                    0 <= k < i && 0 <= j < h ==> #[trigger] next@[k]@[j] == (if bits@[k]@[j] { 1u8 } else { 0u8 }),
            decreases w - i,
        {
            let mut row: Vec<u8> = Vec::new();
            let mut j: usize = 0;
            while j < h
                invariant
                    bits@.len() == w,
                    forall|k: int| 0 <= k < w ==> (#[trigger] bits@[k])@.len() == h,
                    i < w,
                    j <= h,
                    row@.len() == j,
                    forall|k: int| 0 <= k < j ==> #[trigger] row@[k] == (if bits@[i as int]@[k] { 1u8 } else { 0u8 }),
                decreases h - j,
            {
                let c: u8 = if bits[i][j] { 1 } else { 0 };
                row.push(c);
                j = j + 1;
            }
            next.push(row);
            i = i + 1;
        }
        self.cells = next;
    }

    /// Sets every cell independently to alive or dead with even odds. The
    /// outcome is random: only the board's shape and well-formedness are kept.
    pub fn randomize(&mut self)
        requires
            old(self).wf(),
        ensures
            final(self).wf(),
            final(self).spec_width() == old(self).spec_width(),
            final(self).spec_height() == old(self).spec_height(),
    {
        let w = self.width;
        let h = self.height;
        let mut bits: Vec<Vec<bool>> = Vec::new();
        let mut i: usize = 0;
        while i < w
            invariant
                i <= w,
                bits@.len() == i,
                forall|k: int| 0 <= k < i ==> (#[trigger] bits@[k])@.len() == h,
            decreases w - i,
        {
            let mut row: Vec<bool> = Vec::new();
            let mut j: usize = 0;
            while j < h
                invariant
                    j <= h,
                    row@.len() == j,
                decreases h - j,
            {
                row.push(coin_flip());
                j = j + 1;
            }
            bits.push(row);
            i = i + 1;
        }
        self.fill_with(&bits);
    }
}


/// Away from the edges the clamped neighbour count is the plain count of live
/// cells among the eight surrounding cells.
pub proof fn interior_count_is_geometric(b: Board, i: int, j: int)
    requires
        b.wf(),
        0 < i < b.spec_width() - 1,
        0 < j < b.spec_height() - 1,
    ensures
        clamped_count(b@, b.spec_width(), b.spec_height(), i, j) == geometric_count(b@, i, j),
{
}

/// One generation follows the rule of life: a live cell with two or three live
/// neighbours survives, a live cell with fewer or more dies, a dead cell with
/// exactly three becomes alive, and every other dead cell stays dead.
pub proof fn generation_follows_rule(b: Board, i: int, j: int)
    requires
        b.wf(),
        0 <= i < b.spec_width(),
        0 <= j < b.spec_height(),
    ensures
        ({
            let n = clamped_count(b@, b.spec_width(), b.spec_height(), i, j);
            let c = next_grid(b@, b.spec_width(), b.spec_height())[i][j];
            &&& b@[i][j] == 1 ==> (c == 1 <==> (n == 2 || n == 3))
            &&& b@[i][j] == 0 ==> (c == 1 <==> n == 3)
            &&& c <= 1
        }),
{
}

/// A board with no live cell is left unchanged by a generation.
pub proof fn dead_board_is_fixed(b: Board)
    requires
        b.wf(),
        all_dead(b@, b.spec_width(), b.spec_height()),
    ensures
        next_grid(b@, b.spec_width(), b.spec_height()) == b@,
{
    let w = b.spec_width();
    let h = b.spec_height();
    let n = next_grid(b@, w, h);
    assert forall|i: int| 0 <= i < w implies #[trigger] n[i] == b@[i] by {
        assert forall|j: int| 0 <= j < h implies #[trigger] n[i][j] == b@[i][j] by {
            assert(b@[i][up(j, h)] == 0);
            assert(b@[up(i, w)][up(j, h)] == 0);
            assert(b@[up(i, w)][j] == 0);
            assert(b@[up(i, w)][down(j)] == 0);
            assert(b@[i][down(j)] == 0);
            assert(b@[down(i)][j] == 0);
            assert(b@[down(i)][down(j)] == 0);
            assert(b@[down(i)][up(j, h)] == 0);
        }
        assert(n[i] =~= b@[i]);
    }
    assert(n =~= b@);
}

/// On a board with no live cell every read, at any coordinates, gives 0.
pub proof fn dead_board_reads_dead(b: Board, i: int, j: int)
    requires
        b.wf(),
        all_dead(b@, b.spec_width(), b.spec_height()),
        i >= 0,
        j >= 0,
    ensures
        b@[pin(i, b.spec_width())][pin(j, b.spec_height())] == 0,
{
}

/// Flipping the same cell twice gives back the board it started from.
pub proof fn toggle_is_involution(b: Board, i: int, j: int)
    requires
        b.wf(),
        i >= 0,
        j >= 0,
    ensures
        ({
            let ci = pin(i, b.spec_width());
            let cj = pin(j, b.spec_height());
            toggled(toggled(b@, ci, cj), ci, cj) == b@
        }),
{
    let ci = pin(i, b.spec_width());
    let cj = pin(j, b.spec_height());
    let t = toggled(b@, ci, cj);
    assert(toggled(t, ci, cj)[ci] =~= b@[ci]);
    assert(toggled(t, ci, cj) =~= b@);
}

} // verus!
