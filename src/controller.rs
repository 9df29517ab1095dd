use vstd::prelude::*;
use crate::grid::{
    Board, BOARD_HEIGHT, BOARD_WIDTH, all_dead, is_grid, next_grid, pin, toggled,
};

verus! {

/// Side of a cell on screen, in pixels.
pub const CELL_SIZE: usize = 10;

/// Time between two generations while the simulation runs, in milliseconds.
pub const GEN_INTERVAL_MS: u64 = 100;

/// A pointer button.
#[derive(Clone, Copy, Debug, PartialEq, Eq, Structural)]
pub enum Button {
    Primary,
    Other,
}

/// A key, as far as the simulation cares.
#[derive(Clone, Copy, Debug, PartialEq, Eq, Structural)]
pub enum Key {
    TogglePause,
    Clear,
    Randomize,
    Other,
}

/// Corners of cell `(i, j)` on screen, in pixels: left, top, right, bottom.
pub fn cell_rect(i: usize, j: usize) -> (r: (usize, usize, usize, usize))
    requires
        (i + 1) * CELL_SIZE <= usize::MAX,
        (j + 1) * CELL_SIZE <= usize::MAX,
    ensures
        r.0 == i * CELL_SIZE,
        r.1 == j * CELL_SIZE,
        r.2 == (i + 1) * CELL_SIZE,
        r.3 == (j + 1) * CELL_SIZE,
{
    (i * CELL_SIZE, j * CELL_SIZE, (i + 1) * CELL_SIZE, (j + 1) * CELL_SIZE)
}

/// Size in pixels of a window that shows a board of `width` by `height` cells.
pub fn window_size(width: usize, height: usize) -> (r: (usize, usize))
    requires
        width * CELL_SIZE <= usize::MAX,
        height * CELL_SIZE <= usize::MAX,
    ensures
        r.0 == width * CELL_SIZE,
        r.1 == height * CELL_SIZE,
{
    (width * CELL_SIZE, height * CELL_SIZE)
}

/// What the simulation holds, as mathematical values.
pub ghost struct GameModel {
    pub cells: Seq<Seq<u8>>,
    pub width: int,
    pub height: int,
    pub paused: bool,
    pub pointer_x: int,
    pub pointer_y: int,
    pub last_update: int,
}

impl GameModel {
    /// The grid is well formed and the pointer lies at non-negative pixels.
    pub open spec fn valid(self) -> bool {
        &&& self.width >= 1
        &&& self.height >= 1
        &&& is_grid(self.cells, self.width, self.height)
        &&& self.pointer_x >= 0
        &&& self.pointer_y >= 0
    }

    /// Column under the pointer, pinned to the board.
    pub open spec fn pointer_column(self) -> int {
        pin(self.pointer_x / CELL_SIZE as int, self.width)
    }

    /// Row under the pointer, pinned to the board.
    pub open spec fn pointer_row(self) -> int {
        pin(self.pointer_y / CELL_SIZE as int, self.height)
    }
}

/// The state after a frame tick at time `now`: a running simulation whose last
/// generation is at least one interval old moves one generation on and records
/// `now`; otherwise nothing changes.
pub open spec fn tick_model(m: GameModel, now: int) -> GameModel {
    if !m.paused && now - m.last_update >= GEN_INTERVAL_MS {
        GameModel { cells: next_grid(m.cells, m.width, m.height), last_update: now, ..m }
    } else {
        m
    }
}

/// The state after frame ticks at each of `times`, in order.
pub open spec fn run_ticks(m: GameModel, times: Seq<int>) -> GameModel
    decreases times.len(),
{
    if times.len() == 0 {
        m
    } else {
        run_ticks(tick_model(m, times[0]), times.drop_first())
    }
}

/// The state after a press of `button`: the primary button flips the cell
/// under the pointer, any other does nothing.
pub open spec fn press_model(m: GameModel, button: Button) -> GameModel {
    match button {
        Button::Primary => GameModel {
            cells: toggled(m.cells, m.pointer_column(), m.pointer_row()),
            ..m
        },
        Button::Other => m,
    }
}

/// The state after a press of `key`, for every key but `Randomize`, whose
/// outcome is random.
pub open spec fn key_model(m: GameModel, key: Key) -> GameModel {
    match key {
        Key::TogglePause => GameModel { paused: !m.paused, ..m },
        Key::Clear => GameModel {
            cells: Seq::new(m.width as nat, |i: int| Seq::new(m.height as nat, |j: int| 0u8)),
            ..m
        },
        _ => m,
    }
}

/// The simulation: a board, whether it is paused, where the pointer is, and
/// when the last generation was computed.
pub struct Game {
    board: Board,
    paused: bool,
    pointer_x: usize,
    pointer_y: usize,
    last_update: u64,
}

impl View for Game {
    type V = GameModel;

    closed spec fn view(&self) -> GameModel {
        GameModel {
            cells: self.board@,
            width: self.board.spec_width(),
            height: self.board.spec_height(),
            paused: self.paused,
            pointer_x: self.pointer_x as int,
            pointer_y: self.pointer_y as int,
            last_update: self.last_update as int,
        }
    }
}

impl Game {
    /// The state is well formed.
    pub open spec fn wf(&self) -> bool {
        self@.valid()
    }

    /// A paused simulation on a dead board of the default size, with the
    /// pointer at the origin and `now` as the time of the last generation.
    pub fn new(now: u64) -> (r: Game)
        ensures
            r.wf(),
            r@.width == BOARD_WIDTH,
            r@.height == BOARD_HEIGHT,
            all_dead(r@.cells, r@.width, r@.height),
            r@.paused,
            r@.pointer_x == 0,
            r@.pointer_y == 0,
            r@.last_update == now,
    {
        Game {
            board: Board::new(BOARD_WIDTH, BOARD_HEIGHT),
            paused: true,
            pointer_x: 0,
            pointer_y: 0,
            last_update: now,
        }
    }

    /// The board, for reading.
    pub fn board(&self) -> (r: &Board)
        requires
            self.wf(),
        ensures
            r.wf(),
            r@ == self@.cells,
            r.spec_width() == self@.width,
            r.spec_height() == self@.height,
    {
        &self.board
    }

    /// Whether the simulation is paused.
    pub fn is_paused(&self) -> (r: bool)
        ensures
            r == self@.paused,
    {
        self.paused
    }

    /// A frame tick at time `now`, in milliseconds: computes one generation if
    /// the simulation runs and the last one is at least an interval old.
    /// Returns whether it did. Late ticks never compute more than one.
    pub fn on_frame_tick(&mut self, now: u64) -> (advanced: bool)
        requires
            old(self).wf(),
        ensures
            final(self).wf(),
            final(self)@ == tick_model(old(self)@, now as int),
            advanced == (!old(self)@.paused && now - old(self)@.last_update >= GEN_INTERVAL_MS),
    {
        let elapsed: u64 = if now >= self.last_update { now - self.last_update } else { 0 };
        if !self.paused && elapsed >= GEN_INTERVAL_MS {
            self.board.advance();
            self.last_update = now;
            true
        } else {
            false
        }
    }

    /// The pointer moved to pixel `(x, y)`.
    pub fn on_pointer_move(&mut self, x: usize, y: usize)
        requires
            old(self).wf(),
        ensures
            final(self).wf(),
            final(self)@ == (GameModel { pointer_x: x as int, pointer_y: y as int, ..old(self)@ }),
    {
        self.pointer_x = x;
        self.pointer_y = y;
    }

    /// A press of `button`: the primary button flips the cell under the
    /// pointer, pinned to the board; any other does nothing.
    pub fn on_button_press(&mut self, button: Button)
        requires
            old(self).wf(),
        ensures
            final(self).wf(),
            final(self)@ == press_model(old(self)@, button),
    {
        match button {
            Button::Primary => {
                let i = self.pointer_x / CELL_SIZE;
                let j = self.pointer_y / CELL_SIZE;
                self.board.toggle_cell(i, j);
            },
            Button::Other => {},
        }
    }

    /// A press of `key`: pause or resume, clear the board, or fill it at
    /// random. Other keys do nothing.
    pub fn on_key_press(&mut self, key: Key)
        requires
            old(self).wf(),
        ensures
            final(self).wf(),
            key != Key::Randomize ==> final(self)@ == key_model(old(self)@, key),
            key == Key::Randomize ==> ({
                &&& final(self)@.width == old(self)@.width
                &&& final(self)@.height == old(self)@.height
                &&& final(self)@.paused == old(self)@.paused
                &&& final(self)@.pointer_x == old(self)@.pointer_x
                &&& final(self)@.pointer_y == old(self)@.pointer_y
                &&& final(self)@.last_update == old(self)@.last_update
            }),
    {
        match key {
            Key::TogglePause => {
                self.paused = !self.paused;
            },
            Key::Clear => {
                self.board.clear();
                assert(self@.cells =~~= key_model(old(self)@, key).cells);
            },
            Key::Randomize => {
                self.board.randomize();
            },
            Key::Other => {},
        }
    }
}

/// While the simulation is paused, no sequence of frame ticks changes
/// anything, whatever times they carry.
pub proof fn paused_ticks_change_nothing(m: GameModel, times: Seq<int>)
    requires
        m.paused,
    ensures
        run_ticks(m, times) == m,
    decreases times.len(),
{
    if times.len() > 0 {
        paused_ticks_change_nothing(tick_model(m, times[0]), times.drop_first());
    }
}

/// Pressing the pause key twice gives back the state it started from, so
/// the paused flag is what it was.
pub proof fn pause_key_twice_restores(m: GameModel)
    ensures
        key_model(key_model(m, Key::TogglePause), Key::TogglePause) == m,
        key_model(key_model(m, Key::TogglePause), Key::TogglePause).paused == m.paused,
{
}

/// A primary press with the pointer over cell `(i, j)` flips that cell and
/// leaves every other cell as it was.
pub proof fn primary_press_flips_one_cell(m: GameModel, i: int, j: int)
    requires
        m.valid(),
        0 <= i < m.width,
        0 <= j < m.height,
        m.pointer_x / CELL_SIZE as int == i,
        m.pointer_y / CELL_SIZE as int == j,
    ensures
        ({
            let r = press_model(m, Button::Primary);
            &&& r.valid()
            &&& r.width == m.width && r.height == m.height
            &&& r.cells[i][j] == 1 - m.cells[i][j]
            &&& forall|a: int, b: int|
                0 <= a < m.width && 0 <= b < m.height && (a != i || b != j)
                    ==> #[trigger] r.cells[a][b] == m.cells[a][b]
        }),
{
    let r = press_model(m, Button::Primary);
    assert(m.pointer_column() == i);
    assert(m.pointer_row() == j);
}

} // verus!
