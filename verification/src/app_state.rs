//! The state of the window and of the game in it. Each event that comes in is
//! one call; what the caller then has to send out is in the result.

use vstd::prelude::*;

use crate::canvas::{draw, CELL_SIZE};
use crate::game::GameOfLife;
use crate::glider::Heading;
use crate::keys::{Command, BTN_LEFT, BTN_RIGHT};
use crate::model::AppModel;
use crate::pool::{BufferPool, BUFFER_COUNT};

verus! {

/// The shortest time between generations.
pub const TICK_MILLIS_MIN: u64 = 100;

pub const TICK_MILLIS_DEFAULT: u64 = 400;

/// The longest time between generations.
pub const TICK_MILLIS_MAX: u64 = 1000;

/// How much one key press changes that time.
pub const TICK_MILLIS_STEP: u64 = 100;

/// The width of the window, in pixels.
pub const WIDTH: usize = 600;

/// The height of the window, in pixels.
pub const HEIGHT: usize = 600;

/// What is to be done once all events at hand have been handled.
#[derive(Debug, Clone, Copy, PartialEq, Eq, Structural)]
pub struct Settled {
    /// Leave the event loop.
    pub stop: bool,
    /// Ask the compositor for the moment to draw.
    pub request_frame: bool,
}

/// Which devices of the seat are to be bound.
#[derive(Debug, Clone, Copy, PartialEq, Eq, Structural)]
pub struct Bindings {
    pub keyboard: bool,
    pub pointer: bool,
}

/// What the pointer did since the last pointer frame.
#[derive(Debug)]
struct PointerFrame {
    motion: Option<(usize, usize)>,
    button: Option<(u32, bool)>,
}

#[derive(Debug)]
pub struct AppState {
    quit: bool,
    configured: bool,
    frame_pending: bool,
    needs_update: bool,
    game: GameOfLife,
    paused: bool,
    tick_millis: u64,
    pool: BufferPool,
    keyboard: bool,
    pointer: bool,
    pointer_pos: (usize, usize),
    pointer_frame: PointerFrame,
}

impl View for AppState {
    type V = AppModel;

    closed spec fn view(&self) -> AppModel {
        AppModel {
            quit: self.quit,
            configured: self.configured,
            frame_pending: self.frame_pending,
            needs_update: self.needs_update,
            board: self.game@,
            paused: self.paused,
            tick_millis: self.tick_millis as nat,
            pool: self.pool@,
            keyboard: self.keyboard,
            pointer: self.pointer,
            pointer_pos: (self.pointer_pos.0 as nat, self.pointer_pos.1 as nat),
            motion: match self.pointer_frame.motion {
                Some(pos) => Some((pos.0 as nat, pos.1 as nat)),
                None => None,
            },
            button: self.pointer_frame.button,
        }
    }
}

impl AppState {
    pub open spec fn wf(&self) -> bool {
        &&& self@.wf()
        &&& self.parts_wf()
    }

    /// The game and the pool are well-formed.
    pub closed spec fn parts_wf(&self) -> bool {
        &&& self.game.wf()
        &&& self.pool.wf()
    }

    /// A window with two gliders on an otherwise empty board.
    pub fn new() -> (app: Self)
        ensures
            app.wf(),
            app@ == AppModel::initial(),
    {
        let mut game: GameOfLife = GameOfLife::new(WIDTH / CELL_SIZE, HEIGHT / CELL_SIZE);
        game.spawn_glider(0, 30, Heading::SouthEast);
        game.spawn_glider(0, 40, Heading::SouthEast);
        AppState {
            quit: false,
            configured: false,
            frame_pending: false,
            needs_update: false,
            game,
            paused: false,
            tick_millis: TICK_MILLIS_DEFAULT,
            pool: BufferPool::new(WIDTH, HEIGHT),
            keyboard: false,
            pointer: false,
            pointer_pos: (0, 0),
            pointer_frame: PointerFrame { motion: None, button: None },
        }
    }

    /// The game that is played.
    pub fn game(&self) -> (game: &GameOfLife)
        requires
            self.wf(),
        ensures
            game.wf(),
            game@ == self@.board,
    {
        &self.game
    }

    /// The buffers that the window is drawn into.
    pub fn pool(&self) -> (pool: &BufferPool)
        requires
            self.wf(),
        ensures
            pool.wf(),
            pool@ == self@.pool,
    {
        &self.pool
    }

    pub fn is_paused(&self) -> (paused: bool)
        ensures
            paused == self@.paused,
    {
        self.paused
    }

    /// The time between generations, in milliseconds.
    pub fn tick_millis(&self) -> (millis: u64)
        ensures
            millis == self@.tick_millis,
    {
        self.tick_millis
    }

    /// The clock has run down: a game that is not paused goes on by one
    /// generation. Returns the time until the clock is to run down again.
    pub fn tick(&mut self) -> (millis: u64)
        requires
            old(self).wf(),
        ensures
            final(self).wf(),
            final(self)@ == old(self)@.tick(),
            millis == old(self)@.tick_millis,
    {
        if !self.paused {
            self.game.step();
            self.needs_update = true;
        }
        self.tick_millis
    }

    /// All events at hand have been handled.
    pub fn settle(&mut self) -> (settled: Settled)
        requires
            old(self).wf(),
        ensures
            final(self).wf(),
            final(self)@ == old(self)@.settle(),
            settled.stop == old(self)@.quit,
            settled.request_frame == old(self)@.wants_frame(),
    {
        let request_frame: bool = if self.needs_update && self.configured && !self.frame_pending {
            self.request_frame()
        } else {
            false
        };
        Settled { stop: self.quit, request_frame }
    }

    /// Returns whether the compositor is to be asked for the moment to draw:
    /// not if it was already.
    pub fn request_frame(&mut self) -> (request: bool)
        requires
            old(self).wf(),
        ensures
            final(self).wf(),
            final(self)@ == old(self)@.request_frame(),
            request == !old(self)@.frame_pending,
    {
        if self.frame_pending {
            return false;
        }
        self.frame_pending = true;
        true
    }

    /// Draws the game into the first free buffer of the pool's memory and
    /// returns which one that is; it is then the compositor's. Without a free
    /// buffer nothing is drawn.
    pub fn render_grid(&mut self, memory: &mut [u8]) -> (buffer: Option<usize>)
        requires
            old(self).wf(),
            old(memory)@.len() >= old(self)@.pool.total_size(),
        ensures
            final(self).wf(),
            final(self)@ == old(self)@.render(),
            final(memory)@ == old(self)@.frame(old(memory)@),
            match buffer {
                Some(index) => old(self)@.pool.free_buffer() == Some(index as int) && index
                    < BUFFER_COUNT,
                None => old(self)@.pool.free_buffer() is None,
            },
    {
        match self.pool.acquire() {
            Some(index) => {
                let offset: usize = self.pool.offset(index);
                draw(&self.game, self.pool.height(), self.pool.stride(), memory, offset);
                Some(index)
            },
            None => None,
        }
    }

    /// The compositor has configured the window: the game is drawn as by
    /// `render_grid`.
    pub fn configure(&mut self, memory: &mut [u8]) -> (buffer: Option<usize>)
        requires
            old(self).wf(),
            old(memory)@.len() >= old(self)@.pool.total_size(),
        ensures
            final(self).wf(),
            final(self)@ == old(self)@.configure(),
            final(memory)@ == old(self)@.frame(old(memory)@),
            match buffer {
                Some(index) => old(self)@.pool.free_buffer() == Some(index as int) && index
                    < BUFFER_COUNT,
                None => old(self)@.pool.free_buffer() is None,
            },
    {
        self.configured = true;
        self.render_grid(memory)
    }

    /// The compositor has said that it is the moment to draw: the game is drawn
    /// as by `render_grid`.
    pub fn frame_done(&mut self, memory: &mut [u8]) -> (buffer: Option<usize>)
        requires
            old(self).wf(),
            old(memory)@.len() >= old(self)@.pool.total_size(),
        ensures
            final(self).wf(),
            final(self)@ == old(self)@.frame_done(),
            final(memory)@ == old(self)@.frame(old(memory)@),
            match buffer {
                Some(index) => old(self)@.pool.free_buffer() == Some(index as int) && index
                    < BUFFER_COUNT,
                None => old(self)@.pool.free_buffer() is None,
            },
    {
        self.frame_pending = false;
        let buffer: Option<usize> = self.render_grid(memory);
        self.needs_update = false;
        buffer
    }

    /// The compositor has given buffer `index` back.
    pub fn release(&mut self, index: usize)
        requires
            old(self).wf(),
            index < BUFFER_COUNT,
        ensures
            final(self).wf(),
            final(self)@ == old(self)@.release(index as int),
    {
        self.pool.release(index);
    }

    /// The compositor has closed the window.
    pub fn close(&mut self)
        requires
            old(self).wf(),
        ensures
            final(self).wf(),
            final(self)@ == old(self)@.close(),
    {
        self.quit = true;
    }

    /// The seat has said which devices it has. Returns which of them are to be
    /// bound: those that it has and that are not bound yet.
    pub fn seat(&mut self, has_keyboard: bool, has_pointer: bool) -> (bindings: Bindings)
        requires
            old(self).wf(),
        ensures
            final(self).wf(),
            final(self)@ == old(self)@.seat(has_keyboard, has_pointer),
            bindings.keyboard == old(self)@.binds_keyboard(has_keyboard),
            bindings.pointer == old(self)@.binds_pointer(has_pointer),
    {
        let bindings: Bindings = Bindings {
            keyboard: has_keyboard && !self.keyboard,
            pointer: has_pointer && !self.pointer,
        };
        self.keyboard = self.keyboard || has_keyboard;
        self.pointer = self.pointer || has_pointer;
        bindings
    }

    /// A key with that symbol went down or up. A glider that it asks for takes
    /// the given heading.
    pub fn key(&mut self, keysym: u32, pressed: bool, heading: Heading)
        requires
            old(self).wf(),
        ensures
            final(self).wf(),
            final(self)@ == old(self)@.key(keysym, pressed, heading),
    {
        if pressed {
            self.handle_key(keysym, heading);
        }
    }

    /// A key with that symbol went down. A glider that it asks for takes the
    /// given heading.
    pub fn handle_key(&mut self, keysym: u32, heading: Heading)
        requires
            old(self).wf(),
        ensures
            final(self).wf(),
            final(self)@ == old(self)@.handle_key(keysym, heading),
    {
        let command: Command = match Command::from_keysym(keysym) {
            Some(command) => command,
            None => {
                return;
            },
        };
        match command {
            Command::Pause => {
                self.paused = !self.paused;
            },
            Command::Faster => {
                let millis: u64 = self.tick_millis - TICK_MILLIS_STEP;
                self.tick_millis = if millis > TICK_MILLIS_MIN {
                    millis
                } else {
                    TICK_MILLIS_MIN
                };
            },
            Command::Slower => {
                let millis: u64 = self.tick_millis + TICK_MILLIS_STEP;
                self.tick_millis = if millis < TICK_MILLIS_MAX {
                    millis
                } else {
                    TICK_MILLIS_MAX
                };
            },
            Command::Glider => {
                let (cell_x, cell_y) = self.pointer_cell();
                self.game.spawn_glider(cell_x, cell_y, heading);
            },
            Command::Clear => {
                self.game.clear();
            },
            Command::Quit => {
                self.quit = true;
            },
        }
        self.needs_update = true;
    }

    /// The pointer has moved to a pixel of the window.
    pub fn motion(&mut self, x: usize, y: usize)
        requires
            old(self).wf(),
        ensures
            final(self).wf(),
            final(self)@ == old(self)@.motion(x as nat, y as nat),
    {
        self.pointer_frame.motion = Some((x, y));
    }

    /// A button went down or up.
    pub fn button(&mut self, button: u32, pressed: bool)
        requires
            old(self).wf(),
        ensures
            final(self).wf(),
            final(self)@ == old(self)@.button(button, pressed),
    {
        self.pointer_frame.button = Some((button, pressed));
    }

    /// What the pointer did since the last call belongs together and takes
    /// effect.
    pub fn pointer_frame(&mut self)
        requires
            old(self).wf(),
        ensures
            final(self).wf(),
            final(self)@ == old(self)@.pointer_frame(),
    {
        let motion: Option<(usize, usize)> = self.pointer_frame.motion;
        let button: Option<(u32, bool)> = self.pointer_frame.button;
        self.pointer_frame = PointerFrame { motion: None, button: None };
        if let Some(pos) = motion {
            self.pointer_pos = pos;
        }
        if let Some((button, pressed)) = button {
            if pressed {
                let (cell_x, cell_y) = self.pointer_cell();
                if button == BTN_LEFT {
                    self.game.set_alive(cell_x, cell_y);
                } else if button == BTN_RIGHT {
                    self.game.set_dead(cell_x, cell_y);
                }
                self.needs_update = true;
            }
        }
    }

    /// The cell that the pointer is on.
    fn pointer_cell(&self) -> (cell: (usize, usize))
        ensures
            cell.0 == self@.pointer_cell().0,
            cell.1 == self@.pointer_cell().1,
    {
        (self.pointer_pos.0 / CELL_SIZE, self.pointer_pos.1 / CELL_SIZE)
    }
}

} // verus!
