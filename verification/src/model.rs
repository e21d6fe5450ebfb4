//! The mathematical model of the window: its state, and what each event makes
//! of it.

use vstd::prelude::*;

use crate::board::Board;
use crate::canvas::drawn;
use crate::cell::Cell;
use crate::glider::Heading;
use crate::keys::{command_for, Command, BTN_LEFT, BTN_RIGHT};
use crate::pool::PoolModel;

verus! {

#[verifier::ext_equal]
pub struct AppModel {
    /// Leaving was asked for.
    pub quit: bool,
    /// The compositor has configured the window.
    pub configured: bool,
    /// The compositor was asked for the moment to draw and has not answered.
    pub frame_pending: bool,
    /// What is shown is no longer what the game holds.
    pub needs_update: bool,
    pub board: Board,
    pub paused: bool,
    /// The time between generations.
    pub tick_millis: nat,
    pub pool: PoolModel,
    /// A keyboard is bound.
    pub keyboard: bool,
    /// A pointer is bound.
    pub pointer: bool,
    /// The pixel that the pointer is on.
    pub pointer_pos: (nat, nat),
    /// Where the pointer moved to since the last pointer frame.
    pub motion: Option<(nat, nat)>,
    /// The last button since the last pointer frame, and whether it went down.
    pub button: Option<(u32, bool)>,
}

impl AppModel {
    /// The window before the first event.
    pub open spec fn initial() -> AppModel {
        AppModel {
            quit: false,
            configured: false,
            frame_pending: false,
            needs_update: false,
            board: Board::empty(50, 50).with_glider(0, 30, Heading::SouthEast).with_glider(
                0,
                40,
                Heading::SouthEast,
            ),
            paused: false,
            tick_millis: 400,
            pool: PoolModel { width: 600, height: 600, busy: Seq::new(3, |i: int| false) },
            keyboard: false,
            pointer: false,
            pointer_pos: (0, 0),
            motion: None,
            button: None,
        }
    }

    /// What holds in every state of the window.
    pub open spec fn wf(self) -> bool {
        &&& self.board.wf()
        &&& self.board.width == 50
        &&& self.board.height == 50
        &&& 100 <= self.tick_millis <= 1000
        &&& self.tick_millis % 100 == 0
        &&& self.pool.width == 600
        &&& self.pool.height == 600
        &&& self.pool.busy.len() == 3
    }

    /// The cell that the pointer is on.
    pub open spec fn pointer_cell(self) -> (int, int) {
        (self.pointer_pos.0 as int / 12, self.pointer_pos.1 as int / 12)
    }

    /// The clock has run down.
    pub open spec fn tick(self) -> AppModel {
        if self.paused {
            self
        } else {
            AppModel { board: self.board.step(), needs_update: true, ..self }
        }
    }

    /// The compositor is asked for the moment to draw, unless it was already.
    pub open spec fn request_frame(self) -> AppModel {
        AppModel { frame_pending: true, ..self }
    }

    /// Whether the events just handled leave something to draw that the
    /// compositor does not know of yet.
    pub open spec fn wants_frame(self) -> bool {
        self.needs_update && self.configured && !self.frame_pending
    }

    /// All events at hand have been handled.
    pub open spec fn settle(self) -> AppModel {
        if self.wants_frame() {
            self.request_frame()
        } else {
            self
        }
    }

    /// The game has been drawn, if there was a buffer for it.
    pub open spec fn render(self) -> AppModel {
        AppModel { pool: self.pool.acquire(), ..self }
    }

    /// The memory of the pool after the game has been drawn, if there was a
    /// buffer for it.
    pub open spec fn frame(self, memory: Seq<u8>) -> Seq<u8> {
        match self.pool.free_buffer() {
            Some(index) => drawn(
                memory,
                self.pool.offset(index),
                self.board,
                self.pool.height as int,
                self.pool.stride() as int,
            ),
            None => memory,
        }
    }

    /// The compositor has configured the window.
    pub open spec fn configure(self) -> AppModel {
        AppModel { configured: true, ..self }.render()
    }

    /// The compositor has said that it is the moment to draw.
    pub open spec fn frame_done(self) -> AppModel {
        AppModel { frame_pending: false, needs_update: false, ..self }.render()
    }

    /// The compositor has given a buffer back.
    pub open spec fn release(self, index: int) -> AppModel {
        AppModel { pool: self.pool.release(index), ..self }
    }

    /// The compositor has closed the window.
    pub open spec fn close(self) -> AppModel {
        AppModel { quit: true, ..self }
    }

    /// Whether the keyboard is to be bound, given that the seat has one or not.
    pub open spec fn binds_keyboard(self, has_keyboard: bool) -> bool {
        has_keyboard && !self.keyboard
    }

    /// Whether the pointer is to be bound, given that the seat has one or not.
    pub open spec fn binds_pointer(self, has_pointer: bool) -> bool {
        has_pointer && !self.pointer
    }

    /// The seat has said which devices it has.
    pub open spec fn seat(self, has_keyboard: bool, has_pointer: bool) -> AppModel {
        AppModel {
            keyboard: self.keyboard || has_keyboard,
            pointer: self.pointer || has_pointer,
            ..self
        }
    }

    /// A command is carried out. A new glider goes where the pointer is and
    /// takes the given heading.
    pub open spec fn obey(self, command: Command, heading: Heading) -> AppModel {
        match command {
            Command::Pause => AppModel { paused: !self.paused, ..self },
            Command::Faster => AppModel {
                tick_millis: if self.tick_millis >= 200 {
                    (self.tick_millis - 100) as nat
                } else {
                    100
                },
                ..self
            },
            Command::Slower => AppModel {
                tick_millis: if self.tick_millis <= 900 {
                    self.tick_millis + 100
                } else {
                    1000
                },
                ..self
            },
            Command::Glider => AppModel {
                board: self.board.with_glider(
                    self.pointer_cell().0,
                    self.pointer_cell().1,
                    heading,
                ),
                ..self
            },
            Command::Clear => AppModel {
                board: Board::empty(self.board.width, self.board.height),
                ..self
            },
            Command::Quit => AppModel { quit: true, ..self },
        }
    }

    /// A key with that symbol went down.
    pub open spec fn handle_key(self, keysym: u32, heading: Heading) -> AppModel {
        match command_for(keysym) {
            Some(command) => AppModel { needs_update: true, ..self.obey(command, heading) },
            None => self,
        }
    }

    /// A key with that symbol went down or up.
    pub open spec fn key(self, keysym: u32, pressed: bool, heading: Heading) -> AppModel {
        if pressed {
            self.handle_key(keysym, heading)
        } else {
            self
        }
    }

    /// The pointer has moved.
    pub open spec fn motion(self, x: nat, y: nat) -> AppModel {
        AppModel { motion: Some((x, y)), ..self }
    }

    /// A button went down or up.
    pub open spec fn button(self, button: u32, pressed: bool) -> AppModel {
        AppModel { button: Some((button, pressed)), ..self }
    }

    /// What the pointer did so far belongs together and takes effect.
    pub open spec fn pointer_frame(self) -> AppModel {
        let moved = AppModel {
            pointer_pos: match self.motion {
                Some(pos) => pos,
                None => self.pointer_pos,
            },
            motion: None,
            button: None,
            ..self
        };
        match self.button {
            Some((button, true)) => moved.press(button),
            _ => moved,
        }
    }

    /// A button goes down where the pointer is: the left one brings the cell
    /// there to life, the right one kills it.
    pub open spec fn press(self, button: u32) -> AppModel {
        let (x, y) = self.pointer_cell();
        AppModel {
            board: if button == BTN_LEFT {
                self.board.put(x, y, Cell::Alive)
            } else if button == BTN_RIGHT {
                self.board.put(x, y, Cell::Dead)
            } else {
                self.board
            },
            needs_update: true,
            ..self
        }
    }
}

} // verus!
