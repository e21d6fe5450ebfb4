//! What holds of the window whatever happens to it.

use vstd::prelude::*;

use crate::board::Board;
use crate::cell::Cell;
use crate::glider::Heading;
use crate::keys::{command_for, Command, BTN_LEFT, BTN_RIGHT};
use crate::laws::drawing::free_buffer_is_free;
use crate::laws::naming::{changes_keep_size, names_are_places};
use crate::model::AppModel;

verus! {

/// What can happen to the window.
pub enum Event {
    Tick,
    Settle,
    RequestFrame,
    Render,
    Configure,
    FrameDone,
    Release { index: int },
    Close,
    Seat { has_keyboard: bool, has_pointer: bool },
    Key { keysym: u32, pressed: bool, heading: Heading },
    Motion { x: nat, y: nat },
    Button { button: u32, pressed: bool },
    PointerFrame,
}

impl Event {
    /// Only a buffer of the pool can come back.
    pub open spec fn possible(self) -> bool {
        match self {
            Event::Release { index } => 0 <= index < 3,
            _ => true,
        }
    }
}

impl AppModel {
    /// The window after an event.
    pub open spec fn on(self, event: Event) -> AppModel {
        match event {
            Event::Tick => self.tick(),
            Event::Settle => self.settle(),
            Event::RequestFrame => self.request_frame(),
            Event::Render => self.render(),
            Event::Configure => self.configure(),
            Event::FrameDone => self.frame_done(),
            Event::Release { index } => self.release(index),
            Event::Close => self.close(),
            Event::Seat { has_keyboard, has_pointer } => self.seat(has_keyboard, has_pointer),
            Event::Key { keysym, pressed, heading } => self.key(keysym, pressed, heading),
            Event::Motion { x, y } => self.motion(x, y),
            Event::Button { button, pressed } => self.button(button, pressed),
            Event::PointerFrame => self.pointer_frame(),
        }
    }

    /// The window after a number of events.
    pub open spec fn on_all(self, events: Seq<Event>) -> AppModel
        decreases events.len(),
    {
        if events.len() == 0 {
            self
        } else {
            self.on_all(events.drop_last()).on(events.last())
        }
    }
}

/// Every event keeps what holds in every state: the size of the board and of
/// the pool, and the limits of the time between generations.
pub proof fn event_keeps_invariant(app: AppModel, event: Event)
    requires
        app.wf(),
        event.possible(),
    ensures
        app.on(event).wf(),
{
    let (x, y) = app.pointer_cell();
    match event {
        Event::Key { keysym, pressed, heading } => {
            changes_keep_size(app.board, x, y, Cell::Alive, heading);
            assert(app.handle_key(keysym, heading).wf()) by {
                if let Some(command) = command_for(keysym) {
                    assert(app.obey(command, heading).wf());
                }
            }
        },
        Event::PointerFrame => {
            let moved = match app.motion {
                Some(pos) => AppModel { pointer_pos: pos, ..app },
                None => app,
            };
            let (x, y) = moved.pointer_cell();
            changes_keep_size(app.board, x, y, Cell::Alive, Heading::SouthEast);
            changes_keep_size(app.board, x, y, Cell::Dead, Heading::SouthEast);
        },
        _ => {
            free_buffer_is_free(app.pool);
        },
    }
}

/// From its start on, the window is never in a state in which that does not
/// hold.
pub proof fn invariant_always_holds(events: Seq<Event>)
    requires
        forall|i: int| 0 <= i < events.len() ==> (#[trigger] events[i]).possible(),
    ensures
        AppModel::initial().on_all(events).wf(),
    decreases events.len(),
{
    if events.len() > 0 {
        invariant_always_holds(events.drop_last());
        event_keeps_invariant(AppModel::initial().on_all(events.drop_last()), events.last());
    } else {
        let empty = Board::empty(50, 50);
        changes_keep_size(empty, 0, 30, Cell::Alive, Heading::SouthEast);
        changes_keep_size(
            empty.with_glider(0, 30, Heading::SouthEast),
            0,
            40,
            Cell::Alive,
            Heading::SouthEast,
        );
    }
}

/// Leaving, once asked for, stays asked for; a window once configured stays so;
/// a device once bound stays bound.
pub proof fn no_event_takes_back(app: AppModel, event: Event)
    ensures
        app.quit ==> app.on(event).quit,
        app.configured ==> app.on(event).configured,
        app.keyboard ==> app.on(event).keyboard,
        app.pointer ==> app.on(event).pointer,
{
}

/// Nothing but the closing of the window and the key for it asks for leaving.
pub proof fn only_asking_leaves(app: AppModel, event: Event)
    requires
        !app.quit,
        app.on(event).quit,
    ensures
        event is Close || (event matches Event::Key { keysym, pressed, heading } && pressed
            && command_for(keysym) == Some(Command::Quit)),
{
}

/// A device is bound once: after the seat has been heard, what was bound is not
/// to be bound again.
pub proof fn bound_once(app: AppModel, has_keyboard: bool, has_pointer: bool, again: bool)
    ensures
        has_keyboard ==> !app.seat(has_keyboard, has_pointer).binds_keyboard(again),
        has_pointer ==> !app.seat(has_keyboard, has_pointer).binds_pointer(again),
{
}

/// Once the compositor was asked for the moment to draw it is not asked again
/// before it has answered, whatever else happens.
pub proof fn asked_once(app: AppModel, event: Event)
    requires
        app.frame_pending,
        !(event is FrameDone),
    ensures
        app.on(event).frame_pending,
        !app.on(event).wants_frame(),
{
}

/// After the events at hand have been handled nothing is left to ask for, and
/// on a configured window with something to draw the compositor has been asked.
pub proof fn settled(app: AppModel)
    ensures
        !app.settle().wants_frame(),
        app.needs_update && app.configured ==> app.settle().frame_pending,
        app.settle().settle() == app.settle(),
{
}

/// Drawing on the compositor's word leaves nothing to draw until something
/// happens.
pub proof fn drawn_on_word(app: AppModel)
    ensures
        !app.frame_done().needs_update,
        !app.frame_done().frame_pending,
        app.frame_done().settle() == app.frame_done(),
{
}

/// Whatever changes the board asks for it to be drawn.
pub proof fn changes_are_drawn(app: AppModel, event: Event)
    requires
        app.on(event).board != app.board,
    ensures
        app.on(event).needs_update,
{
}

/// Pausing twice leaves the clock as it was.
pub proof fn pause_undoes_pause(app: AppModel, heading: Heading)
    ensures
        app.obey(Command::Pause, heading).obey(Command::Pause, heading) == app,
{
}

/// While the game is paused the clock does nothing.
pub proof fn paused_stands_still(app: AppModel)
    requires
        app.paused,
    ensures
        app.tick() == app,
{
}

/// Where the limit is not reached, slower undoes faster and faster undoes
/// slower.
pub proof fn speed_can_be_undone(app: AppModel, heading: Heading)
    requires
        app.wf(),
    ensures
        app.tick_millis > 100 ==> app.obey(Command::Faster, heading).obey(
            Command::Slower,
            heading,
        ) == app,
        app.tick_millis < 1000 ==> app.obey(Command::Slower, heading).obey(
            Command::Faster,
            heading,
        ) == app,
{
}

/// A key that means nothing, and a key that goes up, change nothing.
pub proof fn other_keys_are_ignored(app: AppModel, keysym: u32, pressed: bool, heading: Heading)
    requires
        !pressed || command_for(keysym) is None,
    ensures
        app.key(keysym, pressed, heading) == app,
{
}

/// Until the pointer frame ends, moving the pointer and pressing buttons changes
/// neither the board nor where the pointer is taken to be; of several moves, and
/// of several buttons, the last one counts.
pub proof fn pointer_waits(app: AppModel, x: nat, y: nat, button: u32, pressed: bool)
    ensures
        app.motion(x, y).board == app.board,
        app.motion(x, y).pointer_pos == app.pointer_pos,
        app.button(button, pressed).board == app.board,
        forall|a: nat, b: nat| #[trigger] app.motion(a, b).motion(x, y) == app.motion(x, y),
        forall|c: u32, p: bool| #[trigger]
            app.button(c, p).button(button, pressed) == app.button(button, pressed),
        app.motion(x, y).button(button, pressed) == app.button(button, pressed).motion(x, y),
{
}

/// A pointer frame takes effect once.
pub proof fn pointer_frame_once(app: AppModel)
    ensures
        app.pointer_frame().pointer_frame() == app.pointer_frame(),
{
}

/// Pressing the left button on a pixel of the window brings the cell under it to
/// life, pressing the right one kills it, and every other cell stays as it is.
pub proof fn click_sets_cell(app: AppModel, x: nat, y: nat, button: u32, cx: int, cy: int)
    requires
        app.wf(),
        x < 600,
        y < 600,
        button == BTN_LEFT || button == BTN_RIGHT,
        0 <= cx < 50,
        0 <= cy < 50,
    ensures
        ({
            let clicked = app.motion(x, y).button(button, true).pointer_frame();
            &&& clicked.board.torus(cx, cy) == (if cx == x as int / 12 && cy == y as int / 12 {
                if button == BTN_LEFT {
                    Cell::Alive
                } else {
                    Cell::Dead
                }
            } else {
                app.board.torus(cx, cy)
            })
            &&& clicked.needs_update
        }),
{
    let clicked = app.motion(x, y).button(button, true).pointer_frame();
    names_are_places(app.board, cx, cy);
    names_are_places(app.board, x as int / 12, y as int / 12);
    names_are_places(clicked.board, cx, cy);
}

} // verus!
