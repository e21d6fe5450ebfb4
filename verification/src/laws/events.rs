//! What each event does to the window, and what it leaves alone: where a law
//! says that a state with some of its parts put back is the state before, the
//! event touches nothing but those parts.

use vstd::prelude::*;

use crate::board::Board;
use crate::cell::Cell;
use crate::glider::Heading;
use crate::keys::{
    command_for, Command, BTN_LEFT, BTN_RIGHT, KEY_C, KEY_DOWN, KEY_MINUS, KEY_PLUS, KEY_Q, KEY_R,
    KEY_SPACE, KEY_UP,
};
use crate::laws::drawing::acquired_cell_by_cell;
use crate::laws::gliding::spawning_sets_five_cells;
use crate::model::AppModel;

verus! {

impl AppModel {
    /// The window after the clock has run down a number of times.
    pub open spec fn ticks(self, times: nat) -> AppModel
        decreases times,
    {
        if times == 0 {
            self
        } else {
            self.ticks((times - 1) as nat).tick()
        }
    }
}

/// At its start the window is neither left nor configured, nothing is pending,
/// bound, held or paused, and exactly the ten cells of two gliders are alive.
pub proof fn start_of_the_window(x: int, y: int)
    requires
        0 <= x < 50,
        0 <= y < 50,
    ensures
        ({
            let start = AppModel::initial();
            &&& !start.quit && !start.configured && !start.frame_pending && !start.needs_update
            &&& !start.paused && start.tick_millis == 400
            &&& !start.keyboard && !start.pointer && start.pointer_pos == (0nat, 0nat)
            &&& start.motion is None && start.button is None
            &&& start.pool.width == 600 && start.pool.height == 600
            &&& start.pool.busy.len() == 3
            &&& !start.pool.busy[0] && !start.pool.busy[1] && !start.pool.busy[2]
            &&& start.board.width == 50 && start.board.height == 50
            &&& start.board.cells.len() == 2500
            &&& start.board.cells[x + y * 50] == Cell::Alive <==> {
                ||| x == 0 && (y == 30 || y == 32 || y == 40 || y == 42)
                ||| x == 1 && (y == 31 || y == 32 || y == 41 || y == 42)
                ||| x == 2 && (y == 31 || y == 41)
            }
        }),
{
    let empty = Board::empty(50, 50);
    let one = empty.with_glider(0, 30, Heading::SouthEast);
    spawning_sets_five_cells(empty, 0, 30, Heading::SouthEast, x + y * 50);
    spawning_sets_five_cells(one, 0, 40, Heading::SouthEast, x + y * 50);
}

/// Every state of the right sizes, with a time between generations that the keys
/// can set, is one that events can be handled in.
pub proof fn ordinary_states_are_well_formed(app: AppModel)
    requires
        app.board.width == 50,
        app.board.height == 50,
        app.board.cells.len() == 2500,
        exists|n: nat| 1 <= n <= 10 && app.tick_millis == #[trigger] (n * 100),
        app.pool.width == 600,
        app.pool.height == 600,
        app.pool.busy.len() == 3,
    ensures
        app.wf(),
{
}

/// While the game is not paused, every run of the clock is one generation, in
/// whatever state the window is, and asks for drawing.
pub proof fn running_clock_steps(app: AppModel)
    requires
        !app.paused,
    ensures
        app.tick().board == app.board.step(),
        app.tick().needs_update,
{
}

/// The clock touches nothing but the board and whether it needs drawing.
pub proof fn clock_touches_the_board(app: AppModel)
    ensures
        (AppModel { board: app.board, needs_update: app.needs_update, ..app.tick() }) == app,
{
}

/// The clock of a game that is not paused counts the generations.
pub proof fn running_clock_counts_generations(app: AppModel, times: nat)
    requires
        !app.paused,
    ensures
        app.ticks(times).board == app.board.after(times),
        times > 0 ==> app.ticks(times).needs_update,
        (AppModel { board: app.board, needs_update: app.needs_update, ..app.ticks(times) }) == app,
    decreases times,
{
    if times > 0 {
        running_clock_counts_generations(app, (times - 1) as nat);
        running_clock_steps(app.ticks((times - 1) as nat));
        clock_touches_the_board(app.ticks((times - 1) as nat));
    }
}

/// Asking for the moment to draw makes it pending and touches nothing else.
pub proof fn asking_makes_pending(app: AppModel)
    ensures
        app.request_frame().frame_pending,
        (AppModel { frame_pending: app.frame_pending, ..app.request_frame() }) == app,
{
}

/// The moment to draw is asked for exactly if something is to be drawn on a
/// configured window and nothing is pending; it is asked for exactly if it gets
/// pending by that; and nothing else is touched.
pub proof fn settling_asks(app: AppModel)
    ensures
        app.wants_frame() <==> app.needs_update && app.configured && !app.frame_pending,
        app.wants_frame() <==> app.settle().frame_pending && !app.frame_pending,
        app.frame_pending ==> app.settle().frame_pending,
        (AppModel { frame_pending: app.frame_pending, ..app.settle() }) == app,
{
}

/// After drawing, a buffer is held exactly if it was, or if all before it were;
/// nothing else is touched.
pub proof fn rendering_takes_a_buffer(app: AppModel, index: int)
    requires
        0 <= index < app.pool.busy.len(),
    ensures
        app.render().pool.busy[index] <==> app.pool.busy[index] || (forall|j: int|
            0 <= j < index ==> #[trigger] app.pool.busy[j]),
        app.render().pool.busy.len() == app.pool.busy.len(),
        app.render().pool.width == app.pool.width,
        app.render().pool.height == app.pool.height,
        (AppModel { pool: app.pool, ..app.render() }) == app,
{
    acquired_cell_by_cell(app.pool, index);
}

/// Configuring draws, as drawing alone does, and makes the window configured;
/// nothing else is touched.
pub proof fn configuring_draws(app: AppModel)
    ensures
        app.configure().configured,
        app.configure().pool == app.render().pool,
        (AppModel { configured: app.configured, pool: app.pool, ..app.configure() }) == app,
{
}

/// On the compositor's word the game is drawn, as drawing alone does; nothing is
/// pending or to be drawn then, and nothing else is touched.
pub proof fn word_to_draw_draws(app: AppModel)
    ensures
        !app.frame_done().frame_pending,
        !app.frame_done().needs_update,
        app.frame_done().pool == app.render().pool,
        (AppModel {
            frame_pending: app.frame_pending,
            needs_update: app.needs_update,
            pool: app.pool,
            ..app.frame_done()
        }) == app,
{
}

/// A buffer that comes back is free, every other one is as it was, and nothing
/// else is touched.
pub proof fn releasing_frees_one_buffer(app: AppModel, index: int, other: int)
    requires
        0 <= index < app.pool.busy.len(),
        0 <= other < app.pool.busy.len(),
    ensures
        !app.release(index).pool.busy[index],
        other != index ==> app.release(index).pool.busy[other] == app.pool.busy[other],
        app.release(index).pool.busy.len() == app.pool.busy.len(),
        app.release(index).pool.width == app.pool.width,
        app.release(index).pool.height == app.pool.height,
        (AppModel { pool: app.pool, ..app.release(index) }) == app,
{
}

/// Closing the window asks for leaving and touches nothing else.
pub proof fn closing_asks_for_leaving(app: AppModel)
    ensures
        app.close().quit,
        (AppModel { quit: app.quit, ..app.close() }) == app,
{
}

/// Each device is bound when the seat has it and it is not bound yet, whatever
/// the other one is; it counts as bound from then on, and not before; nothing
/// else is touched.
pub proof fn devices_are_bound_apart(app: AppModel, has_keyboard: bool, has_pointer: bool)
    ensures
        app.binds_keyboard(has_keyboard) <==> has_keyboard && !app.keyboard,
        app.binds_pointer(has_pointer) <==> has_pointer && !app.pointer,
        app.seat(has_keyboard, has_pointer).keyboard <==> app.keyboard || app.binds_keyboard(
            has_keyboard,
        ),
        app.seat(has_keyboard, has_pointer).pointer <==> app.pointer || app.binds_pointer(
            has_pointer,
        ),
        (AppModel {
            keyboard: app.keyboard,
            pointer: app.pointer,
            ..app.seat(has_keyboard, has_pointer)
        }) == app,
{
}

/// Which key symbols give which command, and that no others give one.
pub proof fn keys_and_commands(keysym: u32)
    ensures
        command_for(keysym) == Some(Command::Pause) <==> keysym == 0x20,
        command_for(keysym) == Some(Command::Faster) <==> keysym == 0x2b || keysym == 0xff52,
        command_for(keysym) == Some(Command::Slower) <==> keysym == 0x2d || keysym == 0xff54,
        command_for(keysym) == Some(Command::Glider) <==> keysym == 0x72,
        command_for(keysym) == Some(Command::Clear) <==> keysym == 0x63,
        command_for(keysym) == Some(Command::Quit) <==> keysym == 0x71,
{
}

/// A key counts when it goes down, and only if it is one of the eight.
pub proof fn keys_count_when_they_go_down(app: AppModel, keysym: u32, heading: Heading)
    ensures
        app.key(keysym, false, heading) == app,
        app.key(keysym, true, heading) == app.handle_key(keysym, heading),
        keysym != KEY_SPACE && keysym != KEY_PLUS && keysym != KEY_UP && keysym != KEY_MINUS
            && keysym != KEY_DOWN && keysym != KEY_R && keysym != KEY_C && keysym != KEY_Q
            ==> app.handle_key(keysym, heading) == app,
{
}

/// Every one of the eight keys asks for drawing.
pub proof fn keys_ask_for_drawing(app: AppModel, keysym: u32, heading: Heading)
    requires
        keysym == KEY_SPACE || keysym == KEY_PLUS || keysym == KEY_UP || keysym == KEY_MINUS
            || keysym == KEY_DOWN || keysym == KEY_R || keysym == KEY_C || keysym == KEY_Q,
    ensures
        app.key(keysym, true, heading).needs_update,
{
}

/// In any state space stops a clock that goes and starts one that stands, and
/// touches nothing else.
pub proof fn space_turns_the_clock(app: AppModel, heading: Heading)
    ensures
        ({
            let after = app.key(KEY_SPACE, true, heading);
            &&& after.paused != app.paused
            &&& (AppModel { paused: app.paused, needs_update: app.needs_update, ..after }) == app
        }),
{
}

/// In any state plus and up take a tenth of a second off the time between
/// generations, minus and down add one; a tenth is the least that stays, and ten
/// are the most. Nothing else is touched.
pub proof fn speed_keys_change_the_time(app: AppModel, heading: Heading)
    requires
        100 <= app.tick_millis <= 1000,
    ensures
        ({
            let faster = app.key(KEY_PLUS, true, heading);
            let slower = app.key(KEY_MINUS, true, heading);
            let time = app.tick_millis;
            &&& app.key(KEY_UP, true, heading) == faster
            &&& app.key(KEY_DOWN, true, heading) == slower
            &&& 100 <= faster.tick_millis <= time <= slower.tick_millis <= 1000
            &&& faster.tick_millis == 100 || time - faster.tick_millis == 100
            &&& time - faster.tick_millis <= 100
            &&& slower.tick_millis == 1000 || slower.tick_millis - time == 100
            &&& slower.tick_millis - time <= 100
            &&& (AppModel { tick_millis: time, needs_update: app.needs_update, ..faster }) == app
            &&& (AppModel { tick_millis: time, needs_update: app.needs_update, ..slower }) == app
        }),
{
}

/// In any state `r` spawns a glider of the given heading in the square that the
/// pointer is in, twelve pixels to a cell, and touches nothing else.
pub proof fn r_spawns_where_the_pointer_is(app: AppModel, heading: Heading)
    ensures
        ({
            let after = app.key(KEY_R, true, heading);
            &&& after.board == app.board.with_glider(
                app.pointer_pos.0 as int / 12,
                app.pointer_pos.1 as int / 12,
                heading,
            )
            &&& (AppModel { board: app.board, needs_update: app.needs_update, ..after }) == app
        }),
{
}

/// In any state, paused or not, `c` leaves a board of the same size on which
/// every cell is dead, and touches nothing else.
pub proof fn c_kills_every_cell(app: AppModel, heading: Heading, i: int)
    ensures
        ({
            let after = app.key(KEY_C, true, heading);
            &&& after.board.width == app.board.width
            &&& after.board.height == app.board.height
            &&& after.board.cells.len() == app.board.width * app.board.height
            &&& 0 <= i < after.board.cells.len() ==> after.board.cells[i] == Cell::Dead
            &&& (AppModel { board: app.board, needs_update: app.needs_update, ..after }) == app
        }),
{
}

/// In any state `q` asks for leaving and touches nothing else.
pub proof fn q_asks_for_leaving(app: AppModel, heading: Heading)
    ensures
        ({
            let after = app.key(KEY_Q, true, heading);
            &&& after.quit
            &&& (AppModel { quit: app.quit, needs_update: app.needs_update, ..after }) == app
        }),
{
}

/// A move and a button are kept until the pointer frame ends and touch nothing
/// before.
pub proof fn pointer_events_are_kept(app: AppModel, x: nat, y: nat, button: u32, pressed: bool)
    ensures
        app.motion(x, y).motion == Some((x, y)),
        (AppModel { motion: app.motion, ..app.motion(x, y) }) == app,
        app.button(button, pressed).button == Some((button, pressed)),
        (AppModel { button: app.button, ..app.button(button, pressed) }) == app,
{
}

/// At the end of a pointer frame the pointer is where it last moved to, or where
/// it was; what was kept is used up. If the last button went down, the cell that
/// the pointer is on then is alive for the left button and dead for the right
/// one, and drawing is asked for. No other cell, and nothing else, is touched.
pub proof fn pointer_frame_takes_effect(app: AppModel, i: int)
    requires
        0 <= i < app.board.cells.len(),
    ensures
        BTN_LEFT == 0x110,
        BTN_RIGHT == 0x111,
        ({
            let after = app.pointer_frame();
            let (x, y) = after.pointer_pos;
            let here = i == x as int / 12 + (y as int / 12) * app.board.height;
            let left = app.button == Some((0x110u32, true));
            let right = app.button == Some((0x111u32, true));
            &&& app.motion is Some ==> after.pointer_pos == app.motion.unwrap()
            &&& app.motion is None ==> after.pointer_pos == app.pointer_pos
            &&& after.motion is None && after.button is None
            &&& here && left ==> after.board.cells[i] == Cell::Alive
            &&& here && right ==> after.board.cells[i] == Cell::Dead
            &&& !here || !(left || right) ==> after.board.cells[i] == app.board.cells[i]
            &&& after.needs_update <==> app.needs_update || (app.button is Some
                && app.button.unwrap().1)
            &&& after.board.cells.len() == app.board.cells.len()
            &&& after.board.width == app.board.width
            &&& after.board.height == app.board.height
            &&& (AppModel {
                board: app.board,
                needs_update: app.needs_update,
                pointer_pos: app.pointer_pos,
                motion: app.motion,
                button: app.button,
                ..after
            }) == app
        }),
{
}

/// A pointer frame in which no button went down leaves the board as it is.
pub proof fn no_press_no_change(app: AppModel)
    requires
        app.button is None || !app.button.unwrap().1,
    ensures
        app.pointer_frame().board == app.board,
        app.pointer_frame().needs_update == app.needs_update,
{
}

/// Pressing a button on the cell that the pointer rests on, without moving,
/// brings the cell to life or kills it and leaves every other cell as it is.
pub proof fn click_where_the_pointer_rests(app: AppModel, button: u32, cx: int, cy: int)
    requires
        app.wf(),
        app.motion is None,
        app.pointer_pos.0 < 600,
        app.pointer_pos.1 < 600,
        button == BTN_LEFT || button == BTN_RIGHT,
        0 <= cx < 50,
        0 <= cy < 50,
    ensures
        ({
            let clicked = app.button(button, true).pointer_frame();
            let here = cx == app.pointer_pos.0 as int / 12 && cy == app.pointer_pos.1 as int / 12;
            &&& here && button == BTN_LEFT ==> clicked.board.cells[cx + cy * 50] == Cell::Alive
            &&& here && button == BTN_RIGHT ==> clicked.board.cells[cx + cy * 50] == Cell::Dead
            &&& !here ==> clicked.board.cells[cx + cy * 50] == app.board.cells[cx + cy * 50]
            &&& clicked.pointer_pos == app.pointer_pos
            &&& clicked.needs_update
        }),
{
}

/// Moving first and pressing in a later pointer frame does what moving and
/// pressing in one does.
pub proof fn moving_may_come_earlier(app: AppModel, x: nat, y: nat, button: u32, pressed: bool)
    requires
        app.button is None,
    ensures
        app.motion(x, y).pointer_frame().button(button, pressed).pointer_frame() == app.motion(
            x,
            y,
        ).button(button, pressed).pointer_frame(),
{
}

/// What a button does depends on the pixel only by the cell that it belongs to.
pub proof fn all_pixels_of_a_cell_are_alike(
    app: AppModel,
    x: nat,
    y: nat,
    a: nat,
    b: nat,
    button: u32,
)
    requires
        x as int / 12 == a as int / 12,
        y as int / 12 == b as int / 12,
    ensures
        app.motion(x, y).button(button, true).pointer_frame().board == app.motion(a, b).button(
            button,
            true,
        ).pointer_frame().board,
{
}

} // verus!
