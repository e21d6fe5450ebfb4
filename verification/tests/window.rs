use game_of_life::canvas::draw;
use game_of_life::glider::Heading;
use game_of_life::keys::{
    BTN_LEFT, BTN_RIGHT, KEY_C, KEY_DOWN, KEY_MINUS, KEY_PLUS, KEY_Q, KEY_R, KEY_SPACE, KEY_UP,
};
use game_of_life::pool::BufferPool;
use game_of_life::{AppState, Cell, GameOfLife};

const BUFFER_SIZE: usize = 600 * 600 * 4;

fn memory() -> Vec<u8> {
    vec![0x77; 3 * BUFFER_SIZE]
}

fn press(app: &mut AppState, keysym: u32) {
    app.key(keysym, true, Heading::SouthEast);
}

fn click(app: &mut AppState, x: usize, y: usize, button: u32) {
    app.motion(x, y);
    app.button(button, true);
    app.pointer_frame();
}

fn living(app: &AppState) -> Vec<(usize, usize)> {
    let mut all = Vec::new();
    for y in 0..50 {
        for x in 0..50 {
            if app.game().at(x, y).unwrap().is_alive() {
                all.push((x, y));
            }
        }
    }
    all
}

const START: [(usize, usize); 10] = [
    (0, 30),
    (1, 31),
    (2, 31),
    (0, 32),
    (1, 32),
    (0, 40),
    (1, 41),
    (2, 41),
    (0, 42),
    (1, 42),
];

#[test]
fn window_starts_with_two_gliders() {
    let mut app = AppState::new();
    assert_eq!(living(&app), START.to_vec());
    assert_eq!(app.game().get_width(), 50);
    assert_eq!(app.game().get_height(), 50);
    assert!(!app.is_paused());
    assert_eq!(app.tick_millis(), 400);
    let settled = app.settle();
    assert!(!settled.stop);
    assert!(!settled.request_frame);
}

#[test]
fn both_gliders_glide() {
    let mut app = AppState::new();
    for _ in 0..4 {
        assert_eq!(app.tick(), 400);
    }
    let moved: Vec<(usize, usize)> = START.iter().map(|(x, y)| (x + 1, y + 1)).collect();
    assert_eq!(living(&app), moved);
}

#[test]
fn pool_layout() {
    let app = AppState::new();
    let pool = app.pool();
    assert_eq!((pool.width(), pool.height()), (600, 600));
    assert_eq!(pool.stride(), 2400);
    assert_eq!(pool.buffer_size(), 1_440_000);
    assert_eq!(pool.total_size(), 4_320_000);
    assert_eq!((pool.offset(0), pool.offset(1), pool.offset(2)), (0, 1_440_000, 2_880_000));
}

#[test]
fn buffers_go_out_and_come_back() {
    let mut pool = BufferPool::new(5, 2);
    assert_eq!(pool.stride(), 20);
    assert_eq!(pool.buffer_size(), 40);
    assert_eq!(pool.total_size(), 120);
    assert_eq!(pool.acquire(), Some(0));
    assert!(pool.is_busy(0));
    assert_eq!(pool.acquire(), Some(1));
    assert_eq!(pool.acquire(), Some(2));
    assert_eq!(pool.acquire(), None);
    pool.release(1);
    assert!(!pool.is_busy(1));
    assert_eq!(pool.acquire(), Some(1));
    assert_eq!(pool.acquire(), None);
    pool.release(2);
    pool.release(0);
    assert_eq!(pool.acquire(), Some(0));
    assert_eq!(pool.acquire(), Some(2));
}

#[test]
fn drawing_a_small_game() {
    // Two by two cells, 24 rows of pixels with 16 spare bytes each, from byte 5 on.
    let mut game = GameOfLife::new(2, 2);
    game.set_alive(1, 0);
    let stride = 2 * 48 + 16;
    let mut memory = vec![0x77; 5 + 24 * stride + 9];
    draw(&game, 24, stride, &mut memory, 5);
    for (k, byte) in memory.iter().enumerate() {
        let expected = if k < 5 || k >= 5 + 24 * stride {
            0x77
        } else {
            let (x, y) = ((k - 5) % stride / 4, (k - 5) / stride);
            if x >= 24 {
                0x77
            } else if x >= 12 && y < 12 {
                0xFF
            } else if (k - 5) % stride % 4 == 3 {
                0xFF
            } else {
                0x00
            }
        };
        assert_eq!(*byte, expected, "byte {k}");
    }
}

#[test]
fn drawing_nothing() {
    let mut memory = vec![0x77; 40];
    draw(&GameOfLife::new(0, 3), 4, 10, &mut memory, 0);
    draw(&GameOfLife::new(1, 1), 0, 10, &mut memory, 3);
    assert_eq!(memory, vec![0x77; 40]);
}

#[test]
fn configuring_draws_the_window() {
    let mut app = AppState::new();
    let mut memory = memory();
    assert_eq!(app.configure(&mut memory), Some(0));
    for y in 0..600 {
        for x in 0..600 {
            let alive = START.contains(&(x / 12, y / 12));
            let white = [0xFF; 4];
            let black = [0x00, 0x00, 0x00, 0xFF];
            let p = y * 2400 + x * 4;
            assert_eq!(memory[p..p + 4], if alive { white } else { black });
        }
    }
    assert!(memory[BUFFER_SIZE..].iter().all(|byte| *byte == 0x77));
    assert!(app.pool().is_busy(0));
}

#[test]
fn frame_is_skipped_without_a_buffer() {
    let mut app = AppState::new();
    let mut memory = memory();
    for index in 0..3 {
        assert_eq!(app.render_grid(&mut memory), Some(index));
    }
    let before = memory.clone();
    press(&mut app, KEY_C);
    assert_eq!(app.frame_done(&mut memory), None);
    assert!(memory == before);
    assert!(!app.settle().request_frame);
    app.release(1);
    assert_eq!(app.render_grid(&mut memory), Some(1));
    assert!(memory[..BUFFER_SIZE] == before[..BUFFER_SIZE]);
    assert!(memory[2 * BUFFER_SIZE..] == before[2 * BUFFER_SIZE..]);
    assert!(memory[BUFFER_SIZE..2 * BUFFER_SIZE] != before[BUFFER_SIZE..2 * BUFFER_SIZE]);
}

#[test]
fn frames_are_asked_for_once() {
    let mut app = AppState::new();
    let mut memory = memory();
    app.tick();
    // Not configured yet
    assert!(!app.settle().request_frame);
    app.configure(&mut memory);
    assert!(app.settle().request_frame);
    assert!(!app.settle().request_frame);
    app.tick();
    assert!(!app.settle().request_frame);
    app.frame_done(&mut memory);
    assert!(!app.settle().request_frame);
    app.tick();
    assert!(app.settle().request_frame);
}

#[test]
fn request_frame_only_without_one_pending() {
    let mut app = AppState::new();
    assert!(app.request_frame());
    assert!(!app.request_frame());
    app.frame_done(&mut memory());
    assert!(app.request_frame());
}

#[test]
fn pausing() {
    let mut app = AppState::new();
    press(&mut app, KEY_SPACE);
    assert!(app.is_paused());
    assert_eq!(app.tick(), 400);
    assert_eq!(living(&app), START.to_vec());
    press(&mut app, KEY_SPACE);
    assert!(!app.is_paused());
    app.tick();
    assert_ne!(living(&app), START.to_vec());
}

#[test]
fn speed_has_limits() {
    let mut app = AppState::new();
    for millis in [300, 200, 100, 100] {
        press(&mut app, KEY_PLUS);
        assert_eq!(app.tick_millis(), millis);
    }
    for millis in [200, 300, 400, 500, 600, 700, 800, 900, 1000, 1000] {
        press(&mut app, KEY_MINUS);
        assert_eq!(app.tick_millis(), millis);
    }
    press(&mut app, KEY_UP);
    assert_eq!(app.tick(), 900);
    press(&mut app, KEY_DOWN);
    assert_eq!(app.tick(), 1000);
}

#[test]
fn keys_ask_for_drawing() {
    for keysym in [KEY_SPACE, KEY_PLUS, KEY_MINUS, KEY_UP, KEY_DOWN, KEY_R, KEY_C, KEY_Q] {
        let mut app = AppState::new();
        app.configure(&mut memory());
        press(&mut app, keysym);
        let settled = app.settle();
        assert!(settled.request_frame);
        assert_eq!(settled.stop, keysym == KEY_Q);
    }
}

#[test]
fn other_keys_are_ignored() {
    let mut app = AppState::new();
    app.configure(&mut memory());
    press(&mut app, 0x61);
    app.key(KEY_Q, false, Heading::SouthEast);
    app.key(KEY_C, false, Heading::SouthEast);
    let settled = app.settle();
    assert!(!settled.request_frame);
    assert!(!settled.stop);
    assert_eq!(living(&app), START.to_vec());
}

#[test]
fn handle_key_is_a_key_going_down() {
    let mut app = AppState::new();
    app.handle_key(KEY_C, Heading::SouthEast);
    assert_eq!(living(&app), vec![]);
    app.handle_key(0, Heading::SouthEast);
    assert!(!app.is_paused());
}

#[test]
fn glider_goes_where_the_pointer_is() {
    let mut app = AppState::new();
    press(&mut app, KEY_C);
    app.motion(125, 250);
    // The pointer frame has not ended
    app.key(KEY_R, true, Heading::NorthWest);
    assert_eq!(living(&app), vec![(1, 0), (2, 0), (0, 1), (1, 1), (2, 2)]);
    press(&mut app, KEY_C);
    app.pointer_frame();
    app.key(KEY_R, true, Heading::SouthEast);
    assert_eq!(living(&app), vec![(10, 20), (11, 21), (12, 21), (10, 22), (11, 22)]);
}

#[test]
fn closing_stays() {
    let mut app = AppState::new();
    app.close();
    assert!(app.settle().stop);
    press(&mut app, KEY_SPACE);
    app.tick();
    assert!(app.settle().stop);
}

#[test]
fn devices_are_bound_once() {
    let mut app = AppState::new();
    let bindings = app.seat(true, false);
    assert!(bindings.keyboard && !bindings.pointer);
    let bindings = app.seat(true, true);
    assert!(!bindings.keyboard && bindings.pointer);
    let bindings = app.seat(false, false);
    assert!(!bindings.keyboard && !bindings.pointer);
    let bindings = app.seat(true, true);
    assert!(!bindings.keyboard && !bindings.pointer);
}

#[test]
fn clicks_set_cells() {
    let mut app = AppState::new();
    app.configure(&mut memory());
    press(&mut app, KEY_C);
    app.frame_done(&mut memory());
    click(&mut app, 59, 23, BTN_LEFT);
    assert_eq!(living(&app), vec![(4, 1)]);
    assert!(app.settle().request_frame);
    click(&mut app, 48, 12, BTN_RIGHT);
    assert_eq!(living(&app), vec![]);
    click(&mut app, 599, 599, BTN_LEFT);
    assert_eq!(living(&app), vec![(49, 49)]);
    click(&mut app, usize::MAX, usize::MAX, BTN_LEFT);
    assert_eq!(living(&app), vec![(49, 49)]);
}

#[test]
fn other_buttons_only_ask_for_drawing() {
    let mut app = AppState::new();
    app.configure(&mut memory());
    click(&mut app, 59, 23, 0x112);
    assert_eq!(living(&app), START.to_vec());
    assert!(app.settle().request_frame);
}

#[test]
fn pointer_waits_for_the_end_of_its_frame() {
    let mut app = AppState::new();
    app.configure(&mut memory());
    press(&mut app, KEY_C);
    app.frame_done(&mut memory());
    app.button(BTN_RIGHT, true);
    app.motion(10, 10);
    app.motion(30, 40);
    app.button(BTN_LEFT, true);
    assert_eq!(living(&app), vec![]);
    assert!(!app.settle().request_frame);
    app.pointer_frame();
    assert_eq!(living(&app), vec![(2, 3)]);
    // A button that goes up does nothing, nor does a second end
    app.frame_done(&mut memory());
    press(&mut app, KEY_C);
    app.frame_done(&mut memory());
    app.button(BTN_LEFT, false);
    app.pointer_frame();
    app.pointer_frame();
    assert_eq!(living(&app), vec![]);
    assert!(!app.settle().request_frame);
    // The pointer is still where it was
    app.button(BTN_LEFT, true);
    app.pointer_frame();
    assert_eq!(app.game().at(2, 3), Some(Cell::Alive));
}
