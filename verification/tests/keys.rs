use game_of_life::keys::{
    keymap_code, Command, KEY_C, KEY_DOWN, KEY_MINUS, KEY_PLUS, KEY_Q, KEY_R, KEY_SPACE, KEY_UP,
};
use xkeysym::Keysym;

#[test]
fn keys_are_those_of_the_keymap() {
    assert_eq!(KEY_SPACE, Keysym::space.raw());
    assert_eq!(KEY_PLUS, Keysym::plus.raw());
    assert_eq!(KEY_MINUS, Keysym::minus.raw());
    assert_eq!(KEY_UP, Keysym::Up.raw());
    assert_eq!(KEY_DOWN, Keysym::Down.raw());
    assert_eq!(KEY_R, Keysym::r.raw());
    assert_eq!(KEY_C, Keysym::c.raw());
    assert_eq!(KEY_Q, Keysym::q.raw());
}

#[test]
fn keys_give_commands() {
    assert_eq!(Command::from_keysym(Keysym::space.raw()), Some(Command::Pause));
    assert_eq!(Command::from_keysym(Keysym::plus.raw()), Some(Command::Faster));
    assert_eq!(Command::from_keysym(Keysym::Up.raw()), Some(Command::Faster));
    assert_eq!(Command::from_keysym(Keysym::minus.raw()), Some(Command::Slower));
    assert_eq!(Command::from_keysym(Keysym::Down.raw()), Some(Command::Slower));
    assert_eq!(Command::from_keysym(Keysym::r.raw()), Some(Command::Glider));
    assert_eq!(Command::from_keysym(Keysym::c.raw()), Some(Command::Clear));
    assert_eq!(Command::from_keysym(Keysym::q.raw()), Some(Command::Quit));
    assert_eq!(Command::from_keysym(Keysym::R.raw()), None);
    assert_eq!(Command::from_keysym(Keysym::Left.raw()), None);
    assert_eq!(Command::from_keysym(0), None);
}

#[test]
fn keymap_codes() {
    assert_eq!(keymap_code(0), 8);
    assert_eq!(keymap_code(57), 65);
    assert_eq!(keymap_code(u32::MAX - 8), u32::MAX);
}
