use chip8::input::Input;
use chip8::key_input::KeyInput;

#[test]
fn keyinput_check_key_is_non_consuming() {
    let mut k = KeyInput::new();
    assert!(!k.check_key(5));
    k.key_press(5);
    assert!(k.check_key(5));
    assert!(k.check_key(5));
    k.key_release(5);
    assert!(!k.check_key(5));
}

#[test]
fn keyinput_check_all_keys_returns_lowest_and_resets() {
    let mut k = KeyInput::new();
    assert_eq!(k.check_all_keys(), None);
    k.key_press(9);
    k.key_press(4);
    assert_eq!(k.check_all_keys(), Some(4));
    // The query reset the whole table.
    assert!(!k.check_key(4));
    assert!(!k.check_key(9));
    assert_eq!(k.check_all_keys(), None);
}

#[test]
fn keyinput_reset_clears_everything() {
    let mut k = KeyInput::new();
    k.key_press(0);
    k.key_press(15);
    k.reset();
    assert!(!k.check_key(0));
    assert!(!k.check_key(15));
}

#[test]
fn input_check_key_consumes_the_press() {
    let mut k = Input::new();
    k.key_press(7);
    assert!(k.check_key(7));
    // Reading a key through Input clears it: each press observed once.
    assert!(!k.check_key(7));
}

#[test]
fn input_check_all_keys_returns_lowest_and_resets() {
    let mut k = Input::new();
    assert_eq!(k.check_all_keys(), None);
    k.key_press(11);
    k.key_press(3);
    assert_eq!(k.check_all_keys(), Some(3));
    assert!(!k.check_key(3));
    assert!(!k.check_key(11));
}
