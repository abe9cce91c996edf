use color_flipper::color::Color;
use color_flipper::ui::{Key, Ui, MAX_INPUT};

fn press(ui: &mut Ui, keys: &[Key]) {
    for key in keys {
        ui.update(Some(*key), false);
    }
}

fn type_hash(ui: &mut Ui) {
    ui.update(Some(Key::Key3), true);
}

#[test]
fn starts_red_and_empty() {
    let ui = Ui::default();
    assert_eq!(ui.color(), Color::new(0xff, 0x00, 0x00));
    assert_eq!(ui.input(), "");
}

#[test]
fn typing_appends_and_backspace_removes() {
    let mut ui = Ui::default();
    press(&mut ui, &[Key::Key1, Key::Key2]);
    assert_eq!(ui.input(), "12");
    press(&mut ui, &[Key::Backspace]);
    assert_eq!(ui.input(), "1");
}

#[test]
fn confirming_a_color_code_shows_it_and_clears() {
    let mut ui = Ui::default();
    type_hash(&mut ui);
    press(&mut ui, &[Key::Key0, Key::Key0, Key::F, Key::F, Key::Key0, Key::Key0]);
    assert_eq!(ui.input(), "#00ff00");
    assert_eq!(ui.color(), Color::new(255, 0, 0));
    press(&mut ui, &[Key::Enter]);
    assert_eq!(ui.color(), Color::new(0, 255, 0));
    assert_eq!(ui.input(), "");
}

#[test]
fn confirming_other_text_keeps_the_color_and_clears() {
    let mut ui = Ui::default();
    press(&mut ui, &[Key::F, Key::F, Key::Key0, Key::Key0, Key::Key0, Key::Key0, Key::Key0]);
    assert_eq!(ui.input(), "ff00000");
    press(&mut ui, &[Key::Enter]);
    assert_eq!(ui.color(), Color::new(255, 0, 0));
    assert_eq!(ui.input(), "");

    type_hash(&mut ui);
    press(&mut ui, &[Key::A, Key::B]);
    type_hash(&mut ui);
    press(&mut ui, &[Key::C, Key::D, Key::E]);
    assert_eq!(ui.input(), "#ab#cde");
    press(&mut ui, &[Key::Enter]);
    assert_eq!(ui.color(), Color::new(255, 0, 0));
    assert_eq!(ui.input(), "");

    type_hash(&mut ui);
    press(&mut ui, &[Key::A, Key::B]);
    press(&mut ui, &[Key::Enter]);
    assert_eq!(ui.color(), Color::new(255, 0, 0));
    assert_eq!(ui.input(), "");
}

#[test]
fn confirming_an_empty_entry_changes_nothing() {
    let mut ui = Ui::default();
    press(&mut ui, &[Key::Enter]);
    assert_eq!(ui.color(), Color::new(255, 0, 0));
    assert_eq!(ui.input(), "");
}

#[test]
fn a_confirmed_color_stays_until_the_next_one() {
    let mut ui = Ui::default();
    type_hash(&mut ui);
    press(&mut ui, &[Key::Key1, Key::Key2, Key::A, Key::B, Key::E, Key::F, Key::Enter]);
    assert_eq!(ui.color(), Color::new(0x12, 0xab, 0xef));
    press(&mut ui, &[Key::Key9, Key::Enter]);
    assert_eq!(ui.color(), Color::new(0x12, 0xab, 0xef));
    type_hash(&mut ui);
    press(&mut ui, &[Key::Key0, Key::Key0, Key::Key0, Key::Key0, Key::Key0, Key::Key0, Key::Enter]);
    assert_eq!(ui.color(), Color::new(0, 0, 0));
}

#[test]
fn the_entry_never_holds_more_than_seven_characters() {
    let mut ui = Ui::default();
    let keys = [Key::Key1, Key::Key2, Key::Key3, Key::Key4, Key::Key5, Key::Key6, Key::Key7];
    press(&mut ui, &keys);
    assert_eq!(ui.input(), "1234567");
    press(&mut ui, &[Key::Key8]);
    assert_eq!(ui.input(), "1234567");
    press(&mut ui, &[Key::Key9, Key::A, Key::F]);
    type_hash(&mut ui);
    assert_eq!(ui.input(), "1234567");
    assert_eq!(ui.input().chars().count(), MAX_INPUT);
    for _ in 0..100 {
        press(&mut ui, &keys);
        assert!(ui.input().chars().count() <= MAX_INPUT);
    }
    assert_eq!(ui.input(), "1234567");
}

#[test]
fn a_full_entry_takes_a_character_again_after_backspace() {
    let mut ui = Ui::default();
    press(&mut ui, &[Key::A, Key::A, Key::A, Key::A, Key::A, Key::A, Key::A, Key::B]);
    assert_eq!(ui.input(), "aaaaaaa");
    press(&mut ui, &[Key::Backspace, Key::B, Key::C]);
    assert_eq!(ui.input(), "aaaaaab");
}

#[test]
fn backspace_on_an_empty_entry_changes_nothing() {
    let mut ui = Ui::default();
    press(&mut ui, &[Key::Backspace]);
    assert_eq!(ui.input(), "");
    press(&mut ui, &[Key::Key5, Key::Backspace, Key::Backspace, Key::Backspace]);
    assert_eq!(ui.input(), "");
    assert_eq!(ui.color(), Color::new(255, 0, 0));
}

#[test]
fn each_key_types_its_character() {
    let table = [
        (Key::Key0, '0'),
        (Key::Key1, '1'),
        (Key::Key2, '2'),
        (Key::Key3, '3'),
        (Key::Key4, '4'),
        (Key::Key5, '5'),
        (Key::Key6, '6'),
        (Key::Key7, '7'),
        (Key::Key8, '8'),
        (Key::Key9, '9'),
        (Key::A, 'a'),
        (Key::B, 'b'),
        (Key::C, 'c'),
        (Key::D, 'd'),
        (Key::E, 'e'),
        (Key::F, 'f'),
    ];
    for (key, ch) in table {
        let mut ui = Ui::default();
        ui.update(Some(key), false);
        assert_eq!(ui.input(), ch.to_string());
    }
}

#[test]
fn shift_changes_only_the_three_key() {
    let mut ui = Ui::default();
    ui.update(Some(Key::Key3), true);
    assert_eq!(ui.input(), "#");
    ui.update(Some(Key::Key3), false);
    assert_eq!(ui.input(), "#3");
    ui.update(Some(Key::Key4), true);
    ui.update(Some(Key::A), true);
    assert_eq!(ui.input(), "#34a");
    ui.update(Some(Key::Backspace), true);
    assert_eq!(ui.input(), "#34");
    ui.update(Some(Key::Enter), true);
    assert_eq!(ui.input(), "");
}

#[test]
fn other_keys_and_idle_ticks_change_nothing() {
    let mut ui = Ui::default();
    press(&mut ui, &[Key::Key7, Key::E]);
    ui.update(Some(Key::Other), false);
    ui.update(Some(Key::Other), true);
    ui.update(None, false);
    ui.update(None, true);
    assert_eq!(ui.input(), "7e");
    assert_eq!(ui.color(), Color::new(255, 0, 0));
}
