//! The entry state: the displayed color and the text typed so far, and how
//! a key press changes them.

use vstd::prelude::*;
use crate::color::{parse_color, Color};
use core::str::FromStr;

verus! {

/// The most characters the entry holds.
pub const MAX_INPUT: usize = 7;

/// The keys the entry tells apart; every other key is `Other`.
#[derive(Clone, Copy, Debug, PartialEq, Eq, Structural)]
pub enum Key {
    Key0,
    Key1,
    Key2,
    Key3,
    Key4,
    Key5,
    Key6,
    Key7,
    Key8,
    Key9,
    A,
    B,
    C,
    D,
    E,
    F,
    Enter,
    Backspace,
    Other,
}

/// The characters that can be typed into the entry.
pub open spec fn is_input_char(c: char) -> bool {
    '0' <= c <= '9' || 'a' <= c <= 'f' || c == '#'
}

/// The character a key types, given whether shift is held: digits and the
/// letters `a` to `f` type themselves, and shift with `3` types `#`.
pub open spec fn key_char(key: Key, shift: bool) -> Option<char> {
    match key {
        Key::Key0 => Some('0'),
        Key::Key1 => Some('1'),
        Key::Key2 => Some('2'),
        Key::Key3 => Some(if shift { '#' } else { '3' }),
        Key::Key4 => Some('4'),
        Key::Key5 => Some('5'),
        Key::Key6 => Some('6'),
        Key::Key7 => Some('7'),
        Key::Key8 => Some('8'),
        Key::Key9 => Some('9'),
        Key::A => Some('a'),
        Key::B => Some('b'),
        Key::C => Some('c'),
        Key::D => Some('d'),
        Key::E => Some('e'),
        Key::F => Some('f'),
        Key::Enter | Key::Backspace | Key::Other => None,
    }
}

/// The entry as a value: the displayed color and the typed text.
pub struct UiState {
    pub color: Color,
    pub input: Seq<char>,
}

/// What every entry state satisfies: at most `MAX_INPUT` characters, all of
/// them typeable.
pub open spec fn well_formed(s: UiState) -> bool {
    &&& s.input.len() <= MAX_INPUT
    &&& forall|i: int| 0 <= i < s.input.len() ==> is_input_char(#[trigger] s.input[i])
}

/// The text after typing `c`: one longer, unless it is already full.
pub open spec fn typed(input: Seq<char>, c: char) -> Seq<char> {
    if input.len() < MAX_INPUT {
        input.push(c)
    } else {
        input
    }
}

/// The text after a backspace: one shorter, unless it is already empty.
pub open spec fn erased(input: Seq<char>) -> Seq<char> {
    if input.len() > 0 {
        input.drop_last()
    } else {
        input
    }
}

/// The color after confirming `input`: the one it writes, or, if it is no
/// color code, the color shown before.
pub open spec fn confirmed(color: Color, input: Seq<char>) -> Color {
    match parse_color(input) {
        Ok(parsed) => parsed,
        Err(_) => color,
    }
}

/// The state after one tick in which `key` was the last key pressed.
pub open spec fn step(s: UiState, key: Option<Key>, shift: bool) -> UiState {
    match key {
        None => s,
        Some(Key::Enter) => UiState { color: confirmed(s.color, s.input), input: Seq::empty() },
        Some(Key::Backspace) => UiState { color: s.color, input: erased(s.input) },
        Some(k) => match key_char(k, shift) {
            Some(c) => UiState { color: s.color, input: typed(s.input, c) },
            None => s,
        },
    }
}

/// The state after the ticks `events`, in order; each holds the key and
/// the shift state of one tick.
pub open spec fn run(s: UiState, events: Seq<(Option<Key>, bool)>) -> UiState
    decreases events.len(),
{
    if events.len() == 0 {
        s
    } else {
        step(run(s, events.drop_last()), events.last().0, events.last().1)
    }
}

/// The displayed color and the entry text.
pub struct Ui {
    color: Color,
    input: String,
}

impl View for Ui {
    type V = UiState;

    closed spec fn view(&self) -> UiState {
        UiState { color: self.color, input: self.input@ }
    }
}

impl Ui {
    #[verifier::type_invariant]
    spec fn inv(self) -> bool {
        well_formed(self@)
    }

    /// The color on display.
    pub fn color(&self) -> (c: Color)
        ensures
            c == self@.color,
    {
        self.color
    }

    /// The text typed so far.
    pub fn input(&self) -> (s: &str)
        ensures
            s@ == self@.input,
            well_formed(self@),
    {
        proof {
            use_type_invariant(self);
        }
        self.input.as_str()
    }

    /// Handles one tick: `key` is the last key pressed since the tick before,
    /// if any, and `shift` tells whether shift is held.
    pub fn update(&mut self, key: Option<Key>, shift: bool)
        ensures
            final(self)@ == step(old(self)@, key, shift),
            well_formed(final(self)@),
    {
        proof {
            use_type_invariant(&*self);
        }
        if let Some(code) = key {
            match code {
                Key::Key0 => self.add_character('0'),
                Key::Key1 => self.add_character('1'),
                Key::Key2 => self.add_character('2'),
                Key::Key3 => {
                    if shift {
                        self.add_character('#');
                    } else {
                        self.add_character('3');
                    }
                },
                Key::Key4 => self.add_character('4'),
                Key::Key5 => self.add_character('5'),
                Key::Key6 => self.add_character('6'),
                Key::Key7 => self.add_character('7'),
                Key::Key8 => self.add_character('8'),
                Key::Key9 => self.add_character('9'),
                Key::A => self.add_character('a'),
                Key::B => self.add_character('b'),
                Key::C => self.add_character('c'),
                Key::D => self.add_character('d'),
                Key::E => self.add_character('e'),
                Key::F => self.add_character('f'),
                Key::Enter => {
                    if let Ok(color) = Color::from_str(self.input.as_str()) {
                        self.color = color;
                    }
                    self.input = String::new();
                },
                Key::Backspace => self.remove_character(),
                Key::Other => (),
            };
        }
    }

    fn remove_character(&mut self)
        ensures
            final(self)@.color == old(self)@.color,
            final(self)@.input == erased(old(self)@.input),
    {
        proof {
            use_type_invariant(&*self);
        }
        let mut input = String::new();
        core::mem::swap(&mut input, &mut self.input);
        input.pop();
        self.input = input;
    }

    fn add_character(&mut self, ch: char)
        requires
            is_input_char(ch),
        ensures
            final(self)@.color == old(self)@.color,
            final(self)@.input == typed(old(self)@.input, ch),
    {
        proof {
            use_type_invariant(&*self);
            vstd::utf8::is_ascii_chars_encode_utf8(self.input@);
        }
        if self.input.as_str().len() < MAX_INPUT {
            let mut input = String::new();
            core::mem::swap(&mut input, &mut self.input);
            input.push(ch);
            self.input = input;
        }
    }
}

impl Default for Ui {
    /// Pure red on display, nothing typed.
    fn default() -> (ui: Self)
        ensures
            ui@ == (UiState { color: Color { r: 0xff, g: 0x00, b: 0x00 }, input: Seq::empty() }),
    {
        Ui { color: Color::new(0xff, 0x00, 0x00), input: String::new() }
    }
}

/// A key types only characters of the entry's alphabet.
pub proof fn lemma_key_char_typeable(key: Key, shift: bool)
    ensures
        key_char(key, shift) matches Some(c) ==> is_input_char(c),
{
}

/// No tick takes the entry out of its bounds: the text stays within
/// `MAX_INPUT` typeable characters.
pub proof fn lemma_step_well_formed(s: UiState, key: Option<Key>, shift: bool)
    requires
        well_formed(s),
    ensures
        well_formed(step(s, key, shift)),
{
    if let Some(k) = key {
        lemma_key_char_typeable(k, shift);
    }
}

/// No sequence of ticks takes the entry out of its bounds.
pub proof fn lemma_run_well_formed(s: UiState, events: Seq<(Option<Key>, bool)>)
    requires
        well_formed(s),
    ensures
        well_formed(run(s, events)),
        run(s, events).input.len() <= MAX_INPUT,
    decreases events.len(),
{
    if events.len() > 0 {
        lemma_run_well_formed(s, events.drop_last());
        lemma_step_well_formed(run(s, events.drop_last()), events.last().0, events.last().1);
    }
}

/// Typing into a full entry changes nothing.
pub proof fn lemma_typing_when_full(s: UiState, key: Key, shift: bool)
    requires
        s.input.len() >= MAX_INPUT,
        key_char(key, shift) is Some,
    ensures
        step(s, Some(key), shift) == s,
{
}

/// Confirming empties the entry, whether or not the text was a color code,
/// and changes the color exactly when it was one.
pub proof fn lemma_confirm_clears(s: UiState, shift: bool)
    ensures
        step(s, Some(Key::Enter), shift).input == Seq::<char>::empty(),
        step(s, Some(Key::Enter), shift).color == match parse_color(s.input) {
            Ok(parsed) => parsed,
            Err(_) => s.color,
        },
{
}

} // verus!
