//! Opaque RGB colors, their `#rrggbb` text form, and channel inversion.

use vstd::prelude::*;

verus! {

/// An opaque color: one byte each of red, green and blue.
#[derive(Clone, Copy, Debug, PartialEq, Eq, Structural)]
pub struct Color {
    pub r: u8,
    pub g: u8,
    pub b: u8,
}

/// Which rule a rejected color code broke.
#[derive(Clone, Copy, Debug, PartialEq, Eq, Structural)]
pub enum ColorErrorKind {
    /// One of the six characters after `#` is not a hexadecimal digit.
    InvalidHexit,
    /// The text is not seven characters long, or does not start with `#`.
    InvalidFormat,
}

/// The error of parsing a color code.
#[derive(Clone, Copy, Debug, PartialEq, Eq, Structural)]
pub struct ParseColorError {
    pub kind: ColorErrorKind,
}

/// The value of a hexadecimal digit of either case; `None` for any other
/// character.
pub open spec fn hex_value(c: char) -> Option<u8> {
    if '0' <= c <= '9' {
        Some((c as u32 - '0' as u32) as u8)
    } else if 'a' <= c <= 'f' {
        Some((c as u32 - 'a' as u32 + 10) as u8)
    } else if 'A' <= c <= 'F' {
        Some((c as u32 - 'A' as u32 + 10) as u8)
    } else {
        None
    }
}

/// The byte written by the two hexadecimal digits `hi` and `lo`.
pub open spec fn hex_pair_value(hi: char, lo: char) -> Option<u8> {
    match (hex_value(hi), hex_value(lo)) {
        (Some(h), Some(l)) => Some((16 * h + l) as u8),
        _ => None,
    }
}

/// What a text means as a color code: `#`, then red, green and blue as two
/// hexadecimal digits each. Length and prefix are judged before the digits.
pub open spec fn parse_color(s: Seq<char>) -> Result<Color, ParseColorError> {
    if s.len() != 7 || s[0] != '#' {
        Err(ParseColorError { kind: ColorErrorKind::InvalidFormat })
    } else {
        match (hex_pair_value(s[1], s[2]), hex_pair_value(s[3], s[4]), hex_pair_value(s[5], s[6])) {
            (Some(r), Some(g), Some(b)) => Ok(Color { r, g, b }),
            _ => Err(ParseColorError { kind: ColorErrorKind::InvalidHexit }),
        }
    }
}

/// The sixteen lowercase hexadecimal digits, each at the place of its value.
pub open spec fn hex_digits() -> Seq<char> {
    seq!['0', '1', '2', '3', '4', '5', '6', '7', '8', '9', 'a', 'b', 'c', 'd', 'e', 'f']
}

/// The lowercase hexadecimal digit of a value below 16.
pub open spec fn hex_digit(v: u8) -> char
    recommends
        v < 16,
{
    hex_digits()[v as int]
}

/// A byte as two lowercase hexadecimal digits, the high one first.
pub open spec fn hex_pair_text(v: u8) -> Seq<char> {
    seq![hex_digit(v / 16), hex_digit(v % 16)]
}

/// The canonical text of a color: `#rrggbb` in lowercase.
pub open spec fn color_text(c: Color) -> Seq<char> {
    seq!['#'] + hex_pair_text(c.r) + hex_pair_text(c.g) + hex_pair_text(c.b)
}

/// A digit, or a lowercase letter from `a` to `f`.
pub open spec fn is_lower_hexit(c: char) -> bool {
    '0' <= c <= '9' || 'a' <= c <= 'f'
}

/// Whether a text has the canonical shape: `#`, then six digits out of
/// `0`-`9` and `a`-`f`.
pub open spec fn is_canonical(s: Seq<char>) -> bool {
    &&& s.len() == 7
    &&& s[0] == '#'
    &&& forall|i: int| 1 <= i < 7 ==> is_lower_hexit(#[trigger] s[i])
}

/// The color whose every channel is the complement of `c`'s.
pub open spec fn invert(c: Color) -> Color {
    Color { r: (255 - c.r) as u8, g: (255 - c.g) as u8, b: (255 - c.b) as u8 }
}

/// The message of each kind of error.
pub open spec fn error_text(kind: ColorErrorKind) -> Seq<char> {
    match kind {
        ColorErrorKind::InvalidHexit => "invalid hexit found in string"@,
        ColorErrorKind::InvalidFormat => "string does not conform to hex format"@,
    }
}

impl Color {
    /// The opaque color of the given channels.
    pub fn new(r: u8, g: u8, b: u8) -> (c: Self)
        ensures
            c == (Color { r, g, b }),
    {
        Color { r, g, b }
    }

    /// The bitwise complement of the three channels.
    pub fn inverted(&self) -> (c: Self)
        ensures
            c == invert(*self),
            c.r == 255 - self.r,
            c.g == 255 - self.g,
            c.b == 255 - self.b,
    {
        let (r, g, b) = (self.r, self.g, self.b);
        assert(!r == 255 - r) by (bit_vector);
        assert(!g == 255 - g) by (bit_vector);
        assert(!b == 255 - b) by (bit_vector);
        Color::new(!r, !g, !b)
    }

    /// The channels in the order red, green, blue, alpha; a color is always
    /// fully opaque.
    pub fn rgba(&self) -> (data: [u8; 4])
        ensures
            data@ == seq![self.r, self.g, self.b, 0xffu8],
    {
        [self.r, self.g, self.b, 0xff]
    }

    /// The canonical lowercase text `#rrggbb`.
    pub fn to_string(&self) -> (s: String)
        ensures
            s@ == color_text(*self),
            is_canonical(s@),
    {
        proof {
            lemma_color_text_canonical(*self);
        }
        let mut s = String::new();
        s.push('#');
        push_hex_pair(&mut s, self.r);
        push_hex_pair(&mut s, self.g);
        push_hex_pair(&mut s, self.b);
        s
    }
}

impl core::str::FromStr for Color {
    type Err = ParseColorError;

    /// Parses a color code of the form `#rrggbb`, digits of either case.
    fn from_str(s: &str) -> (res: Result<Self, Self::Err>)
        ensures
            res == parse_color(s@),
    {
        if s.unicode_len() != 7 || s.get_char(0) != '#' {
            return Err(ParseColorError { kind: ColorErrorKind::InvalidFormat });
        }
        let Some(r) = hex_pair(s.get_char(1), s.get_char(2)) else {
            return Err(ParseColorError { kind: ColorErrorKind::InvalidHexit });
        };
        let Some(g) = hex_pair(s.get_char(3), s.get_char(4)) else {
            return Err(ParseColorError { kind: ColorErrorKind::InvalidHexit });
        };
        let Some(b) = hex_pair(s.get_char(5), s.get_char(6)) else {
            return Err(ParseColorError { kind: ColorErrorKind::InvalidHexit });
        };
        Ok(Color::new(r, g, b))
    }
}

impl ParseColorError {
    /// The message that describes the error.
    pub fn to_string(&self) -> (s: String)
        ensures
            s@ == error_text(self.kind),
    {
        match self.kind {
            ColorErrorKind::InvalidHexit => "invalid hexit found in string".to_owned(),
            ColorErrorKind::InvalidFormat => "string does not conform to hex format".to_owned(),
        }
    }
}

/// Reads one hexadecimal digit.
fn hexit(c: char) -> (v: Option<u8>)
    ensures
        v == hex_value(c),
        v matches Some(d) ==> d < 16,
{
    match c {
        '0'..='9' => Some((c as u32 - '0' as u32) as u8),
        'a'..='f' => Some((c as u32 - 'a' as u32 + 10) as u8),
        'A'..='F' => Some((c as u32 - 'A' as u32 + 10) as u8),
        _ => None,
    }
}

/// Reads two hexadecimal digits as one byte.
fn hex_pair(hi: char, lo: char) -> (v: Option<u8>)
    ensures
        v == hex_pair_value(hi, lo),
{
    match (hexit(hi), hexit(lo)) {
        (Some(h), Some(l)) => Some(16 * h + l),
        _ => None,
    }
}

/// Writes the lowercase hexadecimal digit of a value below 16.
fn lower_hexit(v: u8) -> (c: char)
    requires
        v < 16,
    ensures
        c == hex_digit(v),
{
    if v < 10 {
        ('0' as u8 + v) as char
    } else {
        ('a' as u8 + (v - 10)) as char
    }
}

/// Appends a byte as two lowercase hexadecimal digits.
fn push_hex_pair(out: &mut String, v: u8)
    ensures
        final(out)@ == old(out)@ + hex_pair_text(v),
{
    out.push(lower_hexit(v / 16));
    out.push(lower_hexit(v % 16));
}

/// A lowercase hexadecimal digit is read back as the value it was written for.
pub proof fn lemma_hex_digit_value(v: u8)
    requires
        v < 16,
    ensures
        is_lower_hexit(hex_digit(v)),
        hex_value(hex_digit(v)) == Some(v),
{
}

/// The two digits written for a byte are read back as that byte.
pub proof fn lemma_hex_pair_round_trip(v: u8)
    ensures
        hex_pair_value(hex_pair_text(v)[0], hex_pair_text(v)[1]) == Some(v),
{
    lemma_hex_digit_value(v / 16);
    lemma_hex_digit_value(v % 16);
}

/// The two digits written for the byte that two lowercase digits give are
/// those digits again.
pub proof fn lemma_hex_pair_text_of_value(hi: char, lo: char)
    requires
        is_lower_hexit(hi),
        is_lower_hexit(lo),
    ensures
        hex_pair_value(hi, lo) matches Some(v) && hex_pair_text(v) == seq![hi, lo],
{
}

/// The text of every color is canonical: `#`, then six lowercase
/// hexadecimal digits.
pub proof fn lemma_color_text_canonical(c: Color)
    ensures
        is_canonical(color_text(c)),
{
    lemma_hex_digit_value(c.r / 16);
    lemma_hex_digit_value(c.r % 16);
    lemma_hex_digit_value(c.g / 16);
    lemma_hex_digit_value(c.g % 16);
    lemma_hex_digit_value(c.b / 16);
    lemma_hex_digit_value(c.b % 16);
}

/// Parsing the text of a color gives that color back.
pub proof fn lemma_parse_color_text(c: Color)
    ensures
        parse_color(color_text(c)) == Ok::<Color, ParseColorError>(c),
{
    lemma_hex_pair_round_trip(c.r);
    lemma_hex_pair_round_trip(c.g);
    lemma_hex_pair_round_trip(c.b);
}

/// A canonical text is a color code, and the text of its color is the text
/// itself: on canonical texts, formatting undoes parsing.
pub proof fn lemma_color_text_of_parsed(s: Seq<char>)
    requires
        is_canonical(s),
    ensures
        parse_color(s) matches Ok(c) && color_text(c) == s,
{
    lemma_hex_pair_text_of_value(s[1], s[2]);
    lemma_hex_pair_text_of_value(s[3], s[4]);
    lemma_hex_pair_text_of_value(s[5], s[6]);
}

/// When a text is a color code, and which error it gets when it is not:
/// a wrong length or a missing `#` is a format error, and only a text of
/// the right format can have a digit error.
pub proof fn lemma_parse_color_outcomes(s: Seq<char>)
    ensures
        parse_color(s) is Ok <==> s.len() == 7 && s[0] == '#' && forall|i: int|
            1 <= i < 7 ==> hex_value(#[trigger] s[i]) is Some,
        parse_color(s) == Err::<Color, ParseColorError>(
            ParseColorError { kind: ColorErrorKind::InvalidFormat },
        ) <==> s.len() != 7 || s[0] != '#',
        parse_color(s) == Err::<Color, ParseColorError>(
            ParseColorError { kind: ColorErrorKind::InvalidHexit },
        ) <==> s.len() == 7 && s[0] == '#' && exists|i: int|
            1 <= i < 7 && hex_value(#[trigger] s[i]) is None,
{
    if s.len() == 7 && s[0] == '#' {
        if parse_color(s) is Ok {
            assert forall|i: int| 1 <= i < 7 implies hex_value(#[trigger] s[i]) is Some by {}
        } else {
            assert(hex_value(s[1]) is None || hex_value(s[2]) is None || hex_value(s[3]) is None
                || hex_value(s[4]) is None || hex_value(s[5]) is None || hex_value(s[6]) is None);
        }
    }
}

/// Inverting twice gives the color back.
pub proof fn lemma_invert_involution(c: Color)
    ensures
        invert(invert(c)) == c,
{
}

} // verus!
