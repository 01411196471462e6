//! RGB colors and their textual form.
//!
//! A color is written either by name (`white`, `black`) or as `#RRGGBB`.
//! Reading accepts hexadecimal digits of either case; writing always
//! produces upper case, and always prefers the name where there is one.

use crate::text::equals;
use vstd::prelude::*;
use vstd::string::StrSliceExecFns;
use vstd::string::StringExecFns;

verus! {

/// An RGB color with one byte per channel.
#[derive(Clone, Copy, Debug, PartialEq, Eq, Structural)]
pub struct Color {
    pub red: u8,
    pub green: u8,
    pub blue: u8,
}

/// Why a text could not be read as a color.
#[derive(Clone, Debug, PartialEq, Eq)]
pub enum ColorError {
    /// The text is neither a known name nor `#` followed by six hexadecimal
    /// digits. `value` is the text as it was given.
    InvalidValue { value: String },
}

/// The color named `white`.
pub open spec fn white() -> Color {
    Color { red: 0xFF, green: 0xFF, blue: 0xFF }
}

/// The color named `black`.
pub open spec fn black() -> Color {
    Color { red: 0x00, green: 0x00, blue: 0x00 }
}

/// The characters of the name `white`.
pub open spec fn white_name() -> Seq<char> {
    seq!['w', 'h', 'i', 't', 'e']
}

/// The characters of the name `black`.
pub open spec fn black_name() -> Seq<char> {
    seq!['b', 'l', 'a', 'c', 'k']
}

/// The value of a hexadecimal digit of either case, or `None` for any other
/// character.
pub open spec fn hex_value(c: char) -> Option<int> {
    if '0' <= c <= '9' {
        Some(c as int - '0' as int)
    } else if 'a' <= c <= 'f' {
        Some(c as int - 'a' as int + 10)
    } else if 'A' <= c <= 'F' {
        Some(c as int - 'A' as int + 10)
    } else {
        None
    }
}

/// The upper-case hexadecimal digit for a value below sixteen.
pub open spec fn hex_upper(n: int) -> char
    recommends
        0 <= n < 16,
{
    if n < 10 {
        (n + '0' as int) as char
    } else {
        (n - 10 + 'A' as int) as char
    }
}

/// The two upper-case hexadecimal digits of a byte, high digit first.
pub open spec fn hex_pair(b: u8) -> Seq<char> {
    seq![hex_upper(b as int / 16), hex_upper(b as int % 16)]
}

/// The byte written by the two hexadecimal digits `hi` and `lo`.
pub open spec fn pair_value(hi: char, lo: char) -> int
    recommends
        hex_value(hi) is Some,
        hex_value(lo) is Some,
{
    16 * hex_value(hi).unwrap() + hex_value(lo).unwrap()
}

/// Whether `s` is `#` followed by exactly six hexadecimal digits.
pub open spec fn is_hex_text(s: Seq<char>) -> bool {
    &&& s.len() == 7
    &&& s[0] == '#'
    &&& forall|i: int| 1 <= i < 7 ==> (#[trigger] hex_value(s[i])) is Some
}

/// Whether `s` is `#` followed by exactly six hexadecimal digits, none of
/// them a lower-case letter.
pub open spec fn is_upper_hex_text(s: Seq<char>) -> bool {
    &&& is_hex_text(s)
    &&& forall|i: int| 1 <= i < 7 ==> !('a' <= #[trigger] s[i] <= 'f')
}

/// The color that a text denotes, if it denotes one.
pub open spec fn parsed(s: Seq<char>) -> Option<Color> {
    if s == white_name() {
        Some(white())
    } else if s == black_name() {
        Some(black())
    } else if is_hex_text(s) {
        Some(
            Color {
                red: pair_value(s[1], s[2]) as u8,
                green: pair_value(s[3], s[4]) as u8,
                blue: pair_value(s[5], s[6]) as u8,
            },
        )
    } else {
        None
    }
}

/// The `#RRGGBB` form of a color.
pub open spec fn hex_text(c: Color) -> Seq<char> {
    seq!['#'] + hex_pair(c.red) + hex_pair(c.green) + hex_pair(c.blue)
}

/// The text that a color is written as: its name where it has one, its
/// `#RRGGBB` form otherwise.
pub open spec fn color_text(c: Color) -> Seq<char> {
    if c == white() {
        white_name()
    } else if c == black() {
        black_name()
    } else {
        hex_text(c)
    }
}

/// Reads one hexadecimal digit.
fn hex_digit(c: char) -> (v: Option<u8>)
    ensures
        match hex_value(c) {
            Some(n) => v == Some(n as u8) && 0 <= n < 16,
            None => v is None,
        },
{
    if '0' <= c && c <= '9' {
        Some((c as u32 - '0' as u32) as u8)
    } else if 'a' <= c && c <= 'f' {
        Some((c as u32 - 'a' as u32 + 10) as u8)
    } else if 'A' <= c && c <= 'F' {
        Some((c as u32 - 'A' as u32 + 10) as u8)
    } else {
        None
    }
}

/// Reads the two hexadecimal digits at `at` and `at + 1` as one byte.
fn hex_byte(s: &str, at: usize) -> (v: Option<u8>)
    requires
        at < usize::MAX,
        at + 1 < s@.len(),
    ensures
        match v {
            Some(b) => hex_value(s@[at as int]) is Some && hex_value(s@[at + 1]) is Some && b
                == pair_value(s@[at as int], s@[at + 1]),
            None => hex_value(s@[at as int]) is None || hex_value(s@[at + 1]) is None,
        },
{
    let hi = hex_digit(s.get_char(at));
    let lo = hex_digit(s.get_char(at + 1));
    match (hi, lo) {
        (Some(h), Some(l)) => Some(h * 16 + l),
        _ => None,
    }
}

/// The upper-case hexadecimal digit for `n`, as a one-character text.
fn hex_digit_text(n: u8) -> (text: &'static str)
    requires
        n < 16,
    ensures
        text@ == seq![hex_upper(n as int)],
{
    proof {
        reveal_strlit("0");
        reveal_strlit("1");
        reveal_strlit("2");
        reveal_strlit("3");
        reveal_strlit("4");
        reveal_strlit("5");
        reveal_strlit("6");
        reveal_strlit("7");
        reveal_strlit("8");
        reveal_strlit("9");
        reveal_strlit("A");
        reveal_strlit("B");
        reveal_strlit("C");
        reveal_strlit("D");
        reveal_strlit("E");
        reveal_strlit("F");
    }
    let text: &'static str = match n {
        0 => "0",
        1 => "1",
        2 => "2",
        3 => "3",
        4 => "4",
        5 => "5",
        6 => "6",
        7 => "7",
        8 => "8",
        9 => "9",
        10 => "A",
        11 => "B",
        12 => "C",
        13 => "D",
        14 => "E",
        _ => "F",
    };
    assert(text@ =~= seq![hex_upper(n as int)]);
    text
}

/// Appends the two upper-case hexadecimal digits of `b` to `text`.
fn push_hex_pair(text: &mut String, b: u8)
    ensures
        final(text)@ == old(text)@ + hex_pair(b),
{
    text.append(hex_digit_text(b / 16));
    text.append(hex_digit_text(b % 16));
    assert(final(text)@ =~= old(text)@ + hex_pair(b));
}

impl Color {
    /// The color named `white`.
    pub fn white() -> (c: Color)
        ensures
            c == white(),
    {
        Color { red: 0xFF, green: 0xFF, blue: 0xFF }
    }

    /// The color named `black`.
    pub fn black() -> (c: Color)
        ensures
            c == black(),
    {
        Color { red: 0x00, green: 0x00, blue: 0x00 }
    }

    /// Reads a color from its text.
    ///
    /// Succeeds on `white`, on `black`, and on `#` followed by six
    /// hexadecimal digits of either case. Every other text is handed back
    /// unchanged inside the error.
    pub fn from_str(s: &str) -> (r: Result<Color, ColorError>)
        ensures
            match parsed(s@) {
                Some(c) => r == Ok::<Color, ColorError>(c),
                None => r matches Err(ColorError::InvalidValue { value }) && value@ == s@,
            },
    {
        proof {
            reveal_strlit("white");
            reveal_strlit("black");
            assert("white"@ =~= white_name());
            assert("black"@ =~= black_name());
        }
        if equals(s, "white") {
            return Ok(Color::white());
        }
        if equals(s, "black") {
            return Ok(Color::black());
        }
        if s.unicode_len() == 7 && s.get_char(0) == '#' {
            match (hex_byte(s, 1), hex_byte(s, 3), hex_byte(s, 5)) {
                (Some(red), Some(green), Some(blue)) => {
                    assert(is_hex_text(s@)) by {
                        assert forall|i: int| 1 <= i < 7 implies (#[trigger] hex_value(s@[i]))
                            is Some by {
                            if i == 1 {
                            } else if i == 2 {
                            } else if i == 3 {
                            } else if i == 4 {
                            } else if i == 5 {
                            } else {
                                assert(i == 6);
                            }
                        }
                    }
                    return Ok(Color { red, green, blue });
                },
                _ => {
                    assert(!is_hex_text(s@)) by {
                        if is_hex_text(s@) {
                            assert(hex_value(s@[1]) is Some);
                            assert(hex_value(s@[2]) is Some);
                            assert(hex_value(s@[3]) is Some);
                            assert(hex_value(s@[4]) is Some);
                            assert(hex_value(s@[5]) is Some);
                            assert(hex_value(s@[6]) is Some);
                        }
                    }
                },
            }
        }
        Err(ColorError::InvalidValue { value: s.to_owned() })
    }

    /// Writes the color as text: `white`, `black`, or `#` and two upper-case
    /// hexadecimal digits for each of red, green and blue.
    pub fn to_string(&self) -> (text: String)
        ensures
            text@ == color_text(*self),
    {
        if *self == Color::white() {
            proof {
                reveal_strlit("white");
            }
            let text = String::from_str("white");
            assert(text@ =~= white_name());
            text
        } else if *self == Color::black() {
            proof {
                reveal_strlit("black");
            }
            let text = String::from_str("black");
            assert(text@ =~= black_name());
            text
        } else {
            proof {
                reveal_strlit("#");
            }
            let mut text = String::from_str("#");
            assert(text@ =~= seq!['#']);
            push_hex_pair(&mut text, self.red);
            push_hex_pair(&mut text, self.green);
            push_hex_pair(&mut text, self.blue);
            text
        }
    }
}

/// Whether `s` is a text that some color is written as: a name, or an
/// upper-case `#RRGGBB` that does not spell out a named color.
pub open spec fn is_canonical(s: Seq<char>) -> bool {
    ||| s == white_name()
    ||| s == black_name()
    ||| (is_upper_hex_text(s) && s != hex_text(white()) && s != hex_text(black()))
}

/// Reading back the upper-case digit of a value gives the value, and the
/// digit is not a lower-case letter.
proof fn lemma_hex_upper(n: int)
    requires
        0 <= n < 16,
    ensures
        hex_value(hex_upper(n)) == Some(n),
        !('a' <= hex_upper(n) <= 'f'),
{
}

/// Writing out the value of a digit that is not a lower-case letter gives the
/// digit back.
proof fn lemma_hex_value(c: char)
    requires
        hex_value(c) is Some,
        !('a' <= c <= 'f'),
    ensures
        hex_upper(hex_value(c).unwrap()) == c,
        0 <= hex_value(c).unwrap() < 16,
{
}

/// The two digits written for a byte read back as that byte.
proof fn lemma_pair_of_byte(b: u8)
    ensures
        hex_value(hex_pair(b)[0]) is Some,
        hex_value(hex_pair(b)[1]) is Some,
        !('a' <= hex_pair(b)[0] <= 'f'),
        !('a' <= hex_pair(b)[1] <= 'f'),
        pair_value(hex_pair(b)[0], hex_pair(b)[1]) == b,
{
    lemma_hex_upper(b as int / 16);
    lemma_hex_upper(b as int % 16);
}

/// Two upper-case digits are the digits written for the byte they read as.
proof fn lemma_byte_of_pair(hi: char, lo: char)
    requires
        hex_value(hi) is Some,
        hex_value(lo) is Some,
        !('a' <= hi <= 'f'),
        !('a' <= lo <= 'f'),
    ensures
        0 <= pair_value(hi, lo) < 256,
        hex_pair(pair_value(hi, lo) as u8) == seq![hi, lo],
{
    lemma_hex_value(hi);
    lemma_hex_value(lo);
}

/// The `#RRGGBB` form of any color is upper-case hexadecimal text that reads
/// back as that color.
pub proof fn lemma_hex_text_reads_back(c: Color)
    ensures
        is_upper_hex_text(hex_text(c)),
        hex_text(c) != white_name(),
        hex_text(c) != black_name(),
        parsed(hex_text(c)) == Some(c),
{
    let s = hex_text(c);
    lemma_pair_of_byte(c.red);
    lemma_pair_of_byte(c.green);
    lemma_pair_of_byte(c.blue);
    assert(s.len() == 7);
    assert(s[0] == '#');
    assert(s[1] == hex_pair(c.red)[0] && s[2] == hex_pair(c.red)[1]);
    assert(s[3] == hex_pair(c.green)[0] && s[4] == hex_pair(c.green)[1]);
    assert(s[5] == hex_pair(c.blue)[0] && s[6] == hex_pair(c.blue)[1]);
    assert forall|i: int| 1 <= i < 7 implies (#[trigger] hex_value(s[i])) is Some by {
        if i == 1 || i == 2 || i == 3 || i == 4 || i == 5 {
        } else {
            assert(i == 6);
        }
    }
    assert forall|i: int| 1 <= i < 7 implies !('a' <= #[trigger] s[i] <= 'f') by {
        if i == 1 || i == 2 || i == 3 || i == 4 || i == 5 {
        } else {
            assert(i == 6);
        }
    }
    assert(white_name().len() == 5);
    assert(black_name().len() == 5);
}

/// Reading what was written gives the color back: for every color `c`, the
/// text of `c` denotes `c`.
pub proof fn lemma_parse_of_format(c: Color)
    ensures
        parsed(color_text(c)) == Some(c),
        is_canonical(color_text(c)),
{
    if c == white() {
    } else if c == black() {
        assert(black_name()[0] != white_name()[0]);
    } else {
        lemma_hex_text_reads_back(c);
        lemma_hex_text_reads_back(white());
        lemma_hex_text_reads_back(black());
    }
}

/// Upper-case `#RRGGBB` text is the `#RRGGBB` form of the color it denotes.
pub proof fn lemma_upper_hex_is_hex_text(s: Seq<char>)
    requires
        is_upper_hex_text(s),
    ensures
        parsed(s) is Some,
        hex_text(parsed(s).unwrap()) == s,
{
    assert(white_name().len() == 5);
    assert(black_name().len() == 5);
    assert(hex_value(s[1]) is Some && hex_value(s[2]) is Some && hex_value(s[3]) is Some);
    assert(hex_value(s[4]) is Some && hex_value(s[5]) is Some && hex_value(s[6]) is Some);
    lemma_byte_of_pair(s[1], s[2]);
    lemma_byte_of_pair(s[3], s[4]);
    lemma_byte_of_pair(s[5], s[6]);
    assert(hex_text(parsed(s).unwrap()) =~= s);
}

/// Writing what was read gives the text back exactly for the canonical
/// texts: for every text `s` that denotes a color, the text of that color
/// is `s` if and only if `s` is canonical. Lower-case digits, and the
/// `#RRGGBB` spelling of a named color, denote a color but are not what that
/// color is written as.
pub proof fn lemma_format_of_parse(s: Seq<char>)
    requires
        parsed(s) is Some,
    ensures
        color_text(parsed(s).unwrap()) == s <==> is_canonical(s),
{
    let c = parsed(s).unwrap();
    lemma_parse_of_format(c);
    if is_canonical(s) {
        if s == white_name() {
        } else if s == black_name() {
            assert(black_name()[0] != white_name()[0]);
        } else {
            lemma_upper_hex_is_hex_text(s);
            lemma_hex_text_reads_back(white());
            lemma_hex_text_reads_back(black());
            if c == white() {
                assert(hex_text(c) == hex_text(white()));
            }
            if c == black() {
                assert(hex_text(c) == hex_text(black()));
            }
        }
    }
}

/// Every upper-case `#RRGGBB` text other than `#FFFFFF` and `#000000` is
/// written back unchanged after reading. Those two denote the named colors,
/// which are written by name.
pub proof fn lemma_upper_hex_round_trip(s: Seq<char>)
    requires
        is_upper_hex_text(s),
        s != hex_text(white()),
        s != hex_text(black()),
    ensures
        parsed(s) is Some,
        color_text(parsed(s).unwrap()) == s,
{
    lemma_upper_hex_is_hex_text(s);
    lemma_format_of_parse(s);
}

} // verus!
