use vstd::prelude::*;
use vstd::string::*;
use vstd::utf8::*;

verus! {

/// Select Graphic Rendition parameters for text attributes.
#[derive(Clone, Copy, Debug, PartialEq, Eq, Structural)]
pub enum TextFormatting {
    Default,
    Bold,
    NoBold,
    Underline,
    NoUnderline,
    Negative,
    NoNegative,
}

/// The parameter that selects a text attribute.
pub open spec fn formatting_code(f: TextFormatting) -> u8 {
    match f {
        TextFormatting::Default => 0,
        TextFormatting::Bold => 1,
        TextFormatting::NoBold => 22,
        TextFormatting::Underline => 4,
        TextFormatting::NoUnderline => 24,
        TextFormatting::Negative => 7,
        TextFormatting::NoNegative => 27,
    }
}

/// The eight basic terminal colors and the terminal's default color.
#[derive(Clone, Copy, Debug, PartialEq, Eq, Structural)]
pub enum SimpleColor {
    Black,
    Red,
    Green,
    Yellow,
    Blue,
    Magenta,
    Cyan,
    White,
    Default,
}

/// The parameter that selects a basic color as foreground; the background
/// parameter is ten more.
pub open spec fn simple_color_code(c: SimpleColor) -> u8 {
    match c {
        SimpleColor::Black => 30,
        SimpleColor::Red => 31,
        SimpleColor::Green => 32,
        SimpleColor::Yellow => 33,
        SimpleColor::Blue => 34,
        SimpleColor::Magenta => 35,
        SimpleColor::Cyan => 36,
        SimpleColor::White => 37,
        SimpleColor::Default => 38,
    }
}

/// A terminal color: a basic one or a 24-bit one.
#[derive(Clone, Copy, Debug, PartialEq, Eq, Structural)]
pub enum Color {
    Simple(SimpleColor),
    Extended { r: u8, g: u8, b: u8 },
}

/// The character of a decimal digit.
pub open spec fn digit_char(d: int) -> char {
    if d == 0 {
        '0'
    } else if d == 1 {
        '1'
    } else if d == 2 {
        '2'
    } else if d == 3 {
        '3'
    } else if d == 4 {
        '4'
    } else if d == 5 {
        '5'
    } else if d == 6 {
        '6'
    } else if d == 7 {
        '7'
    } else if d == 8 {
        '8'
    } else {
        '9'
    }
}

/// `n` written in decimal, without leading zeros.
pub open spec fn decimal(n: nat) -> Seq<char>
    decreases n,
{
    if n < 10 {
        seq![digit_char(n as int)]
    } else {
        decimal(n / 10).push(digit_char((n % 10) as int))
    }
}

fn digit_str(d: u8) -> (r: &'static str)
    requires
        d < 10,
    ensures
        r@ == seq![digit_char(d as int)],
{
    proof {
        reveal_strlit("0");
        reveal_strlit("1");
        reveal_strlit("2");
        reveal_strlit("3");
        reveal_strlit("4");
        reveal_strlit("5");
        reveal_strlit("6");
        reveal_strlit("7");
        reveal_strlit("8");
        reveal_strlit("9");
    }
    match d {
        0 => "0",
        1 => "1",
        2 => "2",
        3 => "3",
        4 => "4",
        5 => "5",
        6 => "6",
        7 => "7",
        8 => "8",
        _ => "9",
    }
}

/// Appends `n` in decimal to `s`.
fn push_decimal(s: &mut String, n: u8)
    ensures
        final(s)@ == old(s)@ + decimal(n as nat),
{
    proof {
        reveal_with_fuel(decimal, 3);
    }
    if n >= 100 {
        s.append(digit_str(n / 100));
    }
    if n >= 10 {
        s.append(digit_str((n / 10) % 10));
    }
    s.append(digit_str(n % 10));
    proof {
        let n = n as nat;
        if n >= 100 {
            assert(n / 10 / 10 == n / 100);
            assert(decimal(n) =~= seq![digit_char((n / 100) as int), digit_char(((n / 10) % 10) as int), digit_char((n % 10) as int)]);
        } else if n >= 10 {
            assert(decimal(n) =~= seq![digit_char((n / 10) as int), digit_char((n % 10) as int)]);
        }
    }
}

impl TextFormatting {
    /// The parameter that selects this attribute.
    pub fn code(&self) -> (r: u8)
        ensures
            r == formatting_code(*self),
    {
        match self {
            TextFormatting::Default => 0,
            TextFormatting::Bold => 1,
            TextFormatting::NoBold => 22,
            TextFormatting::Underline => 4,
            TextFormatting::NoUnderline => 24,
            TextFormatting::Negative => 7,
            TextFormatting::NoNegative => 27,
        }
    }

    /// The parameter in decimal, as it stands in an escape sequence.
    pub fn to_string(&self) -> (r: String)
        ensures
            r@ == decimal(formatting_code(*self) as nat),
    {
        let mut s = String::new();
        push_decimal(&mut s, self.code());
        s
    }
}

impl SimpleColor {
    /// The parameter that selects this color as foreground.
    pub fn code(&self) -> (r: u8)
        ensures
            r == simple_color_code(*self),
    {
        match self {
            SimpleColor::Black => 30,
            SimpleColor::Red => 31,
            SimpleColor::Green => 32,
            SimpleColor::Yellow => 33,
            SimpleColor::Blue => 34,
            SimpleColor::Magenta => 35,
            SimpleColor::Cyan => 36,
            SimpleColor::White => 37,
            SimpleColor::Default => 38,
        }
    }

    /// The foreground parameter in decimal.
    pub fn to_string(&self) -> (r: String)
        ensures
            r@ == decimal(simple_color_code(*self) as nat),
    {
        let mut s = String::new();
        push_decimal(&mut s, self.code());
        s
    }
}

/// The parameters that select `color` as foreground, or as background if
/// `is_background`.
pub open spec fn color_params(color: Color, is_background: bool) -> Seq<char> {
    let offset: nat = if is_background { 10 } else { 0 };
    match color {
        Color::Simple(c) => decimal((simple_color_code(c) + offset) as nat),
        Color::Extended { r, g, b } => decimal((38 + offset) as nat) + seq![';', '2', ';'] + decimal(
            r as nat,
        ) + seq![';'] + decimal(g as nat) + seq![';'] + decimal(b as nat),
    }
}

impl Color {
    /// The parameters that select this color as foreground, or as
    /// background if `is_background`.
    pub fn to_string(&self, is_background: bool) -> (r: String)
        ensures
            r@ == color_params(*self, is_background),
    {
        proof {
            reveal_strlit(";2;");
            reveal_strlit(";");
        }
        let offset: u8 = if is_background { 10 } else { 0 };
        let mut s = String::new();
        match self {
            Color::Simple(color) => {
                push_decimal(&mut s, color.code() + offset);
            },
            Color::Extended { r, g, b } => {
                push_decimal(&mut s, 38 + offset);
                s.append(";2;");
                push_decimal(&mut s, *r);
                s.append(";");
                push_decimal(&mut s, *g);
                s.append(";");
                push_decimal(&mut s, *b);
            },
        }
        s
    }
}

/// The escape sequence that sets the attributes `params`.
pub open spec fn escaped(params: Seq<char>) -> Seq<char> {
    seq!['\u{1b}', '['] + params + seq!['m']
}

/// Wraps `sequence` into an escape sequence: `ESC [ sequence m`.
pub fn escape_sequence(sequence: &str) -> (r: String)
    ensures
        r@ == escaped(sequence@),
{
    proof {
        reveal_strlit("\u{1b}[");
        reveal_strlit("m");
    }
    let mut s = String::from_str("\u{1b}[");
    s.append(sequence);
    s.append("m");
    s
}

/// `parts` with `sep` between each two of them.
pub open spec fn joined(parts: Seq<Seq<char>>, sep: Seq<char>) -> Seq<char>
    decreases parts.len(),
{
    if parts.len() == 0 {
        Seq::empty()
    } else if parts.len() == 1 {
        parts[0]
    } else {
        joined(parts.drop_last(), sep) + sep + parts.last()
    }
}

/// A message with the attributes it is written with.
pub struct Text {
    message: String,
    sequences: Vec<String>,
}

/// What a `Text` holds: the message, and the attribute parameters in the
/// order they were added.
pub struct TextView {
    pub message: Seq<char>,
    pub sequences: Seq<Seq<char>>,
}

impl View for Text {
    type V = TextView;

    closed spec fn view(&self) -> TextView {
        TextView { message: self.message@, sequences: self.sequences@.map_values(|s: String| s@) }
    }
}

/// What a `Text` is written as: its attributes, the message, and a reset
/// of all attributes.
pub open spec fn rendered(t: TextView) -> Seq<char> {
    escaped(joined(t.sequences, seq![';'])) + t.message + escaped(seq!['0'])
}

/// Starts a text without attributes.
pub fn text(message: String) -> (r: Text)
    requires
        message@.len() == 0 || message@.last() != '\n',
    ensures
        r@ == (TextView { message: message@, sequences: Seq::empty() }),
{
    let r = Text { message, sequences: Vec::new() };
    assert(r@.sequences =~= Seq::empty());
    r
}

impl Text {
    proof fn lemma_push_view(&self, v: Vec<String>, s: String)
        requires
            v@ == self.sequences@.push(s),
        ensures
            v@.map_values(|s: String| s@) =~= self@.sequences.push(s@),
    {
    }

    /// Adds a text attribute.
    pub fn formatting(self, formatting: TextFormatting) -> (r: Text)
        ensures
            r@ == (TextView {
                sequences: self@.sequences.push(decimal(formatting_code(formatting) as nat)),
                ..self@
            }),
    {
        let Text { message, mut sequences } = self;
        let code = formatting.to_string();
        sequences.push(code);
        proof {
            self.lemma_push_view(sequences, code);
        }
        Text { message, sequences }
    }

    /// Sets the foreground color.
    pub fn foreground(self, color: Color) -> (r: Text)
        ensures
            r@ == (TextView {
                sequences: self@.sequences.push(color_params(color, false)),
                ..self@
            }),
    {
        let Text { message, mut sequences } = self;
        let code = color.to_string(false);
        sequences.push(code);
        proof {
            self.lemma_push_view(sequences, code);
        }
        Text { message, sequences }
    }

    /// Sets the background color.
    pub fn background(self, color: Color) -> (r: Text)
        ensures
            r@ == (TextView {
                sequences: self@.sequences.push(color_params(color, true)),
                ..self@
            }),
    {
        let Text { message, mut sequences } = self;
        let code = color.to_string(true);
        sequences.push(code);
        proof {
            self.lemma_push_view(sequences, code);
        }
        Text { message, sequences }
    }

    /// The text with its escape sequences, ready to be written to a
    /// terminal.
    pub fn into_string(self) -> (r: String)
        ensures
            r@ == rendered(self@),
    {
        proof {
            reveal_strlit(";");
            reveal_strlit("0");
        }
        let mut params = String::new();
        let mut i: usize = 0;
        while i < self.sequences.len()
            invariant
                i <= self.sequences@.len(),
                params@ == joined(self@.sequences.take(i as int), seq![';']),
            decreases self.sequences@.len() - i,
        {
            let ghost before = params@;
            proof {
                reveal_strlit(";");
            }
            if i > 0 {
                params.append(";");
            }
            let ghost mid = params@;
            params.append(self.sequences[i].as_str());
            assert(params@ == mid + self.sequences@[i as int]@);
            proof {
                let parts = self@.sequences.take(i + 1);
                assert(parts.drop_last() =~= self@.sequences.take(i as int));
                assert(parts.last() == self.sequences@[i as int]@);
                if i == 0 {
                    assert(params@ =~= parts[0]);
                } else {
                    assert(mid =~= before + seq![';']);
                    assert(params@ =~= joined(parts.drop_last(), seq![';']) + seq![';'] + parts.last());
                }
            }
            i += 1;
        }
        assert(self@.sequences.take(i as int) =~= self@.sequences);
        let mut s = escape_sequence(params.as_str());
        s.append(self.message.as_str());
        let reset = escape_sequence("0");
        s.append(reset.as_str());
        s
    }
}

#[verifier::external_type_specification]
#[verifier::external_body]
pub struct ExParseIntError(std::num::ParseIntError);

/// `b` is the ASCII code of a hexadecimal digit, in either case.
pub open spec fn is_hex_digit(b: u8) -> bool {
    (48 <= b <= 57) || (65 <= b <= 70) || (97 <= b <= 102)
}

/// The value of the hexadecimal digit `b`.
pub open spec fn hex_digit_value(b: u8) -> int {
    if 48 <= b <= 57 {
        b - 48
    } else if 65 <= b <= 70 {
        b - 55
    } else {
        b - 87
    }
}

/// The value of the hexadecimal digits `digits`, most significant first.
pub open spec fn hex_value(digits: Seq<u8>) -> int
    decreases digits.len(),
{
    if digits.len() == 0 {
        0
    } else {
        hex_value(digits.drop_last()) * 16 + hex_digit_value(digits.last())
    }
}

/// `s` without the one `+` sign that may lead an unsigned number.
pub open spec fn unsigned_digits(s: Seq<u8>) -> Seq<u8> {
    if s.len() > 0 && s[0] == 43 {
        s.drop_first()
    } else {
        s
    }
}

/// `s` is a byte written in hexadecimal: an optional `+`, then at least one
/// hexadecimal digit, of a value that fits in a byte.
pub open spec fn parses_as_hex_byte(s: Seq<u8>) -> bool {
    let d = unsigned_digits(s);
    &&& d.len() > 0
    &&& forall|i: int| 0 <= i < d.len() ==> is_hex_digit(#[trigger] d[i])
    &&& hex_value(d) <= 255
}

/// Relies on `u8::from_str_radix` with radix 16: it accepts an optional `+`
/// followed by hexadecimal digits of either case whose value fits in a byte,
/// and returns that value; it returns an error on anything else.
#[verifier::external_body]
fn parse_hex_byte(s: &str) -> (r: Result<u8, std::num::ParseIntError>)
    ensures
        r is Ok <==> parses_as_hex_byte(s.spec_bytes()),
        r is Ok ==> r->Ok_0 == hex_value(unsigned_digits(s.spec_bytes())),
{
    u8::from_str_radix(s, 16)
}

/// `s` without the `#` characters that lead it.
pub open spec fn trim_hashes(s: Seq<char>) -> Seq<char>
    decreases s.len(),
{
    if s.len() > 0 && s[0] == '#' {
        trim_hashes(s.drop_first())
    } else {
        s
    }
}

/// The UTF-8 bytes of a color written as `#rrggbb`, after its leading `#`s.
pub open spec fn hex_color_bytes(hex: Seq<char>) -> Seq<u8> {
    encode_utf8(trim_hashes(hex))
}

/// `hex` has, after its leading `#`s, six bytes that split into three
/// strings of two bytes each.
pub open spec fn is_hex_color_shaped(hex: Seq<char>) -> bool {
    let b = hex_color_bytes(hex);
    &&& b.len() == 6
    &&& is_char_boundary(b, 2)
    &&& is_char_boundary(b, 4)
}

/// The two bytes of the `i`th channel of a color written as `#rrggbb`.
pub open spec fn hex_channel(hex: Seq<char>, i: int) -> Seq<u8> {
    hex_color_bytes(hex).subrange(2 * i, 2 * i + 2)
}

/// The value of the `i`th channel of a color written as `#rrggbb`.
pub open spec fn hex_channel_value(hex: Seq<char>, i: int) -> u8 {
    hex_value(unsigned_digits(hex_channel(hex, i))) as u8
}

proof fn lemma_boundary_in_suffix(b: Seq<u8>, i: int, j: int)
    requires
        valid_utf8(b),
        is_char_boundary(b, i),
        is_char_boundary(b, j),
        0 <= i <= j <= b.len(),
    ensures
        valid_utf8(b.subrange(i, b.len() as int)),
        is_char_boundary(b.subrange(i, b.len() as int), j - i),
{
    let tail = b.subrange(i, b.len() as int);
    valid_utf8_split(b, i);
    if j < b.len() {
        is_char_boundary_iff_not_is_continuation_byte(b, j);
        is_char_boundary_iff_not_is_continuation_byte(tail, j - i);
        assert(tail[j - i] == b[j]);
    } else {
        is_char_boundary_start_end_of_seq(tail);
    }
}

impl Color {
    /// Reads a 24-bit color written as `#rrggbb` (any number of leading `#`,
    /// hexadecimal digits of either case).
    pub fn from_hex(hex: &str) -> (r: Result<Color, std::num::ParseIntError>)
        requires
            is_hex_color_shaped(hex@),
        ensures
            r is Ok <==> parses_as_hex_byte(hex_channel(hex@, 0)) && parses_as_hex_byte(
                hex_channel(hex@, 1),
            ) && parses_as_hex_byte(hex_channel(hex@, 2)),
            r is Ok ==> r->Ok_0 == (Color::Extended {
                r: hex_channel_value(hex@, 0),
                g: hex_channel_value(hex@, 1),
                b: hex_channel_value(hex@, 2),
            }),
    {
        let n = hex.unicode_len();
        let mut k: usize = 0;
        assert(hex@.subrange(0, n as int) =~= hex@);
        while k < n && hex.get_char(k) == '#'
            invariant
                k <= n,
                n == hex@.len(),
                trim_hashes(hex@) == trim_hashes(hex@.subrange(k as int, n as int)),
            decreases n - k,
        {
            assert(hex@.subrange(k as int, n as int).drop_first() =~= hex@.subrange(
                k + 1,
                n as int,
            ));
            k += 1;
        }
        assert(trim_hashes(hex@.subrange(k as int, n as int)) == hex@.subrange(k as int, n as int));
        let trimmed = hex.substring_char(k, n);
        let ghost b = trimmed.spec_bytes();
        proof {
            encode_utf8_valid_utf8(trimmed@);
            lemma_boundary_in_suffix(b, 2, 4);
        }
        let (red, rest) = trimmed.split_at(2);
        let (green, blue) = rest.split_at(2);
        assert(red.spec_bytes() =~= hex_channel(hex@, 0));
        assert(green.spec_bytes() =~= hex_channel(hex@, 1));
        assert(blue.spec_bytes() =~= hex_channel(hex@, 2));
        let r = match parse_hex_byte(red) {
            Ok(v) => v,
            Err(e) => return Err(e),
        };
        let g = match parse_hex_byte(green) {
            Ok(v) => v,
            Err(e) => return Err(e),
        };
        let b = match parse_hex_byte(blue) {
            Ok(v) => v,
            Err(e) => return Err(e),
        };
        Ok(Color::Extended { r, g, b })
    }
}

} // verus!
