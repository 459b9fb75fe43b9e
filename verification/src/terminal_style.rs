//! Colours and styles as terminals know them.
use crate::graphics::Color;
use crate::graphics::Modifier;
use crate::graphics::Style;
use crate::graphics::UnderlineStyle;
use crate::strings::decimal;
use crate::strings::decimal_digits;
use crate::strings::digits_value;
use crate::strings::hex_digit;
use crate::strings::hex_value;
use crate::strings::law_decimal_reads_back;
use crate::strings::law_hexadecimal_reads_back;
use vstd::prelude::*;
use vstd::string::*;

verus! {

/// The colours of the terminal library; its grey is the lighter one.
#[derive(Debug, Clone, Copy, PartialEq, Eq, Structural)]
pub enum TerminalColor {
    Reset,
    Black,
    Red,
    Green,
    Yellow,
    Blue,
    Magenta,
    Cyan,
    Gray,
    DarkGray,
    LightRed,
    LightGreen,
    LightYellow,
    LightBlue,
    LightMagenta,
    LightCyan,
    White,
    Rgb(u8, u8, u8),
    Indexed(u8),
}

/// The terminal's colour for a colour.
pub open spec fn to_terminal(color: Color) -> TerminalColor {
    match color {
        Color::Reset => TerminalColor::Reset,
        Color::Black => TerminalColor::Black,
        Color::Red => TerminalColor::Red,
        Color::Green => TerminalColor::Green,
        Color::Yellow => TerminalColor::Yellow,
        Color::Blue => TerminalColor::Blue,
        Color::Magenta => TerminalColor::Magenta,
        Color::Cyan => TerminalColor::Cyan,
        Color::Gray => TerminalColor::DarkGray,
        Color::LightRed => TerminalColor::LightRed,
        Color::LightGreen => TerminalColor::LightGreen,
        Color::LightYellow => TerminalColor::LightYellow,
        Color::LightBlue => TerminalColor::LightBlue,
        Color::LightMagenta => TerminalColor::LightMagenta,
        Color::LightCyan => TerminalColor::LightCyan,
        Color::LightGray => TerminalColor::Gray,
        Color::White => TerminalColor::White,
        Color::Rgb(r, g, b) => TerminalColor::Rgb(r, g, b),
        Color::Indexed(i) => TerminalColor::Indexed(i),
    }
}

/// The colour for a terminal's colour.
pub open spec fn from_terminal(color: TerminalColor) -> Color {
    match color {
        TerminalColor::Reset => Color::Reset,
        TerminalColor::Black => Color::Black,
        TerminalColor::Red => Color::Red,
        TerminalColor::Green => Color::Green,
        TerminalColor::Yellow => Color::Yellow,
        TerminalColor::Blue => Color::Blue,
        TerminalColor::Magenta => Color::Magenta,
        TerminalColor::Cyan => Color::Cyan,
        TerminalColor::DarkGray => Color::Gray,
        TerminalColor::LightRed => Color::LightRed,
        TerminalColor::LightGreen => Color::LightGreen,
        TerminalColor::LightYellow => Color::LightYellow,
        TerminalColor::LightBlue => Color::LightBlue,
        TerminalColor::LightMagenta => Color::LightMagenta,
        TerminalColor::LightCyan => Color::LightCyan,
        TerminalColor::Gray => Color::LightGray,
        TerminalColor::White => Color::White,
        TerminalColor::Rgb(r, g, b) => Color::Rgb(r, g, b),
        TerminalColor::Indexed(i) => Color::Indexed(i),
    }
}

/// No colour is lost on the way to the terminal and back.
pub proof fn law_colors_round_trip(color: Color, terminal: TerminalColor)
    ensures
        from_terminal(to_terminal(color)) == color,
        to_terminal(from_terminal(terminal)) == terminal,
{
}

impl From<Color> for TerminalColor {
    fn from(color: Color) -> (r: TerminalColor) {
        match color {
            Color::Reset => TerminalColor::Reset,
            Color::Black => TerminalColor::Black,
            Color::Red => TerminalColor::Red,
            Color::Green => TerminalColor::Green,
            Color::Yellow => TerminalColor::Yellow,
            Color::Blue => TerminalColor::Blue,
            Color::Magenta => TerminalColor::Magenta,
            Color::Cyan => TerminalColor::Cyan,
            Color::Gray => TerminalColor::DarkGray,
            Color::LightRed => TerminalColor::LightRed,
            Color::LightGreen => TerminalColor::LightGreen,
            Color::LightYellow => TerminalColor::LightYellow,
            Color::LightBlue => TerminalColor::LightBlue,
            Color::LightMagenta => TerminalColor::LightMagenta,
            Color::LightCyan => TerminalColor::LightCyan,
            Color::LightGray => TerminalColor::Gray,
            Color::White => TerminalColor::White,
            Color::Rgb(r, g, b) => TerminalColor::Rgb(r, g, b),
            Color::Indexed(i) => TerminalColor::Indexed(i),
        }
    }
}

impl vstd::std_specs::convert::FromSpecImpl<Color> for TerminalColor {
    open spec fn obeys_from_spec() -> bool {
        true
    }

    open spec fn from_spec(color: Color) -> TerminalColor {
        to_terminal(color)
    }
}

impl From<TerminalColor> for Color {
    fn from(color: TerminalColor) -> (r: Color) {
        match color {
            TerminalColor::Reset => Color::Reset,
            TerminalColor::Black => Color::Black,
            TerminalColor::Red => Color::Red,
            TerminalColor::Green => Color::Green,
            TerminalColor::Yellow => Color::Yellow,
            TerminalColor::Blue => Color::Blue,
            TerminalColor::Magenta => Color::Magenta,
            TerminalColor::Cyan => Color::Cyan,
            TerminalColor::DarkGray => Color::Gray,
            TerminalColor::LightRed => Color::LightRed,
            TerminalColor::LightGreen => Color::LightGreen,
            TerminalColor::LightYellow => Color::LightYellow,
            TerminalColor::LightBlue => Color::LightBlue,
            TerminalColor::LightMagenta => Color::LightMagenta,
            TerminalColor::LightCyan => Color::LightCyan,
            TerminalColor::Gray => Color::LightGray,
            TerminalColor::White => Color::White,
            TerminalColor::Rgb(r, g, b) => Color::Rgb(r, g, b),
            TerminalColor::Indexed(i) => Color::Indexed(i),
        }
    }
}

impl vstd::std_specs::convert::FromSpecImpl<TerminalColor> for Color {
    open spec fn obeys_from_spec() -> bool {
        true
    }

    open spec fn from_spec(color: TerminalColor) -> Color {
        from_terminal(color)
    }
}

/// The two hexadecimal digits of a byte.
pub open spec fn byte_digits(b: u8) -> Seq<char> {
    seq![hex_digit((b / 16) as nat), hex_digit((b % 16) as nat)]
}

/// The name by which the terminal library knows a colour.
pub open spec fn color_name(color: TerminalColor) -> Seq<char> {
    match color {
        TerminalColor::Reset => "reset"@,
        TerminalColor::Black => "black"@,
        TerminalColor::Red => "red"@,
        TerminalColor::Green => "green"@,
        TerminalColor::Yellow => "yellow"@,
        TerminalColor::Blue => "blue"@,
        TerminalColor::Magenta => "magenta"@,
        TerminalColor::Cyan => "cyan"@,
        TerminalColor::Gray => "gray"@,
        TerminalColor::DarkGray => "darkgray"@,
        TerminalColor::LightRed => "lightred"@,
        TerminalColor::LightGreen => "lightgreen"@,
        TerminalColor::LightYellow => "lightyellow"@,
        TerminalColor::LightBlue => "lightblue"@,
        TerminalColor::LightMagenta => "lightmagenta"@,
        TerminalColor::LightCyan => "lightcyan"@,
        TerminalColor::White => "white"@,
        TerminalColor::Rgb(r, g, b) => "#"@ + byte_digits(r) + byte_digits(g) + byte_digits(b),
        TerminalColor::Indexed(i) => decimal_digits(i as nat),
    }
}

fn hex_digit_of(d: u8) -> (r: char)
    requires
        d < 16,
    ensures
        r == hex_digit(d as nat),
{
    if d < 10 {
        (48u8 + d) as char
    } else {
        (87u8 + d) as char
    }
}

fn push_byte(s: &mut String, b: u8)
    ensures
        final(s)@ == old(s)@ + byte_digits(b),
{
    let ghost before = s@;
    s.push(hex_digit_of(b / 16));
    s.push(hex_digit_of(b % 16));
    assert(s@ =~= before + byte_digits(b));
}

impl TerminalColor {
    /// The name by which the terminal library knows the colour.
    pub fn name(self) -> (r: String)
        ensures
            r@ == color_name(self),
    {
        match self {
            TerminalColor::Reset => "reset".to_owned(),
            TerminalColor::Black => "black".to_owned(),
            TerminalColor::Red => "red".to_owned(),
            TerminalColor::Green => "green".to_owned(),
            TerminalColor::Yellow => "yellow".to_owned(),
            TerminalColor::Blue => "blue".to_owned(),
            TerminalColor::Magenta => "magenta".to_owned(),
            TerminalColor::Cyan => "cyan".to_owned(),
            TerminalColor::Gray => "gray".to_owned(),
            TerminalColor::DarkGray => "darkgray".to_owned(),
            TerminalColor::LightRed => "lightred".to_owned(),
            TerminalColor::LightGreen => "lightgreen".to_owned(),
            TerminalColor::LightYellow => "lightyellow".to_owned(),
            TerminalColor::LightBlue => "lightblue".to_owned(),
            TerminalColor::LightMagenta => "lightmagenta".to_owned(),
            TerminalColor::LightCyan => "lightcyan".to_owned(),
            TerminalColor::White => "white".to_owned(),
            TerminalColor::Rgb(r, g, b) => {
                let mut s = "#".to_owned();
                push_byte(&mut s, r);
                push_byte(&mut s, g);
                push_byte(&mut s, b);
                s
            },
            TerminalColor::Indexed(i) => decimal(i as u64),
        }
    }
}

/// The colours by the names of the input library, whose dark colours are the plain ones.
#[derive(Debug, Clone, Copy, PartialEq, Eq, Structural)]
pub enum CrosstermColor {
    Reset,
    Black,
    DarkGrey,
    Red,
    DarkRed,
    Green,
    DarkGreen,
    Yellow,
    DarkYellow,
    Blue,
    DarkBlue,
    Magenta,
    DarkMagenta,
    Cyan,
    DarkCyan,
    White,
    Grey,
    Rgb { r: u8, g: u8, b: u8 },
    AnsiValue(u8),
}

/// The input library's colour for a colour.
pub open spec fn to_crossterm(color: Color) -> CrosstermColor {
    match color {
        Color::Reset => CrosstermColor::Reset,
        Color::Black => CrosstermColor::Black,
        Color::Red => CrosstermColor::DarkRed,
        Color::Green => CrosstermColor::DarkGreen,
        Color::Yellow => CrosstermColor::DarkYellow,
        Color::Blue => CrosstermColor::DarkBlue,
        Color::Magenta => CrosstermColor::DarkMagenta,
        Color::Cyan => CrosstermColor::DarkCyan,
        Color::Gray => CrosstermColor::DarkGrey,
        Color::LightRed => CrosstermColor::Red,
        Color::LightGreen => CrosstermColor::Green,
        Color::LightBlue => CrosstermColor::Blue,
        Color::LightYellow => CrosstermColor::Yellow,
        Color::LightMagenta => CrosstermColor::Magenta,
        Color::LightCyan => CrosstermColor::Cyan,
        Color::LightGray => CrosstermColor::Grey,
        Color::White => CrosstermColor::White,
        Color::Indexed(i) => CrosstermColor::AnsiValue(i),
        Color::Rgb(r, g, b) => CrosstermColor::Rgb { r, g, b },
    }
}

impl From<Color> for CrosstermColor {
    fn from(color: Color) -> (r: CrosstermColor) {
        match color {
            Color::Reset => CrosstermColor::Reset,
            Color::Black => CrosstermColor::Black,
            Color::Red => CrosstermColor::DarkRed,
            Color::Green => CrosstermColor::DarkGreen,
            Color::Yellow => CrosstermColor::DarkYellow,
            Color::Blue => CrosstermColor::DarkBlue,
            Color::Magenta => CrosstermColor::DarkMagenta,
            Color::Cyan => CrosstermColor::DarkCyan,
            Color::Gray => CrosstermColor::DarkGrey,
            Color::LightRed => CrosstermColor::Red,
            Color::LightGreen => CrosstermColor::Green,
            Color::LightBlue => CrosstermColor::Blue,
            Color::LightYellow => CrosstermColor::Yellow,
            Color::LightMagenta => CrosstermColor::Magenta,
            Color::LightCyan => CrosstermColor::Cyan,
            Color::LightGray => CrosstermColor::Grey,
            Color::White => CrosstermColor::White,
            Color::Indexed(i) => CrosstermColor::AnsiValue(i),
            Color::Rgb(r, g, b) => CrosstermColor::Rgb { r, g, b },
        }
    }
}

impl vstd::std_specs::convert::FromSpecImpl<Color> for CrosstermColor {
    open spec fn obeys_from_spec() -> bool {
        true
    }

    open spec fn from_spec(color: Color) -> CrosstermColor {
        to_crossterm(color)
    }
}

/// Two colours never become the same one for the input library.
pub proof fn law_crossterm_colors_differ(a: Color, b: Color)
    requires
        a != b,
    ensures
        to_crossterm(a) != to_crossterm(b),
{
}

/// The input library's attributes for underlines.
#[derive(Debug, Clone, Copy, PartialEq, Eq, Structural)]
pub enum UnderlineAttribute {
    Underlined,
    Undercurled,
    Underdotted,
    Underdashed,
    DoubleUnderlined,
    NoUnderline,
}

/// The attribute for a way to underline.
pub open spec fn underline_attribute(style: UnderlineStyle) -> UnderlineAttribute {
    match style {
        UnderlineStyle::Line => UnderlineAttribute::Underlined,
        UnderlineStyle::Curl => UnderlineAttribute::Undercurled,
        UnderlineStyle::Dotted => UnderlineAttribute::Underdotted,
        UnderlineStyle::Dashed => UnderlineAttribute::Underdashed,
        UnderlineStyle::DoubleLine => UnderlineAttribute::DoubleUnderlined,
        UnderlineStyle::Reset => UnderlineAttribute::NoUnderline,
    }
}

impl From<UnderlineStyle> for UnderlineAttribute {
    fn from(style: UnderlineStyle) -> (r: UnderlineAttribute) {
        match style {
            UnderlineStyle::Line => UnderlineAttribute::Underlined,
            UnderlineStyle::Curl => UnderlineAttribute::Undercurled,
            UnderlineStyle::Dotted => UnderlineAttribute::Underdotted,
            UnderlineStyle::Dashed => UnderlineAttribute::Underdashed,
            UnderlineStyle::DoubleLine => UnderlineAttribute::DoubleUnderlined,
            UnderlineStyle::Reset => UnderlineAttribute::NoUnderline,
        }
    }
}

impl vstd::std_specs::convert::FromSpecImpl<UnderlineStyle> for UnderlineAttribute {
    open spec fn obeys_from_spec() -> bool {
        true
    }

    open spec fn from_spec(style: UnderlineStyle) -> UnderlineAttribute {
        underline_attribute(style)
    }
}

/// A style of the terminal library; the bits are those of its modifiers, where being underlined
/// is one of them.
#[derive(Debug, Clone, Copy, PartialEq, Eq, Structural)]
pub struct TerminalStyle {
    pub fg: Option<TerminalColor>,
    pub bg: Option<TerminalColor>,
    pub underline_color: Option<TerminalColor>,
    pub add_modifier: u16,
    pub sub_modifier: u16,
}

/// The terminal's colour for an optional colour.
pub open spec fn color_opt(color: Option<Color>) -> Option<TerminalColor> {
    match color {
        Some(c) => Some(to_terminal(c)),
        None => None,
    }
}

/// The colour for an optional colour of the terminal.
pub open spec fn color_back(color: Option<TerminalColor>) -> Option<Color> {
    match color {
        Some(c) => Some(from_terminal(c)),
        None => None,
    }
}

/// Whether a style underlines.
pub open spec fn underlines(style: Style) -> bool {
    style.underline_style matches Some(u) && u != UnderlineStyle::Reset
}

/// The terminal's style for a style.
pub open spec fn style_to_terminal(style: Style) -> TerminalStyle {
    TerminalStyle {
        fg: color_opt(style.fg),
        bg: color_opt(style.bg),
        underline_color: color_opt(style.underline_color),
        add_modifier: (style.add_modifier.bits & 0x1f7) | (if underlines(style) {
            0x8u16
        } else {
            0u16
        }),
        sub_modifier: style.sub_modifier.bits & 0x1f7,
    }
}

/// The style for a style of the terminal.
pub open spec fn style_from_terminal(style: TerminalStyle) -> Style {
    Style {
        fg: color_back(style.fg),
        bg: color_back(style.bg),
        underline_color: color_back(style.underline_color),
        underline_style: if style.add_modifier & 0x8 == 0x8 {
            Some(UnderlineStyle::Line)
        } else {
            None
        },
        add_modifier: Modifier { bits: style.add_modifier & 0x1f7 },
        sub_modifier: Modifier { bits: style.sub_modifier & 0x1f7 },
    }
}

fn convert_opt(color: Option<Color>) -> (r: Option<TerminalColor>)
    ensures
        r == color_opt(color),
{
    match color {
        Some(c) => Some(TerminalColor::from(c)),
        None => None,
    }
}

fn convert_back(color: Option<TerminalColor>) -> (r: Option<Color>)
    ensures
        r == color_back(color),
{
    match color {
        Some(c) => Some(Color::from(c)),
        None => None,
    }
}

impl From<Style> for TerminalStyle {
    fn from(style: Style) -> (r: TerminalStyle) {
        let underlined: u16 = match style.underline_style {
            Some(u) => if u != UnderlineStyle::Reset {
                0x8
            } else {
                0
            },
            None => 0,
        };
        TerminalStyle {
            fg: convert_opt(style.fg),
            bg: convert_opt(style.bg),
            underline_color: convert_opt(style.underline_color),
            add_modifier: (style.add_modifier.bits & 0x1f7) | underlined,
            sub_modifier: style.sub_modifier.bits & 0x1f7,
        }
    }
}

impl vstd::std_specs::convert::FromSpecImpl<Style> for TerminalStyle {
    open spec fn obeys_from_spec() -> bool {
        true
    }

    open spec fn from_spec(style: Style) -> TerminalStyle {
        style_to_terminal(style)
    }
}

impl From<TerminalStyle> for Style {
    fn from(style: TerminalStyle) -> (r: Style) {
        Style {
            fg: convert_back(style.fg),
            bg: convert_back(style.bg),
            underline_color: convert_back(style.underline_color),
            underline_style: if style.add_modifier & 0x8 == 0x8 {
                Some(UnderlineStyle::Line)
            } else {
                None
            },
            add_modifier: Modifier { bits: style.add_modifier & 0x1f7 },
            sub_modifier: Modifier { bits: style.sub_modifier & 0x1f7 },
        }
    }
}

impl vstd::std_specs::convert::FromSpecImpl<TerminalStyle> for Style {
    open spec fn obeys_from_spec() -> bool {
        true
    }

    open spec fn from_spec(style: TerminalStyle) -> Style {
        style_from_terminal(style)
    }
}

/// On the way to the terminal and back a style only loses in which way it underlines: every way
/// becomes a plain line.
pub proof fn law_styles_round_trip(style: Style)
    requires
        style.add_modifier.bits & 0x1f7 == style.add_modifier.bits,
        style.sub_modifier.bits & 0x1f7 == style.sub_modifier.bits,
    ensures
        style_from_terminal(style_to_terminal(style)) == (Style {
            underline_style: if underlines(style) {
                Some(UnderlineStyle::Line)
            } else {
                None
            },
            ..style
        }),
{
    let (a, s) = (style.add_modifier.bits, style.sub_modifier.bits);
    assert(((a & 0x1f7) | 0x8) & 0x8 == 0x8u16) by (bit_vector);
    assert(((a & 0x1f7) | 0) & 0x8 == 0u16) by (bit_vector);
    assert(((a & 0x1f7) | 0x8) & 0x1f7 == a & 0x1f7) by (bit_vector);
    assert(((a & 0x1f7) | 0) & 0x1f7 == a & 0x1f7) by (bit_vector);
    assert((s & 0x1f7) & 0x1f7 == s & 0x1f7) by (bit_vector);
}

/// Every colour keeps its name on the way to the terminal, except that the terminal's grey is the
/// lighter one.
pub proof fn law_colours_keep_their_names(color: Color)
    ensures
        to_terminal(color) == TerminalColor::Reset <==> color == Color::Reset,
        to_terminal(color) == TerminalColor::Black <==> color == Color::Black,
        to_terminal(color) == TerminalColor::Red <==> color == Color::Red,
        to_terminal(color) == TerminalColor::Green <==> color == Color::Green,
        to_terminal(color) == TerminalColor::Yellow <==> color == Color::Yellow,
        to_terminal(color) == TerminalColor::Blue <==> color == Color::Blue,
        to_terminal(color) == TerminalColor::Magenta <==> color == Color::Magenta,
        to_terminal(color) == TerminalColor::Cyan <==> color == Color::Cyan,
        to_terminal(color) == TerminalColor::LightRed <==> color == Color::LightRed,
        to_terminal(color) == TerminalColor::LightGreen <==> color == Color::LightGreen,
        to_terminal(color) == TerminalColor::LightYellow <==> color == Color::LightYellow,
        to_terminal(color) == TerminalColor::LightBlue <==> color == Color::LightBlue,
        to_terminal(color) == TerminalColor::LightMagenta <==> color == Color::LightMagenta,
        to_terminal(color) == TerminalColor::LightCyan <==> color == Color::LightCyan,
        to_terminal(color) == TerminalColor::White <==> color == Color::White,
        to_terminal(color) == TerminalColor::Gray <==> color == Color::LightGray,
        to_terminal(color) == TerminalColor::DarkGray <==> color == Color::Gray,
        color matches Color::Rgb(r, g, b) ==> to_terminal(color) == TerminalColor::Rgb(r, g, b),
        color matches Color::Indexed(i) ==> to_terminal(color) == TerminalColor::Indexed(i),
{
}

/// The input library calls the plain colours dark and the light ones plain.
pub proof fn law_plain_colours_are_dark(color: Color)
    ensures
        to_crossterm(color) == CrosstermColor::Reset <==> color == Color::Reset,
        to_crossterm(color) == CrosstermColor::Black <==> color == Color::Black,
        to_crossterm(color) == CrosstermColor::White <==> color == Color::White,
        to_crossterm(color) == CrosstermColor::Grey <==> color == Color::LightGray,
        to_crossterm(color) == CrosstermColor::DarkGrey <==> color == Color::Gray,
        to_crossterm(color) == CrosstermColor::DarkRed <==> color == Color::Red,
        to_crossterm(color) == CrosstermColor::Red <==> color == Color::LightRed,
        to_crossterm(color) == CrosstermColor::DarkGreen <==> color == Color::Green,
        to_crossterm(color) == CrosstermColor::Green <==> color == Color::LightGreen,
        to_crossterm(color) == CrosstermColor::DarkYellow <==> color == Color::Yellow,
        to_crossterm(color) == CrosstermColor::Yellow <==> color == Color::LightYellow,
        to_crossterm(color) == CrosstermColor::DarkBlue <==> color == Color::Blue,
        to_crossterm(color) == CrosstermColor::Blue <==> color == Color::LightBlue,
        to_crossterm(color) == CrosstermColor::DarkMagenta <==> color == Color::Magenta,
        to_crossterm(color) == CrosstermColor::Magenta <==> color == Color::LightMagenta,
        to_crossterm(color) == CrosstermColor::DarkCyan <==> color == Color::Cyan,
        to_crossterm(color) == CrosstermColor::Cyan <==> color == Color::LightCyan,
        color matches Color::Rgb(r, g, b) ==> to_crossterm(color) == (CrosstermColor::Rgb { r, g, b }),
        color matches Color::Indexed(i) ==> to_crossterm(color) == CrosstermColor::AnsiValue(i),
{
}

/// A colour that is given by its parts is written with a hash and two digits for each part, and its
/// digits read back as those parts.
pub proof fn law_colour_text_reads_back(r: u8, g: u8, b: u8)
    ensures
        ({
            let s = color_name(TerminalColor::Rgb(r, g, b));
            &&& s.len() == 7
            &&& s[0] == '#'
            &&& hex_value(s.subrange(1, 3)) == r
            &&& hex_value(s.subrange(3, 5)) == g
            &&& hex_value(s.subrange(5, 7)) == b
        }),
        digits_value(color_name(TerminalColor::Indexed(r))) == r,
{
    reveal_strlit("#");
    let s = color_name(TerminalColor::Rgb(r, g, b));
    assert(s.subrange(1, 3) =~= byte_digits(r));
    assert(s.subrange(3, 5) =~= byte_digits(g));
    assert(s.subrange(5, 7) =~= byte_digits(b));
    lemma_byte_digits(r);
    lemma_byte_digits(g);
    lemma_byte_digits(b);
    law_decimal_reads_back(r as nat);
}

proof fn lemma_byte_digits(b: u8)
    ensures
        hex_value(byte_digits(b)) == b,
{
    let s = byte_digits(b);
    law_hexadecimal_reads_back((b / 16) as nat);
    law_hexadecimal_reads_back((b % 16) as nat);
    reveal_with_fuel(hex_value, 3);
    assert(s.drop_last() =~= seq![s[0]]);
    assert(s.drop_last().drop_last() =~= Seq::empty());
}

/// Each way to underline has its own attribute, and only resetting it takes the underline away.
pub proof fn law_underline_attributes(style: UnderlineStyle)
    ensures
        underline_attribute(style) == UnderlineAttribute::Underlined <==> style == UnderlineStyle::Line,
        underline_attribute(style) == UnderlineAttribute::Undercurled <==> style == UnderlineStyle::Curl,
        underline_attribute(style) == UnderlineAttribute::Underdotted <==> style
            == UnderlineStyle::Dotted,
        underline_attribute(style) == UnderlineAttribute::Underdashed <==> style
            == UnderlineStyle::Dashed,
        underline_attribute(style) == UnderlineAttribute::DoubleUnderlined <==> style
            == UnderlineStyle::DoubleLine,
        underline_attribute(style) == UnderlineAttribute::NoUnderline <==> style
            == UnderlineStyle::Reset,
{
}

/// On the way to the terminal the colours of a style stay where they are.
pub proof fn law_terminal_style_colours(style: Style)
    ensures
        style.fg matches Some(c) ==> style_to_terminal(style).fg == Some(to_terminal(c)),
        style.bg matches Some(c) ==> style_to_terminal(style).bg == Some(to_terminal(c)),
        style.underline_color matches Some(c) ==> style_to_terminal(style).underline_color == Some(
            to_terminal(c),
        ),
        style.fg is None <==> style_to_terminal(style).fg is None,
        style.bg is None <==> style_to_terminal(style).bg is None,
        style.underline_color is None <==> style_to_terminal(style).underline_color is None,
        underlines(style) <==> style.underline_style is Some && style.underline_style != Some(
            UnderlineStyle::Reset,
        ),
{
}

/// The colours that have a name are known to the terminal library by these names.
pub proof fn law_colour_names()
    ensures
        color_name(TerminalColor::Reset) == "reset"@,
        color_name(TerminalColor::Black) == "black"@,
        color_name(TerminalColor::Red) == "red"@,
        color_name(TerminalColor::Green) == "green"@,
        color_name(TerminalColor::Yellow) == "yellow"@,
        color_name(TerminalColor::Blue) == "blue"@,
        color_name(TerminalColor::Magenta) == "magenta"@,
        color_name(TerminalColor::Cyan) == "cyan"@,
        color_name(TerminalColor::Gray) == "gray"@,
        color_name(TerminalColor::DarkGray) == "darkgray"@,
        color_name(TerminalColor::LightRed) == "lightred"@,
        color_name(TerminalColor::LightGreen) == "lightgreen"@,
        color_name(TerminalColor::LightYellow) == "lightyellow"@,
        color_name(TerminalColor::LightBlue) == "lightblue"@,
        color_name(TerminalColor::LightMagenta) == "lightmagenta"@,
        color_name(TerminalColor::LightCyan) == "lightcyan"@,
        color_name(TerminalColor::White) == "white"@,
{
}

} // verus!
