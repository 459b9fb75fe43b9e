//! Rectangles, colours, text modifiers and styles.
use crate::strings::str_eq;
use vstd::prelude::*;
use vstd::string::*;

verus! {

/// The value of one hexadecimal digit, if `b` is one.
pub open spec fn nibble_value(b: u8) -> Option<u8> {
    if 65 <= b <= 70 {
        Some((b - 55) as u8)
    } else if 97 <= b <= 102 {
        Some((b - 87) as u8)
    } else if 48 <= b <= 57 {
        Some((b - 48) as u8)
    } else {
        None
    }
}

/// Decodes a hexadecimal digit; anything else gives `0xff`.
#[must_use]
pub fn from_nibble(h: u8) -> (r: u8)
    ensures
        match nibble_value(h) {
            Some(v) => r == v && r <= 0xf,
            None => r == 0xff,
        },
{
    if 65 <= h && h <= 70 {
        h - 65 + 10
    } else if 97 <= h && h <= 102 {
        h - 97 + 10
    } else if 48 <= h && h <= 57 {
        h - 48
    } else {
        0xff
    }
}

/// Decodes a digit and repeats its value on each half of the byte.
#[must_use]
pub fn dupe_from_nibble(h: u8) -> (r: Option<u8>)
    ensures
        match nibble_value(h) {
            Some(v) => r == Some((17 * v) as u8),
            None => r is None,
        },
{
    let n: u8 = from_nibble(h);
    if n > 0xf {
        return None;
    }
    assert(n <= 0xf ==> (n << 4) | n == 17 * n) by (bit_vector);
    Some((n << 4) | n)
}

/// Decodes a pair of digits, the first one being the more significant.
pub fn byte_from_hex(h: [u8; 2]) -> (r: Option<u8>)
    ensures
        match (nibble_value(h[0]), nibble_value(h[1])) {
            (Some(hi), Some(lo)) => r == Some((16 * hi + lo) as u8),
            _ => r is None,
        },
{
    let hi: u8 = from_nibble(h[0]);
    let lo: u8 = from_nibble(h[1]);
    if hi > 0xf || lo > 0xf {
        return None;
    }
    assert(hi <= 0xf && lo <= 0xf ==> (hi << 4) | lo == 16 * hi + lo) by (bit_vector);
    Some((hi << 4) | lo)
}

/// The shape in which a cursor is drawn.
#[derive(Debug, Clone, Copy, PartialEq, Eq, Structural)]
pub enum CursorKind {
    /// A filled cell.
    Block,
    /// A vertical bar.
    Bar,
    /// A line under the cell.
    Underline,
    /// Not drawn, though it may still have a position.
    Hidden,
}

impl Default for CursorKind {
    fn default() -> (r: Self)
        ensures
            r == CursorKind::Block,
    {
        CursorKind::Block
    }
}

/// A rectangle of terminal cells.
#[derive(Debug, Clone, Copy, PartialEq, Eq, Structural)]
pub struct Rect {
    pub x: u16,
    pub y: u16,
    pub width: u16,
    pub height: u16,
}

/// The smaller of two numbers.
pub open spec fn min_int(a: int, b: int) -> int {
    if a <= b {
        a
    } else {
        b
    }
}

/// `a - b`, but never below zero.
pub open spec fn monus(a: int, b: int) -> int {
    if a >= b {
        a - b
    } else {
        0
    }
}

/// The smaller of two column or row counts.
pub fn min_u16(a: u16, b: u16) -> (r: u16)
    ensures
        r == min_int(a as int, b as int),
{
    if a <= b {
        a
    } else {
        b
    }
}

impl Rect {
    /// The rectangle that `Rect::new` makes: it never reaches past the last coordinate.
    pub open spec fn spec_new(x: u16, y: u16, width: u16, height: u16) -> Rect {
        Rect {
            x,
            y,
            width: min_int(width as int, u16::MAX - x) as u16,
            height: min_int(height as int, u16::MAX - y) as u16,
        }
    }

    /// The first column to the right of the rectangle.
    pub open spec fn spec_right(self) -> int {
        min_int(self.x + self.width, u16::MAX as int)
    }

    /// The first row below the rectangle.
    pub open spec fn spec_bottom(self) -> int {
        min_int(self.y + self.height, u16::MAX as int)
    }

    /// Whether the cell at `(x, y)` lies in the rectangle.
    pub open spec fn holds(self, x: int, y: int) -> bool {
        self.x <= x < self.spec_right() && self.y <= y < self.spec_bottom()
    }

    /// Makes a rectangle, cutting off what lies past the last coordinate.
    pub fn new(x: u16, y: u16, width: u16, height: u16) -> (r: Rect)
        ensures
            r == Rect::spec_new(x, y, width, height),
    {
        Rect { x, y, width: x.saturating_add(width) - x, height: y.saturating_add(height) - y }
    }

    /// The number of cells.
    pub fn area(self) -> (r: u32)
        ensures
            r == self.width * self.height,
    {
        assert(self.width * self.height <= 65535 * 65535) by (nonlinear_arith)
            requires
                self.width <= 65535,
                self.height <= 65535,
        ;
        self.width as u32 * self.height as u32
    }

    pub fn left(self) -> (r: u16)
        ensures
            r == self.x,
    {
        self.x
    }

    pub fn right(self) -> (r: u16)
        ensures
            r == self.spec_right(),
    {
        self.x.saturating_add(self.width)
    }

    pub fn top(self) -> (r: u16)
        ensures
            r == self.y,
    {
        self.y
    }

    pub fn bottom(self) -> (r: u16)
        ensures
            r == self.spec_bottom(),
    {
        self.y.saturating_add(self.height)
    }
}

impl Default for Rect {
    fn default() -> (r: Self)
        ensures
            r == (Rect { x: 0, y: 0, width: 0, height: 0 }),
    {
        Rect { x: 0, y: 0, width: 0, height: 0 }
    }
}

/// `Rect` with `width` columns cut off on the left.
pub open spec fn clipped_left(r: Rect, width: u16) -> Rect {
    let w = min_int(width as int, r.width as int);
    Rect { x: min_int(r.x + w, u16::MAX as int) as u16, width: (r.width - w) as u16, ..r }
}

/// `Rect` with `width` columns cut off on the right.
pub open spec fn clipped_right(r: Rect, width: u16) -> Rect {
    Rect { width: monus(r.width as int, width as int) as u16, ..r }
}

/// `Rect` with `height` rows cut off at the top.
pub open spec fn clipped_top(r: Rect, height: u16) -> Rect {
    let h = min_int(height as int, r.height as int);
    Rect { y: min_int(r.y + h, u16::MAX as int) as u16, height: (r.height - h) as u16, ..r }
}

/// `Rect` with `height` rows cut off at the bottom.
pub open spec fn clipped_bottom(r: Rect, height: u16) -> Rect {
    Rect { height: monus(r.height as int, height as int) as u16, ..r }
}

/// Cutting and resizing rectangles.
pub trait RectExt {
    fn clip_left(self, width: u16) -> Rect;

    fn clip_right(self, width: u16) -> Rect;

    fn clip_top(self, height: u16) -> Rect;

    fn clip_bottom(self, height: u16) -> Rect;

    fn with_height(self, height: u16) -> Rect;

    fn with_width(self, width: u16) -> Rect;
}

impl RectExt for Rect {
    fn clip_left(self, width: u16) -> (r: Rect)
        ensures
            r == clipped_left(self, width),
    {
        let width: u16 = min_u16(width, self.width);
        Rect { x: self.x.saturating_add(width), width: self.width.saturating_sub(width), ..self }
    }

    fn clip_right(self, width: u16) -> (r: Rect)
        ensures
            r == clipped_right(self, width),
    {
        Rect { width: self.width.saturating_sub(width), ..self }
    }

    fn clip_top(self, height: u16) -> (r: Rect)
        ensures
            r == clipped_top(self, height),
    {
        let height: u16 = min_u16(height, self.height);
        Rect { y: self.y.saturating_add(height), height: self.height.saturating_sub(height), ..self }
    }

    fn clip_bottom(self, height: u16) -> (r: Rect)
        ensures
            r == clipped_bottom(self, height),
    {
        Rect { height: self.height.saturating_sub(height), ..self }
    }

    fn with_height(self, height: u16) -> (r: Rect)
        ensures
            r == Rect::spec_new(self.x, self.y, self.width, height),
    {
        Rect::new(self.x, self.y, self.width, height)
    }

    fn with_width(self, width: u16) -> (r: Rect)
        ensures
            r == Rect::spec_new(self.x, self.y, width, self.height),
    {
        Rect::new(self.x, self.y, width, self.height)
    }
}

/// Clipping never adds a cell: what lies in the clipped rectangle lay in the rectangle.
pub proof fn law_clip_shrinks(r: Rect, n: u16, x: int, y: int)
    ensures
        clipped_left(r, n).holds(x, y) ==> r.holds(x, y),
        clipped_right(r, n).holds(x, y) ==> r.holds(x, y),
        clipped_top(r, n).holds(x, y) ==> r.holds(x, y),
        clipped_bottom(r, n).holds(x, y) ==> r.holds(x, y),
{
}

/// Clipping a rectangle on the left keeps its right edge.
pub proof fn law_clip_left_keeps_right(r: Rect, n: u16)
    ensures
        clipped_left(r, n).spec_right() == r.spec_right() || r.x + r.width > u16::MAX,
        clipped_top(r, n).spec_bottom() == r.spec_bottom() || r.y + r.height > u16::MAX,
{
}

/// A terminal colour.
#[derive(Debug, Clone, Copy, PartialEq, Eq, Structural)]
pub enum Color {
    Reset,
    Black,
    Red,
    Green,
    Yellow,
    Blue,
    Magenta,
    Cyan,
    Gray,
    LightRed,
    LightGreen,
    LightYellow,
    LightBlue,
    LightMagenta,
    LightCyan,
    LightGray,
    White,
    Rgb(u8, u8, u8),
    Indexed(u8),
}

/// Why a hex colour code was refused.
#[derive(Debug, Clone, Copy, PartialEq, Eq, Structural)]
pub enum MalformedHex {
    NoHash,
    LenOOB,
    NotANibble,
}

impl MalformedHex {
    /// What is shown to the user.
    pub open spec fn text(self) -> Seq<char> {
        "Malformed hex color code: "@ + (match self {
            MalformedHex::NoHash => "Missing hash prefix"@,
            MalformedHex::LenOOB => "Must be 12 or 24 bit RGB"@,
            MalformedHex::NotANibble => "One or more chars is not hex digit (nibble)"@,
        })
    }

    /// The message for the user.
    pub fn message(&self) -> (r: String)
        ensures
            r@ == self.text(),
    {
        let reason = match self {
            MalformedHex::NoHash => "Missing hash prefix",
            MalformedHex::LenOOB => "Must be 12 or 24 bit RGB",
            MalformedHex::NotANibble => "One or more chars is not hex digit (nibble)",
        };
        let mut s = "Malformed hex color code: ".to_owned();
        s.append(reason);
        s
    }
}

/// The byte that two hexadecimal digits spell.
pub open spec fn hex_pair(hi: u8, lo: u8) -> Option<u8> {
    match (nibble_value(hi), nibble_value(lo)) {
        (Some(h), Some(l)) => Some((16 * h + l) as u8),
        _ => None,
    }
}

/// The colour of three components, if all are there.
pub open spec fn rgb_of(r: Option<u8>, g: Option<u8>, b: Option<u8>) -> Result<Color, MalformedHex> {
    match (r, g, b) {
        (Some(r), Some(g), Some(b)) => Ok(Color::Rgb(r, g, b)),
        _ => Err(MalformedHex::NotANibble),
    }
}

/// What a colour code of the form `#RRGGBB` or `#RGB` means.
pub open spec fn hex_color(h: Seq<u8>) -> Result<Color, MalformedHex> {
    if h.len() == 0 || h[0] != 35 {
        Err(MalformedHex::NoHash)
    } else if h.len() == 7 {
        rgb_of(hex_pair(h[1], h[2]), hex_pair(h[3], h[4]), hex_pair(h[5], h[6]))
    } else if h.len() == 4 {
        rgb_of(hex_pair(h[1], h[1]), hex_pair(h[2], h[2]), hex_pair(h[3], h[3]))
    } else {
        Err(MalformedHex::LenOOB)
    }
}

impl Color {
    /// Reads a colour from a hex string of the form `#RRGGBB` or `#RGB`.
    pub fn from_hex(h: &str) -> (r: Result<Self, MalformedHex>)
        ensures
            r == hex_color(h.spec_bytes()),
    {
        let h = h.as_bytes();
        if h.len() == 0 || h[0] != 35 {
            return Err(MalformedHex::NoHash);
        }
        if h.len() == 7 {
            match (
                byte_from_hex([h[1], h[2]]),
                byte_from_hex([h[3], h[4]]),
                byte_from_hex([h[5], h[6]]),
            ) {
                (Some(r), Some(g), Some(b)) => Ok(Color::Rgb(r, g, b)),
                _ => Err(MalformedHex::NotANibble),
            }
        } else if h.len() == 4 {
            match (dupe_from_nibble(h[1]), dupe_from_nibble(h[2]), dupe_from_nibble(h[3])) {
                (Some(r), Some(g), Some(b)) => Ok(Color::Rgb(r, g, b)),
                _ => Err(MalformedHex::NotANibble),
            }
        } else {
            Err(MalformedHex::LenOOB)
        }
    }
}

/// How underlined text is drawn.
#[derive(Debug, Clone, Copy, PartialEq, Eq, Structural)]
pub enum UnderlineStyle {
    Reset,
    Line,
    Curl,
    Dotted,
    Dashed,
    DoubleLine,
}

/// The underline style of a name.
pub open spec fn underline_named(s: Seq<char>) -> Option<UnderlineStyle> {
    if s == "line"@ {
        Some(UnderlineStyle::Line)
    } else if s == "curl"@ {
        Some(UnderlineStyle::Curl)
    } else if s == "dotted"@ {
        Some(UnderlineStyle::Dotted)
    } else if s == "dashed"@ {
        Some(UnderlineStyle::Dashed)
    } else if s == "double_line"@ {
        Some(UnderlineStyle::DoubleLine)
    } else {
        None
    }
}

impl UnderlineStyle {
    /// Looks an underline style up by its name.
    pub fn from_str(modifier: &str) -> (r: Result<Self, &'static str>)
        ensures
            match underline_named(modifier@) {
                Some(u) => r == Ok::<Self, &'static str>(u),
                None => r matches Err(e) && e@ == "Invalid underline style"@,
            },
    {
        if str_eq(modifier, "line") {
            Ok(UnderlineStyle::Line)
        } else if str_eq(modifier, "curl") {
            Ok(UnderlineStyle::Curl)
        } else if str_eq(modifier, "dotted") {
            Ok(UnderlineStyle::Dotted)
        } else if str_eq(modifier, "dashed") {
            Ok(UnderlineStyle::Dashed)
        } else if str_eq(modifier, "double_line") {
            Ok(UnderlineStyle::DoubleLine)
        } else {
            Err("Invalid underline style")
        }
    }
}

/// A set of ways in which text is emphasised, one bit each.
#[derive(Debug, Clone, Copy, PartialEq, Eq, Structural)]
pub struct Modifier {
    pub bits: u16,
}

impl Modifier {
    /// Bold text.
    pub fn bold() -> (r: Modifier)
        ensures
            r == (Modifier { bits: 0x001 }),
    {
        Modifier { bits: 0x001 }
    }

    /// Faint text.
    pub fn dim() -> (r: Modifier)
        ensures
            r == (Modifier { bits: 0x002 }),
    {
        Modifier { bits: 0x002 }
    }

    /// Slanted text.
    pub fn italic() -> (r: Modifier)
        ensures
            r == (Modifier { bits: 0x004 }),
    {
        Modifier { bits: 0x004 }
    }

    /// Text that blinks slowly.
    pub fn slow_blink() -> (r: Modifier)
        ensures
            r == (Modifier { bits: 0x010 }),
    {
        Modifier { bits: 0x010 }
    }

    /// Text that blinks fast.
    pub fn rapid_blink() -> (r: Modifier)
        ensures
            r == (Modifier { bits: 0x020 }),
    {
        Modifier { bits: 0x020 }
    }

    /// Foreground and background swapped.
    pub fn reversed() -> (r: Modifier)
        ensures
            r == (Modifier { bits: 0x040 }),
    {
        Modifier { bits: 0x040 }
    }

    /// Text that is not shown.
    pub fn hidden() -> (r: Modifier)
        ensures
            r == (Modifier { bits: 0x080 }),
    {
        Modifier { bits: 0x080 }
    }

    /// Struck out text.
    pub fn crossed_out() -> (r: Modifier)
        ensures
            r == (Modifier { bits: 0x100 }),
    {
        Modifier { bits: 0x100 }
    }

    /// No emphasis.
    pub fn empty() -> (r: Modifier)
        ensures
            r.bits == 0,
    {
        Modifier { bits: 0 }
    }

    /// Every emphasis there is.
    pub fn all() -> (r: Modifier)
        ensures
            r.bits == 0x1f7,
    {
        Modifier { bits: 0x1f7 }
    }

    /// Whether every emphasis of `other` is in the set.
    pub fn contains(&self, other: Modifier) -> (r: bool)
        ensures
            r == (self.bits & other.bits == other.bits),
    {
        self.bits & other.bits == other.bits
    }

    /// Adds the emphases of `other`.
    pub fn insert(&mut self, other: Modifier)
        ensures
            final(self).bits == old(self).bits | other.bits,
    {
        self.bits = self.bits | other.bits;
    }

    /// Takes the emphases of `other` out.
    pub fn remove(&mut self, other: Modifier)
        ensures
            final(self).bits == old(self).bits & !other.bits,
    {
        self.bits = self.bits & !other.bits;
    }

    /// Looks an emphasis up by its name.
    pub fn from_str(modifier: &str) -> (r: Result<Self, &'static str>)
        ensures
            match modifier_named(modifier@) {
                Some(m) => r == Ok::<Self, &'static str>(m),
                None => r matches Err(e) && e@ == "Invalid modifier"@,
            },
    {
        if str_eq(modifier, "bold") {
            Ok(Modifier::bold())
        } else if str_eq(modifier, "dim") {
            Ok(Modifier::dim())
        } else if str_eq(modifier, "italic") {
            Ok(Modifier::italic())
        } else if str_eq(modifier, "slow_blink") {
            Ok(Modifier::slow_blink())
        } else if str_eq(modifier, "rapid_blink") {
            Ok(Modifier::rapid_blink())
        } else if str_eq(modifier, "reversed") {
            Ok(Modifier::reversed())
        } else if str_eq(modifier, "hidden") {
            Ok(Modifier::hidden())
        } else if str_eq(modifier, "crossed_out") {
            Ok(Modifier::crossed_out())
        } else {
            Err("Invalid modifier")
        }
    }
}

/// The emphasis of a name.
pub open spec fn modifier_named(s: Seq<char>) -> Option<Modifier> {
    if s == "bold"@ {
        Some(Modifier { bits: 0x001 })
    } else if s == "dim"@ {
        Some(Modifier { bits: 0x002 })
    } else if s == "italic"@ {
        Some(Modifier { bits: 0x004 })
    } else if s == "slow_blink"@ {
        Some(Modifier { bits: 0x010 })
    } else if s == "rapid_blink"@ {
        Some(Modifier { bits: 0x020 })
    } else if s == "reversed"@ {
        Some(Modifier { bits: 0x040 })
    } else if s == "hidden"@ {
        Some(Modifier { bits: 0x080 })
    } else if s == "crossed_out"@ {
        Some(Modifier { bits: 0x100 })
    } else {
        None
    }
}

impl std::ops::BitOr for Modifier {
    type Output = Modifier;

    fn bitor(self, other: Modifier) -> (r: Modifier) {
        Modifier { bits: self.bits | other.bits }
    }
}

impl vstd::std_specs::ops::BitOrSpecImpl for Modifier {
    open spec fn obeys_bitor_spec() -> bool {
        true
    }

    open spec fn bitor_req(self, rhs: Modifier) -> bool {
        true
    }

    open spec fn bitor_spec(self, rhs: Modifier) -> Modifier {
        Modifier { bits: self.bits | rhs.bits }
    }
}

/// An incremental change to the look of a cell: what it leaves open stays as it was.
#[derive(Debug, Clone, Copy, PartialEq, Eq, Structural)]
pub struct Style {
    pub fg: Option<Color>,
    pub bg: Option<Color>,
    pub underline_color: Option<Color>,
    pub underline_style: Option<UnderlineStyle>,
    pub add_modifier: Modifier,
    pub sub_modifier: Modifier,
}

/// The style that changes nothing.
pub open spec fn plain_style() -> Style {
    Style {
        fg: None,
        bg: None,
        underline_color: None,
        underline_style: None,
        add_modifier: Modifier { bits: 0 },
        sub_modifier: Modifier { bits: 0 },
    }
}

/// The style that resets everything.
pub open spec fn reset_style() -> Style {
    Style {
        fg: Some(Color::Reset),
        bg: Some(Color::Reset),
        underline_color: Some(Color::Reset),
        underline_style: Some(UnderlineStyle::Reset),
        add_modifier: Modifier { bits: 0 },
        sub_modifier: Modifier { bits: 0x1f7 },
    }
}

/// `b` if it says something, else `a`.
pub open spec fn later<T>(a: Option<T>, b: Option<T>) -> Option<T> {
    match b {
        Some(_) => b,
        None => a,
    }
}

/// The style that applies `a` and then `b`.
pub open spec fn patched(a: Style, b: Style) -> Style {
    Style {
        fg: later(a.fg, b.fg),
        bg: later(a.bg, b.bg),
        underline_color: later(a.underline_color, b.underline_color),
        underline_style: later(a.underline_style, b.underline_style),
        add_modifier: Modifier {
            bits: (a.add_modifier.bits & !b.sub_modifier.bits) | b.add_modifier.bits,
        },
        sub_modifier: Modifier {
            bits: (a.sub_modifier.bits & !b.add_modifier.bits) | b.sub_modifier.bits,
        },
    }
}

impl Default for Style {
    fn default() -> (r: Self)
        ensures
            r == plain_style(),
    {
        Style::new()
    }
}

impl Style {
    /// A style that changes nothing.
    pub fn new() -> (r: Self)
        ensures
            r == plain_style(),
    {
        Style {
            fg: None,
            bg: None,
            underline_color: None,
            underline_style: None,
            add_modifier: Modifier::empty(),
            sub_modifier: Modifier::empty(),
        }
    }

    /// A style that resets all colours, the underline and every emphasis.
    pub fn reset() -> (r: Self)
        ensures
            r == reset_style(),
    {
        Style {
            fg: Some(Color::Reset),
            bg: Some(Color::Reset),
            underline_color: Some(Color::Reset),
            underline_style: Some(UnderlineStyle::Reset),
            add_modifier: Modifier::empty(),
            sub_modifier: Modifier::all(),
        }
    }

    /// Changes the foreground colour.
    pub fn fg(self, color: Color) -> (r: Style)
        ensures
            r == (Style { fg: Some(color), ..self }),
    {
        Style { fg: Some(color), ..self }
    }

    /// Changes the background colour.
    pub fn bg(self, color: Color) -> (r: Style)
        ensures
            r == (Style { bg: Some(color), ..self }),
    {
        Style { bg: Some(color), ..self }
    }

    /// Changes the colour of the underline.
    pub fn underline_color(self, color: Color) -> (r: Style)
        ensures
            r == (Style { underline_color: Some(color), ..self }),
    {
        Style { underline_color: Some(color), ..self }
    }

    /// Changes how underlines are drawn.
    pub fn underline_style(self, style: UnderlineStyle) -> (r: Style)
        ensures
            r == (Style { underline_style: Some(style), ..self }),
    {
        Style { underline_style: Some(style), ..self }
    }

    /// Lets the style add an emphasis.
    pub fn add_modifier(self, modifier: Modifier) -> (r: Style)
        ensures
            r == (Style {
                add_modifier: Modifier { bits: self.add_modifier.bits | modifier.bits },
                sub_modifier: Modifier { bits: self.sub_modifier.bits & !modifier.bits },
                ..self
            }),
    {
        let mut s = self;
        s.sub_modifier.remove(modifier);
        s.add_modifier.insert(modifier);
        s
    }

    /// Lets the style take an emphasis away.
    pub fn remove_modifier(self, modifier: Modifier) -> (r: Style)
        ensures
            r == (Style {
                add_modifier: Modifier { bits: self.add_modifier.bits & !modifier.bits },
                sub_modifier: Modifier { bits: self.sub_modifier.bits | modifier.bits },
                ..self
            }),
    {
        let mut s = self;
        s.add_modifier.remove(modifier);
        s.sub_modifier.insert(modifier);
        s
    }

    /// The style that is equivalent to applying `self` and then `other`.
    pub fn patch(self, other: Style) -> (r: Style)
        ensures
            r == patched(self, other),
    {
        let mut s = self;
        if other.fg.is_some() {
            s.fg = other.fg;
        }
        if other.bg.is_some() {
            s.bg = other.bg;
        }
        if other.underline_color.is_some() {
            s.underline_color = other.underline_color;
        }
        if other.underline_style.is_some() {
            s.underline_style = other.underline_style;
        }
        s.add_modifier.remove(other.sub_modifier);
        s.add_modifier.insert(other.add_modifier);
        s.sub_modifier.remove(other.add_modifier);
        s.sub_modifier.insert(other.sub_modifier);
        s
    }
}

/// Patching with a combined style is patching with its parts, one after the other.
pub proof fn law_patch_combines(s: Style, a: Style, b: Style)
    ensures
        patched(patched(s, a), b) == patched(s, patched(a, b)),
{
    let (sa, ss) = (s.add_modifier.bits, s.sub_modifier.bits);
    let (aa, asub) = (a.add_modifier.bits, a.sub_modifier.bits);
    let (ba, bs) = (b.add_modifier.bits, b.sub_modifier.bits);
    assert((((sa & !asub) | aa) & !bs) | ba == (sa & !((asub & !ba) | bs)) | ((aa & !bs) | ba))
        by (bit_vector);
    assert((((ss & !aa) | asub) & !ba) | bs == (ss & !((aa & !bs) | ba)) | ((asub & !ba) | bs))
        by (bit_vector);
}

/// After a reset nothing is left of the style before it: it looks the same whatever that was, as
/// long as it adds no modifiers but those that there are.
pub proof fn law_reset_forgets(s: Style)
    requires
        s.add_modifier.bits & 0x1f7 == s.add_modifier.bits,
        s.sub_modifier.bits & 0x1f7 == s.sub_modifier.bits,
    ensures
        patched(s, reset_style()) == reset_style(),
{
    let a = s.add_modifier.bits;
    let b = s.sub_modifier.bits;
    assert((a & !0x1f7u16) | 0 == 0) by (bit_vector)
        requires
            a & 0x1f7 == a,
    ;
    assert((b & !0u16) | 0x1f7 == 0x1f7) by (bit_vector)
        requires
            b & 0x1f7 == b,
    ;
}

/// Patching the style that changes nothing gives the other style back.
pub proof fn law_patch_identity(s: Style)
    ensures
        patched(plain_style(), s) == s,
        patched(s, plain_style()) == s,
{
    let (a, b) = (s.add_modifier.bits, s.sub_modifier.bits);
    assert((0u16 & !b) | a == a) by (bit_vector);
    assert((0u16 & !a) | b == b) by (bit_vector);
    assert((a & !0u16) | 0 == a) by (bit_vector);
    assert((b & !0u16) | 0 == b) by (bit_vector);
}

/// Clipping takes away just the columns or rows that it names, at the edge that it names.
pub proof fn law_clip_takes_an_edge(r: Rect, n: u16, x: int, y: int)
    requires
        r.x + r.width <= u16::MAX,
        r.y + r.height <= u16::MAX,
    ensures
        clipped_left(r, n).holds(x, y) <==> r.holds(x, y) && x >= r.x + n,
        clipped_right(r, n).holds(x, y) <==> r.holds(x, y) && x < r.x + r.width - n,
        clipped_top(r, n).holds(x, y) <==> r.holds(x, y) && y >= r.y + n,
        clipped_bottom(r, n).holds(x, y) <==> r.holds(x, y) && y < r.y + r.height - n,
{
}

/// A new rectangle begins at its corner and has its size, as far as there are cells.
pub proof fn law_rectangle_holds_its_cells(x: u16, y: u16, width: u16, height: u16, col: int, row: int)
    ensures
        Rect::spec_new(x, y, width, height).x == x,
        Rect::spec_new(x, y, width, height).y == y,
        Rect::spec_new(x, y, width, height).holds(col, row) <==> x <= col < x + width && y <= row < y
            + height && col < u16::MAX && row < u16::MAX,
{
}

/// A digit of a colour is one of the sixteen; letters count in either case.
pub proof fn law_nibbles(d: u8, other: u8)
    requires
        d < 16,
    ensures
        d < 10 ==> nibble_value((48 + d) as u8) == Some(d),
        d >= 10 ==> nibble_value((55 + d) as u8) == Some(d),
        d >= 10 ==> nibble_value((87 + d) as u8) == Some(d),
        nibble_value(other) matches Some(v) ==> v < 16 && (other == 48 + v || other == 55 + v || other == 87
            + v),
        nibble_value(other) is None <==> !(48 <= other <= 57 || 65 <= other <= 70 || 97 <= other <= 102),
{
}

/// A colour is written with two digits for each of red, green and blue, in this order, behind a hash.
pub proof fn law_colour_digits(h: Seq<u8>, r: u8, g: u8, b: u8)
    requires
        h.len() == 7,
        h[0] == 35,
        nibble_value(h[1]) == Some((r / 16) as u8),
        nibble_value(h[2]) == Some((r % 16) as u8),
        nibble_value(h[3]) == Some((g / 16) as u8),
        nibble_value(h[4]) == Some((g % 16) as u8),
        nibble_value(h[5]) == Some((b / 16) as u8),
        nibble_value(h[6]) == Some((b % 16) as u8),
    ensures
        hex_color(h) == Ok::<Color, MalformedHex>(Color::Rgb(r, g, b)),
{
}

/// A colour with one digit each is the one in which every digit is written twice.
pub proof fn law_short_colour_doubles_digits(a: u8, b: u8, c: u8)
    ensures
        hex_color(seq![35u8, a, b, c]) == hex_color(seq![35u8, a, a, b, b, c, c]),
{
}

/// What is wrong with a colour is told apart: the hash is missing, there are too many or too few
/// digits, or one is none. Anything else is a colour.
pub proof fn law_malformed_colours(h: Seq<u8>)
    ensures
        hex_color(h) == Err::<Color, MalformedHex>(MalformedHex::NoHash) <==> !(h.len() > 0 && h[0] == 35),
        hex_color(h) == Err::<Color, MalformedHex>(MalformedHex::LenOOB) <==> h.len() > 0 && h[0] == 35
            && h.len() != 4 && h.len() != 7,
        hex_color(h) == Err::<Color, MalformedHex>(MalformedHex::NotANibble) <==> (h.len() == 4 || h.len()
            == 7) && h[0] == 35 && (exists|i: int|
            1 <= i < h.len() && nibble_value(#[trigger] h[i]) is None),
{
    if h.len() == 4 && h[0] == 35 {
        assert(h[1] == h[1] && h[2] == h[2] && h[3] == h[3]);
    }
    if h.len() == 7 && h[0] == 35 {
        assert(h[1] == h[1] && h[2] == h[2] && h[3] == h[3] && h[4] == h[4] && h[5] == h[5] && h[6]
            == h[6]);
    }
}

proof fn lemma_underline_names()
    ensures
        "line"@ != "curl"@,
        "line"@ != "dotted"@,
        "line"@ != "dashed"@,
        "line"@ != "double_line"@,
        "curl"@ != "dotted"@,
        "curl"@ != "dashed"@,
        "curl"@ != "double_line"@,
        "dotted"@ != "dashed"@,
        "dotted"@ != "double_line"@,
        "dashed"@ != "double_line"@,
{
    reveal_strlit("line");
    reveal_strlit("curl");
    reveal_strlit("dotted");
    reveal_strlit("dashed");
    reveal_strlit("double_line");
    assert("line"@[0] != "curl"@[0]);
    assert("dotted"@[1] != "dashed"@[1]);
    assert("dotted"@.len() != "double_line"@.len());
}

/// Each way to underline has a name of its own.
pub proof fn law_underlines_are_named(s: Seq<char>)
    ensures
        underline_named(s) == Some(UnderlineStyle::Line) <==> s == "line"@,
        underline_named(s) == Some(UnderlineStyle::Curl) <==> s == "curl"@,
        underline_named(s) == Some(UnderlineStyle::Dotted) <==> s == "dotted"@,
        underline_named(s) == Some(UnderlineStyle::Dashed) <==> s == "dashed"@,
        underline_named(s) == Some(UnderlineStyle::DoubleLine) <==> s == "double_line"@,
        underline_named(s) != Some(UnderlineStyle::Reset),
{
    lemma_underline_names();
}

proof fn lemma_modifier_names(s: Seq<char>)
    ensures
        s == "bold"@ ==> s.len() == 4 && s[0] == 'b',
        s == "dim"@ ==> s.len() == 3 && s[0] == 'd',
        s == "italic"@ ==> s.len() == 6 && s[0] == 'i',
        s == "slow_blink"@ ==> s.len() == 10 && s[0] == 's',
        s == "rapid_blink"@ ==> s.len() == 11 && s[0] == 'r',
        s == "reversed"@ ==> s.len() == 8 && s[0] == 'r',
        s == "hidden"@ ==> s.len() == 6 && s[0] == 'h',
        s == "crossed_out"@ ==> s.len() == 11 && s[0] == 'c',
{
    reveal_strlit("bold");
    reveal_strlit("dim");
    reveal_strlit("italic");
    reveal_strlit("slow_blink");
    reveal_strlit("rapid_blink");
    reveal_strlit("reversed");
    reveal_strlit("hidden");
    reveal_strlit("crossed_out");
}

/// Each emphasis has a name of its own, and a bit of its own.
pub proof fn law_modifiers_are_named(s: Seq<char>)
    ensures
        s == "bold"@ <==> (modifier_named(s) matches Some(m) && m.bits == 1),
        s == "dim"@ <==> (modifier_named(s) matches Some(m) && m.bits == 2),
        s == "italic"@ <==> (modifier_named(s) matches Some(m) && m.bits == 4),
        s == "slow_blink"@ <==> (modifier_named(s) matches Some(m) && m.bits == 16),
        s == "rapid_blink"@ <==> (modifier_named(s) matches Some(m) && m.bits == 32),
        s == "reversed"@ <==> (modifier_named(s) matches Some(m) && m.bits == 64),
        s == "hidden"@ <==> (modifier_named(s) matches Some(m) && m.bits == 128),
        s == "crossed_out"@ <==> (modifier_named(s) matches Some(m) && m.bits == 256),
        modifier_named(s) matches Some(m) ==> m.bits == 1 || m.bits == 2 || m.bits == 4 || m.bits == 16
            || m.bits == 32 || m.bits == 64 || m.bits == 128 || m.bits == 256,
{
    lemma_modifier_names(s);
}

/// Where a style that lies over another says something, that counts; where it says nothing, the lower
/// one shows through. A modifier is there if the upper style adds it, or if the lower one does and the
/// upper one does not take it away.
pub proof fn law_upper_style_counts(a: Style, b: Style, bit: u16)
    ensures
        b.fg is Some ==> patched(a, b).fg == b.fg,
        b.fg is None ==> patched(a, b).fg == a.fg,
        b.bg is Some ==> patched(a, b).bg == b.bg,
        b.bg is None ==> patched(a, b).bg == a.bg,
        b.underline_color is Some ==> patched(a, b).underline_color == b.underline_color,
        b.underline_color is None ==> patched(a, b).underline_color == a.underline_color,
        b.underline_style is Some ==> patched(a, b).underline_style == b.underline_style,
        b.underline_style is None ==> patched(a, b).underline_style == a.underline_style,
        b.add_modifier.bits & bit == bit ==> patched(a, b).add_modifier.bits & bit == bit,
        b.add_modifier.bits & bit == 0 && b.sub_modifier.bits & bit == bit ==> patched(
            a,
            b,
        ).add_modifier.bits & bit == 0,
        b.add_modifier.bits & bit == 0 && b.sub_modifier.bits & bit == 0 ==> patched(
            a,
            b,
        ).add_modifier.bits & bit == a.add_modifier.bits & bit,
        b.sub_modifier.bits & bit == bit ==> patched(a, b).sub_modifier.bits & bit == bit,
        b.sub_modifier.bits & bit == 0 && b.add_modifier.bits & bit == bit ==> patched(
            a,
            b,
        ).sub_modifier.bits & bit == 0,
        b.add_modifier.bits & bit == 0 && b.sub_modifier.bits & bit == 0 ==> patched(
            a,
            b,
        ).sub_modifier.bits & bit == a.sub_modifier.bits & bit,
{
    let (aa, asub) = (a.add_modifier.bits, a.sub_modifier.bits);
    let (ba, bs) = (b.add_modifier.bits, b.sub_modifier.bits);
    assert(ba & bit == bit ==> ((aa & !bs) | ba) & bit == bit) by (bit_vector);
    assert(ba & bit == 0 && bs & bit == bit ==> ((aa & !bs) | ba) & bit == 0) by (bit_vector);
    assert(ba & bit == 0 && bs & bit == 0 ==> ((aa & !bs) | ba) & bit == aa & bit) by (bit_vector);
    assert(bs & bit == bit ==> ((asub & !ba) | bs) & bit == bit) by (bit_vector);
    assert(bs & bit == 0 && ba & bit == bit ==> ((asub & !ba) | bs) & bit == 0) by (bit_vector);
    assert(ba & bit == 0 && bs & bit == 0 ==> ((asub & !ba) | bs) & bit == asub & bit) by (bit_vector);
}

} // verus!
