//! Icons of files and directories.
use crate::graphics::hex_color;
use crate::graphics::Color;
use vstd::prelude::*;
use vstd::string::*;

verus! {

/// An icon and its colour.
#[derive(Debug, Clone, Copy, PartialEq, Eq, Structural)]
pub struct Icon {
    pub icon: char,
    pub color: Color,
}

/// The colour of a hex code; a malformed one gives no colour.
pub open spec fn color_or_reset(hex: Seq<u8>) -> Color {
    match hex_color(hex) {
        Ok(c) => c,
        Err(_) => Color::Reset,
    }
}

fn parse_hex_color(hex: &str) -> (r: Color)
    ensures
        r == color_or_reset(hex.spec_bytes()),
{
    match Color::from_hex(hex) {
        Ok(c) => c,
        Err(_) => Color::Reset,
    }
}

/// The icon for a symbol and the hex code of its colour.
pub fn file_icon_from(icon: char, color: &str) -> (r: Icon)
    ensures
        r == (Icon { icon, color: color_or_reset(color.spec_bytes()) }),
{
    Icon { icon, color: parse_hex_color(color) }
}

/// The symbol that `devicons` has for a path, and the hex code of its colour, in its dark theme.
/// `is_dir` tells whether there is a directory at the path.
pub uninterp spec fn devicon_of(path: Seq<char>, is_dir: bool) -> (char, Seq<u8>);

/// `devicons::icon_for_file` with its dark theme: the symbol and the hex code of its colour. They
/// depend on the path and on whether there is a directory at it when the call is made; which of
/// the two it was is not told.
#[verifier::external_body]
fn devicon(path: &str) -> (r: (char, &'static str))
    ensures
        exists|d: bool| (r.0, r.1.spec_bytes()) == #[trigger] devicon_of(path@, d),
{
    let icon = devicons::icon_for_file(devicons::File::new(std::path::Path::new(path)), &Some(devicons::Theme::Dark));
    (icon.icon, icon.color)
}

/// The icon of a path, by whether there is a directory at it.
pub open spec fn icon_of(path: Seq<char>, is_dir: bool) -> Icon {
    let (icon, hex) = devicon_of(path, is_dir);
    Icon { icon, color: color_or_reset(hex) }
}

/// Whether an icon is that of a path, be there a directory or not.
pub open spec fn is_icon_of(icon: Icon, path: Seq<char>) -> bool {
    exists|d: bool| icon == #[trigger] icon_of(path, d)
}

/// The icon of what is at a path. Whether there is a directory counts, besides the path.
pub fn file_icon(path: &str) -> (r: Icon)
    ensures
        is_icon_of(r, path@),
{
    let (icon, color) = devicon(path);
    let r = file_icon_from(icon, color);
    proof {
        let d = choose|d: bool| (icon, color.spec_bytes()) == #[trigger] devicon_of(path@, d);
        assert(r == icon_of(path@, d));
    }
    r
}

/// The icon of directories.
pub fn directory_icon() -> (r: Icon)
    ensures
        r == (Icon { icon: '\u{f115}', color: Color::Reset }),
{
    Icon { icon: '\u{f115}', color: Color::Reset }
}

} // verus!
