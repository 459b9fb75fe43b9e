//! Grapheme clusters and their widths on the screen.
use crate::strings::texts;
use vstd::prelude::*;

verus! {

/// The extended grapheme clusters of a text.
pub uninterp spec fn graphemes_of(s: Seq<char>) -> Seq<Seq<char>>;

/// `UnicodeSegmentation::graphemes` of the unicode-segmentation crate, for extended clusters. The
/// clusters depend on the text alone; none is empty, and put together they are the text. Where
/// the cluster boundaries lie is not stated.
#[verifier::external_body]
pub(crate) fn graphemes(s: &str) -> (r: Vec<String>)
    ensures
        texts(r@) == graphemes_of(s@),
        texts(r@).flatten() == s@,
        forall|i: int| 0 <= i < r@.len() ==> (#[trigger] r@[i])@.len() > 0,
{
    unicode_segmentation::UnicodeSegmentation::graphemes(s, true).map(String::from).collect()
}

/// The number of columns that a text takes.
pub uninterp spec fn width_of(s: Seq<char>) -> usize;

/// `UnicodeWidthStr::width` of the unicode-width crate: the number of columns that the text takes,
/// which depends on the text alone.
#[verifier::external_body]
pub(crate) fn str_width(s: &str) -> (r: usize)
    ensures
        r == width_of(s@),
{
    unicode_width::UnicodeWidthStr::width(s)
}

} // verus!
