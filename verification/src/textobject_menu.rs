//! The menu from which a text object is selected.
use crate::editor_view::canonical;
use crate::editor_view::Position;
use crate::graphics::CursorKind;
use crate::input::canonicalize_key;
use crate::input::Event;
use crate::input::KeyCode;
use crate::input::KeyEvent;
use crate::input::KeyModifiers;
use crate::selection::Range;
use crate::text::line_count;
use crate::text::line_start;
use crate::text::Rope;
use vstd::prelude::*;
use vstd::string::*;

verus! {

/// The name of the menu's layer.
pub const ID: &'static str = "textobject-menu";

/// Which part of a text object is selected.
#[derive(Debug, Clone, Copy, PartialEq, Eq, Structural)]
pub enum TextObject {
    Around,
    Inside,
    /// Used for moving by text objects.
    Movement,
}

/// A box with a title and rows of keys and their meanings.
#[derive(Debug)]
pub struct Info {
    pub title: String,
    pub rows: Vec<(String, String)>,
}

/// The texts of rows.
pub open spec fn row_views(v: Seq<(String, String)>) -> Seq<(Seq<char>, Seq<char>)> {
    v.map_values(|r: (String, String)| (r.0@, r.1@))
}

fn push_row(rows: &mut Vec<(String, String)>, key: &str, meaning: &str)
    ensures
        row_views(final(rows)@) == row_views(old(rows)@).push((key@, meaning@)),
{
    let ghost before = rows@;
    rows.push((key.to_owned(), meaning.to_owned()));
    assert(row_views(rows@) =~= row_views(before).push((key@, meaning@)));
}

/// The keys of the menu and what they select.
pub open spec fn help_text() -> Seq<(Seq<char>, Seq<char>)> {
    seq![
        ("w"@, "Word"@),
        ("W"@, "WORD"@),
        ("p"@, "Paragraph"@),
        ("t"@, "Type definition (tree-sitter)"@),
        ("f"@, "Function (tree-sitter)"@),
        ("a"@, "Argument/parameter (tree-sitter)"@),
        ("c"@, "Comment (tree-sitter)"@),
        ("T"@, "Test (tree-sitter)"@),
        ("e"@, "Data structure entry (tree-sitter)"@),
        ("m"@, "Closest surrounding pair (tree-sitter)"@),
        ("g"@, "Change"@),
        ("x"@, "(X)HTML element (tree-sitter)"@),
        (" "@, "... or any character acting as a pair"@),
    ]
}

/// The menu from which a text object is selected.
#[derive(Debug)]
pub struct TextObjectMenu {
    pub objtype: TextObject,
    pub count: usize,
    pub info: Info,
}

/// How the ranges of the selection are turned into text objects.
#[derive(Debug, Clone, Copy, PartialEq, Eq, Structural)]
pub enum Motion {
    /// A word; a long one ends only at white space.
    Word { long: bool },
    Paragraph,
    /// A syntax node.
    Syntax(SyntaxObject),
    /// The closest pair around the cursor.
    ClosestPair,
    /// A change against the committed text.
    Change,
    /// The pair of a character.
    Pair(char),
    /// The range stays as it is.
    Keep,
}

/// The syntax nodes that can be selected.
#[derive(Debug, Clone, Copy, PartialEq, Eq, Structural)]
pub enum SyntaxObject {
    Class,
    Function,
    Parameter,
    Comment,
    Test,
    Entry,
    XmlElement,
}

impl SyntaxObject {
    /// The name of the syntax nodes in queries.
    pub open spec fn spec_name(self) -> Seq<char> {
        match self {
            SyntaxObject::Class => "class"@,
            SyntaxObject::Function => "function"@,
            SyntaxObject::Parameter => "parameter"@,
            SyntaxObject::Comment => "comment"@,
            SyntaxObject::Test => "test"@,
            SyntaxObject::Entry => "entry"@,
            SyntaxObject::XmlElement => "xml-element"@,
        }
    }

    pub fn name(self) -> (r: &'static str)
        ensures
            r@ == self.spec_name(),
    {
        match self {
            SyntaxObject::Class => "class",
            SyntaxObject::Function => "function",
            SyntaxObject::Parameter => "parameter",
            SyntaxObject::Comment => "comment",
            SyntaxObject::Test => "test",
            SyntaxObject::Entry => "entry",
            SyntaxObject::XmlElement => "xml-element",
        }
    }
}

/// What the menu does with an event. All but the first also take the menu's layer off.
#[derive(Debug, Clone, Copy, PartialEq, Eq, Structural)]
pub enum TextObjectStep {
    Ignored,
    Close,
    /// Tell that the document has no changes to go by.
    NoDiff,
    /// Apply a motion to all ranges of the selection.
    Select(Motion),
}

/// Whether a character is an ASCII letter or digit.
pub open spec fn ascii_alphanumeric(c: char) -> bool {
    ||| 'a' <= c <= 'z'
    ||| 'A' <= c <= 'Z'
    ||| '0' <= c <= '9'
}

/// What a character selects.
pub open spec fn motion_of(c: char) -> Motion {
    if c == 'w' {
        Motion::Word { long: false }
    } else if c == 'W' {
        Motion::Word { long: true }
    } else if c == 't' {
        Motion::Syntax(SyntaxObject::Class)
    } else if c == 'f' {
        Motion::Syntax(SyntaxObject::Function)
    } else if c == 'a' {
        Motion::Syntax(SyntaxObject::Parameter)
    } else if c == 'c' {
        Motion::Syntax(SyntaxObject::Comment)
    } else if c == 'T' {
        Motion::Syntax(SyntaxObject::Test)
    } else if c == 'e' {
        Motion::Syntax(SyntaxObject::Entry)
    } else if c == 'x' {
        Motion::Syntax(SyntaxObject::XmlElement)
    } else if c == 'p' {
        Motion::Paragraph
    } else if c == 'm' {
        Motion::ClosestPair
    } else if c == 'g' {
        Motion::Change
    } else if !ascii_alphanumeric(c) {
        Motion::Pair(c)
    } else {
        Motion::Keep
    }
}

fn motion(c: char) -> (r: Motion)
    ensures
        r == motion_of(c),
{
    match c {
        'w' => Motion::Word { long: false },
        'W' => Motion::Word { long: true },
        't' => Motion::Syntax(SyntaxObject::Class),
        'f' => Motion::Syntax(SyntaxObject::Function),
        'a' => Motion::Syntax(SyntaxObject::Parameter),
        'c' => Motion::Syntax(SyntaxObject::Comment),
        'T' => Motion::Syntax(SyntaxObject::Test),
        'e' => Motion::Syntax(SyntaxObject::Entry),
        'x' => Motion::Syntax(SyntaxObject::XmlElement),
        'p' => Motion::Paragraph,
        'm' => Motion::ClosestPair,
        'g' => Motion::Change,
        _ => if ('a' <= c && c <= 'z') || ('A' <= c && c <= 'Z') || ('0' <= c && c <= '9') {
            Motion::Keep
        } else {
            Motion::Pair(c)
        },
    }
}

/// What the menu does with a key.
pub open spec fn object_step(key: KeyEvent, has_diff: bool) -> TextObjectStep {
    match key.code {
        KeyCode::Char(c) => if c == 'g' && !has_diff {
            TextObjectStep::NoDiff
        } else {
            TextObjectStep::Select(motion_of(c))
        },
        _ => TextObjectStep::Close,
    }
}

impl TextObjectMenu {
    pub fn new(objtype: TextObject, count: usize) -> (r: Self)
        ensures
            r.objtype == objtype,
            r.count == count,
            r.info.title@ == match objtype {
                TextObject::Inside => "Match inside"@,
                TextObject::Around => "Match around"@,
                TextObject::Movement => "Textobject"@,
            },
            row_views(r.info.rows@) == help_text(),
    {
        let title = match objtype {
            TextObject::Inside => "Match inside",
            TextObject::Around => "Match around",
            TextObject::Movement => "Textobject",
        };
        let mut rows: Vec<(String, String)> = Vec::new();
        push_row(&mut rows, "w", "Word");
        push_row(&mut rows, "W", "WORD");
        push_row(&mut rows, "p", "Paragraph");
        push_row(&mut rows, "t", "Type definition (tree-sitter)");
        push_row(&mut rows, "f", "Function (tree-sitter)");
        push_row(&mut rows, "a", "Argument/parameter (tree-sitter)");
        push_row(&mut rows, "c", "Comment (tree-sitter)");
        push_row(&mut rows, "T", "Test (tree-sitter)");
        push_row(&mut rows, "e", "Data structure entry (tree-sitter)");
        push_row(&mut rows, "m", "Closest surrounding pair (tree-sitter)");
        push_row(&mut rows, "g", "Change");
        push_row(&mut rows, "x", "(X)HTML element (tree-sitter)");
        push_row(&mut rows, " ", "... or any character acting as a pair");
        assert(row_views(rows@) =~= help_text());
        TextObjectMenu { objtype, count, info: Info { title: title.to_owned(), rows } }
    }

    /// Decides what becomes of an event; `has_diff` tells whether the document's changes against
    /// the committed text are known.
    pub fn handle_event(&self, event: &Event, has_diff: bool) -> (r: TextObjectStep)
        ensures
            r == match *event {
                Event::Key(key) => object_step(canonical(key), has_diff),
                _ => TextObjectStep::Ignored,
            },
    {
        let mut key: KeyEvent = match event {
            Event::Key(key) => *key,
            _ => {
                return TextObjectStep::Ignored;
            },
        };
        canonicalize_key(&mut key);
        if key.code == KeyCode::Esc && key.modifiers == KeyModifiers::empty() {
            return TextObjectStep::Close;
        }
        match key.code {
            KeyCode::Char(c) => if c == 'g' && !has_diff {
                TextObjectStep::NoDiff
            } else {
                TextObjectStep::Select(motion(c))
            },
            _ => TextObjectStep::Close,
        }
    }

    /// The hints that are drawn, if they are wanted.
    pub fn hints(&self, auto_info: bool) -> (r: Option<&Info>)
        ensures
            r == if auto_info {
                Some(&self.info)
            } else {
                None
            },
    {
        if auto_info {
            Some(&self.info)
        } else {
            None
        }
    }

    /// The menu shows no cursor.
    pub fn cursor(&self) -> (r: (Option<Position>, CursorKind))
        ensures
            r == (None::<Position>, CursorKind::Hidden),
    {
        (None, CursorKind::Hidden)
    }

    /// The name of the menu's layer.
    pub fn id(&self) -> (r: Option<&'static str>)
        ensures
            r == Some(ID),
    {
        Some(ID)
    }
}

/// What is told where the document has no changes to go by.
pub fn no_diff_status() -> (r: &'static str)
    ensures
        r@ == "Diff is not available in current buffer"@,
{
    "Diff is not available in current buffer"
}

/// The range of the lines `hunk` of the text, the later one not included, in the direction of
/// `range`; without a change at the cursor, `range` itself.
pub fn textobject_change(text: &Rope, range: Range, hunk: Option<(usize, usize)>) -> (r: Range)
    requires
        hunk matches Some(h) ==> h.0 <= h.1 <= line_count(text@),
    ensures
        r == change_range(text@, range, hunk),
{
    match hunk {
        Some((first, end)) => {
            let start: usize = text.line_to_char(first);
            let end: usize = text.line_to_char(end);
            if range.head < range.anchor {
                Range { anchor: end, head: start }
            } else {
                Range { anchor: start, head: end }
            }
        },
        None => range,
    }
}

/// Every key has its own text object: no two keys stand for the same one. Letters and digits without
/// one leave the selection as it is, and any other character stands for a pair of itself.
pub proof fn law_keys_name_objects(a: char, b: char)
    ensures
        motion_of(a) == motion_of(b) && motion_of(a) != Motion::Keep ==> a == b,
        motion_of(a) is Pair <==> !('a' <= a <= 'z' || 'A' <= a <= 'Z' || '0' <= a <= '9'),
        motion_of(a) matches Motion::Pair(c) ==> c == a,
        (motion_of(a) == (Motion::Word { long: false })) == (a == 'w'),
        (motion_of(a) == (Motion::Word { long: true })) == (a == 'W'),
        motion_of(a) == Motion::Paragraph <==> a == 'p',
        motion_of(a) == Motion::ClosestPair <==> a == 'm',
        motion_of(a) == Motion::Change <==> a == 'g',
        motion_of(a) matches Motion::Syntax(o) ==> (a == 'T' <==> o == SyntaxObject::Test) && (a == 'x'
            <==> o == SyntaxObject::XmlElement),
        '0' <= a <= '9' ==> motion_of(a) == Motion::Keep,
{
}

/// Where a syntax object is named after its first letter, the key is that letter.
pub proof fn law_keys_are_first_letters(c: char)
    ensures
        motion_of(c) matches Motion::Syntax(o) ==> (o == SyntaxObject::Function || o
            == SyntaxObject::Comment || o == SyntaxObject::Entry) ==> o.spec_name()[0] == c,
        motion_of(c) == Motion::Syntax(SyntaxObject::Class) ==> c == 't',
        motion_of(c) == Motion::Syntax(SyntaxObject::Parameter) ==> c == 'a',
        c == 'f' || c == 'c' || c == 'e' || c == 't' || c == 'a' || c == 'T' || c == 'x' ==> motion_of(
            c,
        ) is Syntax,
{
    reveal_strlit("function");
    reveal_strlit("comment");
    reveal_strlit("entry");
}

/// The help names every key that has a text object of its own, and no other one: its last row stands
/// for all characters that make pairs.
pub proof fn law_help_names_every_key(c: char)
    ensures
        ({
            let listed = exists|i: int|
                0 <= i < help_text().len() - 1 && (#[trigger] help_text()[i]).0 == seq![c];
            listed <==> !(motion_of(c) is Pair) && motion_of(c) != Motion::Keep
        }),
{
    reveal_strlit("w");
    reveal_strlit("W");
    reveal_strlit("p");
    reveal_strlit("t");
    reveal_strlit("f");
    reveal_strlit("a");
    reveal_strlit("c");
    reveal_strlit("T");
    reveal_strlit("e");
    reveal_strlit("m");
    reveal_strlit("g");
    reveal_strlit("x");
    let h = help_text();
    assert(h[0].0 =~= seq!['w']);
    assert(h[1].0 =~= seq!['W']);
    assert(h[2].0 =~= seq!['p']);
    assert(h[3].0 =~= seq!['t']);
    assert(h[4].0 =~= seq!['f']);
    assert(h[5].0 =~= seq!['a']);
    assert(h[6].0 =~= seq!['c']);
    assert(h[7].0 =~= seq!['T']);
    assert(h[8].0 =~= seq!['e']);
    assert(h[9].0 =~= seq!['m']);
    assert(h[10].0 =~= seq!['g']);
    assert(h[11].0 =~= seq!['x']);
    let own = seq![c];
    assert(own[0] == c);
    if c == 'w' {
        assert(h[0].0 == own);
    } else if c == 'W' {
        assert(h[1].0 == own);
    } else if c == 'p' {
        assert(h[2].0 == own);
    } else if c == 't' {
        assert(h[3].0 == own);
    } else if c == 'f' {
        assert(h[4].0 == own);
    } else if c == 'a' {
        assert(h[5].0 == own);
    } else if c == 'c' {
        assert(h[6].0 == own);
    } else if c == 'T' {
        assert(h[7].0 == own);
    } else if c == 'e' {
        assert(h[8].0 == own);
    } else if c == 'm' {
        assert(h[9].0 == own);
    } else if c == 'g' {
        assert(h[10].0 == own);
    } else if c == 'x' {
        assert(h[11].0 == own);
    } else {
        assert forall|i: int| 0 <= i < h.len() - 1 implies (#[trigger] h[i]).0 != own by {
            assert(h[i].0[0] != own[0]);
        }
    }
}

/// Any character selects by its text object, but the changes of a document that has no version to
/// compare with cannot be selected. Any other key closes the menu.
pub proof fn law_object_keys(key: KeyEvent, has_diff: bool)
    ensures
        !(key.code is Char) ==> object_step(key, has_diff) == TextObjectStep::Close,
        key.code matches KeyCode::Char(c) ==> {
            &&& object_step(key, has_diff) != TextObjectStep::Close
            &&& object_step(key, has_diff) == TextObjectStep::NoDiff <==> motion_of(c)
                == Motion::Change && !has_diff
            &&& object_step(key, has_diff) matches TextObjectStep::Select(m) ==> m == motion_of(c)
        },
{
}

/// The range of the lines of a change, in the direction of `range`.
pub open spec fn change_range(text: Seq<char>, range: Range, hunk: Option<(usize, usize)>) -> Range {
    match hunk {
        Some(h) => if range.head < range.anchor {
            Range {
                anchor: line_start(text, h.1 as int) as usize,
                head: line_start(text, h.0 as int) as usize,
            }
        } else {
            Range {
                anchor: line_start(text, h.0 as int) as usize,
                head: line_start(text, h.1 as int) as usize,
            }
        },
        None => range,
    }
}

/// Selecting a change covers its lines from the start of the first one to the start of the line behind
/// the last one. Its head is the end that the head of the selection was, so that selecting again changes
/// nothing; without a change the selection stays.
pub proof fn law_change_is_selected(text: Seq<char>, range: Range, first: usize, end: usize)
    requires
        0 <= line_start(text, first as int) < line_start(text, end as int) <= usize::MAX,
    ensures
        ({
            let r = change_range(text, range, Some((first, end)));
            &&& range.head < range.anchor ==> r.head == line_start(text, first as int) && r.anchor
                == line_start(text, end as int)
            &&& range.head >= range.anchor ==> r.anchor == line_start(text, first as int) && r.head
                == line_start(text, end as int)
            &&& change_range(text, r, Some((first, end))) == r
        }),
        change_range(text, range, None) == range,
{
}

/// A character that is no object and neither a letter nor a digit stands for a pair of it.
pub proof fn law_other_characters_are_pairs(c: char)
    ensures
        !(48 <= c as u32 <= 57) && !(65 <= c as u32 <= 90) && !(97 <= c as u32 <= 122) <==> motion_of(c)
            == Motion::Pair(c),
        48 <= c as u32 <= 57 ==> motion_of(c) == Motion::Keep,
{
}

/// Each object of the syntax is asked for by its own name.
pub proof fn law_names_of_objects(o: SyntaxObject)
    ensures
        o == SyntaxObject::Class ==> o.spec_name() == "class"@,
        o == SyntaxObject::Function ==> o.spec_name() == "function"@,
        o == SyntaxObject::Parameter ==> o.spec_name() == "parameter"@,
        o == SyntaxObject::Comment ==> o.spec_name() == "comment"@,
        o == SyntaxObject::Test ==> o.spec_name() == "test"@,
        o == SyntaxObject::Entry ==> o.spec_name() == "entry"@,
        o == SyntaxObject::XmlElement ==> o.spec_name() == "xml-element"@,
{
}

} // verus!
