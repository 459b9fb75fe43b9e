//! Registers: named lists of texts.
use crate::clipboard::provider_name;
use crate::clipboard::ClipboardProvider;
use crate::clipboard::ClipboardType;
use crate::strings::clone_strings;
use crate::strings::decimal;
use crate::strings::decimal_digits;
use crate::strings::digits_value;
use crate::strings::law_decimal_reads_back;
use crate::strings::texts;
use std::collections::HashMap;
use vstd::prelude::*;
use vstd::string::*;

verus! {

broadcast use vstd::std_specs::hash::group_hash_axioms;

/// A key-value store for saving sets of values.
///
/// Each register has a character for its name. Most of them hold any values, but a few are
/// special when they are read or written:
///
/// * Black hole (`_`): all values read and written are discarded
/// * Selection indices (`#`): the number of each selection, starting at 1
/// * Selection contents (`.`)
/// * Document path (`%`): the name of the current document
/// * System clipboard (`*`)
/// * Primary clipboard (`+`)
pub struct Registers {
    /// The values by register. They are kept in reverse, so that a value is put in front of the
    /// others by appending it.
    inner: HashMap<u32, Vec<String>>,
    clipboard_provider: ClipboardProvider,
    pub last_search_register: char,
}

/// What the special registers read from the current document.
pub struct ReadContext {
    /// The number of selections.
    pub selections: usize,
    /// The selected texts.
    pub fragments: Vec<String>,
    /// The name of the document.
    pub display_name: String,
}

/// The stored values in the order in which they are read.
pub open spec fn in_reading_order(v: Seq<String>) -> Seq<Seq<char>> {
    texts(v).reverse()
}

/// The texts `1`, `2` and so on up to `n`.
pub open spec fn numbers(n: nat) -> Seq<Seq<char>> {
    Seq::new(n, |i: int| decimal_digits((i + 1) as nat))
}

/// What is read from register `name`, given the values that the registers hold.
pub open spec fn reading(
    m: Map<u32, Seq<Seq<char>>>,
    name: char,
    selections: nat,
    fragments: Seq<Seq<char>>,
    display_name: Seq<char>,
) -> Option<Seq<Seq<char>>> {
    if name == '_' {
        Some(Seq::empty())
    } else if name == '#' {
        Some(numbers(selections))
    } else if name == '.' {
        Some(fragments)
    } else if name == '%' {
        Some(seq![display_name])
    } else if m.contains_key(name as u32) {
        Some(m[name as u32])
    } else {
        None
    }
}

/// Whether a register only shows something and cannot be written.
pub open spec fn read_only(name: char) -> bool {
    name == '#' || name == '.' || name == '%'
}

/// Whether a register stands for a clipboard.
pub open spec fn is_clipboard(name: char) -> bool {
    name == '*' || name == '+'
}

/// The texts with `separator` between them.
pub open spec fn joined(v: Seq<Seq<char>>, separator: Seq<char>) -> Seq<char>
    decreases v.len(),
{
    if v.len() == 0 {
        Seq::empty()
    } else if v.len() == 1 {
        v[0]
    } else {
        joined(v.drop_last(), separator) + separator + v.last()
    }
}

fn join(v: &Vec<String>, separator: &str) -> (r: String)
    ensures
        r@ == joined(texts(v@), separator@),
{
    if v.len() == 0 {
        return String::new();
    }
    let mut s = v[0].clone();
    let mut i: usize = 1;
    assert(texts(v@).take(1) =~= seq![v@[0]@]);
    while i < v.len()
        invariant
            1 <= i <= v@.len(),
            s@ == joined(texts(v@).take(i as int), separator@),
        decreases v@.len() - i,
    {
        s.append(separator);
        s.append(v[i].as_str());
        let ghost t = texts(v@).take(i + 1);
        assert(t.drop_last() =~= texts(v@).take(i as int));
        assert(t.last() == v@[i as int]@);
        i = i + 1;
    }
    assert(texts(v@).take(v@.len() as int) =~= texts(v@));
    s
}

fn reversed(v: &Vec<String>) -> (r: Vec<String>)
    ensures
        texts(r@) == texts(v@).reverse(),
{
    let mut out: Vec<String> = Vec::new();
    let mut i: usize = v.len();
    while i > 0
        invariant
            i <= v@.len(),
            out@.len() == v@.len() - i,
            forall|k: int| 0 <= k < out@.len() ==> (#[trigger] out@[k])@ == v@[v@.len() - 1 - k]@,
        decreases i,
    {
        i = i - 1;
        out.push(v[i].clone());
    }
    assert(texts(out@) =~= texts(v@).reverse());
    out
}

/// The values that were read from a register; they can be taken from either end.
pub struct RegisterValues {
    values: Vec<String>,
}

impl View for RegisterValues {
    type V = Seq<Seq<char>>;

    closed spec fn view(&self) -> Seq<Seq<char>> {
        texts(self.values@)
    }
}

impl RegisterValues {
    fn new(values: Vec<String>) -> (r: Self)
        ensures
            r@ == texts(values@),
    {
        RegisterValues { values }
    }

    /// Takes the first value.
    pub fn next(&mut self) -> (r: Option<String>)
        ensures
            match r {
                Some(s) => old(self)@.len() > 0 && s@ == old(self)@[0] && final(self)@ == old(self)@.drop_first(),
                None => old(self)@.len() == 0 && final(self)@ == old(self)@,
            },
    {
        if self.values.len() == 0 {
            return None;
        }
        let ghost before = self@;
        let s = self.values.remove(0);
        assert(self@ =~= before.drop_first());
        Some(s)
    }

    /// Takes the last value.
    pub fn next_back(&mut self) -> (r: Option<String>)
        ensures
            match r {
                Some(s) => old(self)@.len() > 0 && s@ == old(self)@.last() && final(self)@ == old(self)@.drop_last(),
                None => old(self)@.len() == 0 && final(self)@ == old(self)@,
            },
    {
        let ghost before = self@;
        match self.values.pop() {
            Some(s) => {
                assert(self@ =~= before.drop_last());
                Some(s)
            },
            None => None,
        }
    }

    pub fn len(&self) -> (r: usize)
        ensures
            r == self@.len(),
    {
        self.values.len()
    }
}

/// Why a register did not take values.
#[derive(Debug)]
pub enum RegisterError {
    /// `Register <name> does not support writing`
    NoWriting(char),
    /// `Register <name> does not support pushing`
    NoPushing(char),
    /// The clipboard failed, for the given reason.
    Clipboard(String),
}

impl RegisterError {
    /// The message for the user.
    pub fn message(&self) -> (r: String)
        ensures
            r@ == match *self {
                RegisterError::NoWriting(c) => "Register "@.push(c) + " does not support writing"@,
                RegisterError::NoPushing(c) => "Register "@.push(c) + " does not support pushing"@,
                RegisterError::Clipboard(e) => e@,
            },
    {
        match self {
            RegisterError::NoWriting(c) => {
                let mut s = "Register ".to_owned();
                s.push(*c);
                s.append(" does not support writing");
                s
            },
            RegisterError::NoPushing(c) => {
                let mut s = "Register ".to_owned();
                s.push(*c);
                s.append(" does not support pushing");
                s
            },
            RegisterError::Clipboard(e) => e.clone(),
        }
    }
}

impl View for Registers {
    type V = Map<u32, Seq<Seq<char>>>;

    closed spec fn view(&self) -> Map<u32, Seq<Seq<char>>> {
        self.inner@.map_values(|v: Vec<String>| in_reading_order(v@))
    }
}

/// The clipboard that a register stands for: `*` the one of the system, `+` the primary one.
pub open spec fn clipboard_type(name: char) -> ClipboardType {
    if name == '*' {
        ClipboardType::Clipboard
    } else {
        ClipboardType::Selection
    }
}

impl Registers {
    /// The provider of the clipboards.
    pub closed spec fn provider(self) -> ClipboardProvider {
        self.clipboard_provider
    }

    /// The register that the last search used.
    pub closed spec fn search_register(self) -> char {
        self.last_search_register
    }

    /// Registers without any values.
    pub fn new(clipboard_provider: ClipboardProvider) -> (r: Self)
        ensures
            r@ == Map::<u32, Seq<Seq<char>>>::empty(),
            r.provider() == clipboard_provider,
            r.search_register() == '/',
    {
        let r = Registers { inner: HashMap::new(), clipboard_provider, last_search_register: '/' };
        assert(r@ =~= Map::empty());
        r
    }

    /// Reads a register; `None` if it was never written.
    pub fn read(&self, name: char, context: &ReadContext) -> (r: Option<RegisterValues>)
        ensures
            match r {
                Some(v) => reading(
                    self@,
                    name,
                    context.selections as nat,
                    texts(context.fragments@),
                    context.display_name@,
                ) == Some(v@),
                None => reading(
                    self@,
                    name,
                    context.selections as nat,
                    texts(context.fragments@),
                    context.display_name@,
                ) is None,
            },
    {
        if name == '_' {
            let v: Vec<String> = Vec::new();
            assert(texts(v@) =~= Seq::empty());
            Some(RegisterValues::new(v))
        } else if name == '#' {
            let mut v: Vec<String> = Vec::new();
            let mut i: usize = 0;
            while i < context.selections
                invariant
                    i <= context.selections,
                    v@.len() == i,
                    forall|k: int|
                        0 <= k < i ==> (#[trigger] v@[k])@ == decimal_digits((k + 1) as nat),
                decreases context.selections - i,
            {
                v.push(decimal(i as u64 + 1));
                i = i + 1;
            }
            assert(texts(v@) =~= numbers(context.selections as nat));
            Some(RegisterValues::new(v))
        } else if name == '.' {
            Some(RegisterValues::new(clone_strings(&context.fragments)))
        } else if name == '%' {
            let mut v: Vec<String> = Vec::new();
            v.push(context.display_name.clone());
            assert(texts(v@) =~= seq![context.display_name@]);
            Some(RegisterValues::new(v))
        } else {
            match self.inner.get(&(name as u32)) {
                Some(v) => Some(RegisterValues::new(reversed(v))),
                None => None,
            }
        }
    }

    /// What a write hands to the clipboard before it stores the values, and which clipboard.
    pub fn clipboard_contents(name: char, values: &Vec<String>, line_ending: &str) -> (r: Option<
        (String, ClipboardType),
    >)
        ensures
            match r {
                Some((content, kind)) => is_clipboard(name) && content@ == joined(
                    texts(values@),
                    line_ending@,
                ) && kind == clipboard_type(name),
                None => !is_clipboard(name),
            },
    {
        if name == '*' {
            Some((join(values, line_ending), ClipboardType::Clipboard))
        } else if name == '+' {
            Some((join(values, line_ending), ClipboardType::Selection))
        } else {
            None
        }
    }

    fn store(&mut self, name: char, values: &Vec<String>)
        ensures
            final(self)@ == old(self)@.insert(name as u32, texts(values@)),
            final(self).provider() == old(self).provider(),
            final(self).search_register() == old(self).search_register(),
    {
        let ghost before = self@;
        let stored = reversed(values);
        self.inner.insert(name as u32, stored);
        assert(in_reading_order(stored@) =~= texts(values@));
        assert(self@ =~= before.insert(name as u32, texts(values@)));
    }

    /// Writes a register. For a clipboard register, `clipboard` is what came of handing
    /// `clipboard_contents` over; if that failed, nothing is stored.
    pub fn write(
        &mut self,
        name: char,
        values: &Vec<String>,
        clipboard: Result<(), String>,
    ) -> (r: Result<(), RegisterError>)
        ensures
            final(self).provider() == old(self).provider(),
            final(self).search_register() == old(self).search_register(),
            final(self)@ == after_write(old(self)@, name, texts(values@), clipboard is Ok),
            if name == '_' {
                r is Ok && final(self)@ == old(self)@
            } else if read_only(name) {
                r matches Err(RegisterError::NoWriting(c)) && c == name && final(self)@ == old(self)@
            } else if is_clipboard(name) && clipboard is Err {
                r matches Err(RegisterError::Clipboard(e)) && e@ == clipboard->Err_0@ && final(self)@ == old(self)@
            } else {
                r is Ok && final(self)@ == old(self)@.insert(name as u32, texts(values@))
            },
    {
        if name == '_' {
            return Ok(());
        }
        if name == '#' || name == '.' || name == '%' {
            return Err(RegisterError::NoWriting(name));
        }
        if name == '*' || name == '+' {
            match clipboard {
                Err(e) => {
                    return Err(RegisterError::Clipboard(e));
                },
                Ok(_) => {},
            }
        }
        self.store(name, values);
        Ok(())
    }

    /// The values that a register holds once `value` is pushed: the new one and then those it has.
    /// Those of a clipboard register go to the clipboard before they are stored.
    pub fn values_with(&self, name: char, value: &str) -> (r: Vec<String>)
        ensures
            texts(r@) == seq![value@] + self.held(name),
    {
        let mut values: Vec<String> = Vec::new();
        values.push(value.to_owned());
        match self.inner.get(&(name as u32)) {
            Some(v) => {
                let mut rest = reversed(v);
                let ghost first = values@;
                let ghost others = rest@;
                values.append(&mut rest);
                assert(texts(values@) =~= texts(first) + texts(others));
            },
            None => {},
        }
        assert(texts(values@) =~= seq![value@] + self.held(name));
        values
    }

    /// The values that a register holds.
    pub open spec fn held(self, name: char) -> Seq<Seq<char>> {
        if self@.contains_key(name as u32) {
            self@[name as u32]
        } else {
            Seq::empty()
        }
    }

    /// Pushes a value in front of the values of a register. For a clipboard register, `clipboard` is
    /// what came of handing `values_with` over.
    pub fn push(&mut self, name: char, value: &str, clipboard: Result<(), String>) -> (r: Result<
        (),
        RegisterError,
    >)
        ensures
            final(self).provider() == old(self).provider(),
            final(self).search_register() == old(self).search_register(),
            final(self)@ == after_write(
                old(self)@,
                name,
                seq![value@] + old(self).held(name),
                clipboard is Ok,
            ),
            if name == '_' {
                r is Ok && final(self)@ == old(self)@
            } else if read_only(name) {
                r matches Err(RegisterError::NoPushing(c)) && c == name && final(self)@ == old(self)@
            } else if is_clipboard(name) && clipboard is Err {
                r matches Err(RegisterError::Clipboard(e)) && e@ == clipboard->Err_0@ && final(self)@
                    == old(self)@
            } else {
                r is Ok && final(self)@ == old(self)@.insert(
                    name as u32,
                    seq![value@] + old(self).held(name),
                )
            },
    {
        if name == '_' {
            return Ok(());
        }
        if name == '#' || name == '.' || name == '%' {
            return Err(RegisterError::NoPushing(name));
        }
        let values = self.values_with(name, value);
        self.write(name, &values, clipboard)
    }

    /// The first value that is read from a register.
    pub fn first(&self, name: char, context: &ReadContext) -> (r: Option<String>)
        ensures
            ({
                let v = reading(
                    self@,
                    name,
                    context.selections as nat,
                    texts(context.fragments@),
                    context.display_name@,
                );
                match r {
                    Some(s) => v matches Some(l) && l.len() > 0 && s@ == l[0],
                    None => v matches Some(l) ==> l.len() == 0,
                }
            }),
    {
        match self.read(name, context) {
            Some(mut v) => v.next(),
            None => None,
        }
    }

    /// The last value that is read from a register.
    pub fn last(&self, name: char, context: &ReadContext) -> (r: Option<String>)
        ensures
            ({
                let v = reading(
                    self@,
                    name,
                    context.selections as nat,
                    texts(context.fragments@),
                    context.display_name@,
                );
                match r {
                    Some(s) => v matches Some(l) && l.len() > 0 && s@ == l.last(),
                    None => v matches Some(l) ==> l.len() == 0,
                }
            }),
    {
        match self.read(name, context) {
            Some(mut v) => v.next_back(),
            None => None,
        }
    }

    /// Forgets all values.
    pub fn clear(&mut self)
        ensures
            final(self)@ == Map::<u32, Seq<Seq<char>>>::empty(),
            final(self).provider() == old(self).provider(),
            final(self).search_register() == old(self).search_register(),
    {
        self.inner.clear();
        assert(self@ =~= Map::empty());
    }

    /// Forgets the values of a register; tells whether it had any to forget.
    pub fn remove(&mut self, name: char) -> (r: bool)
        ensures
            final(self).provider() == old(self).provider(),
            final(self).search_register() == old(self).search_register(),
            if name == '_' || read_only(name) {
                !r && final(self)@ == old(self)@
            } else {
                r == old(self)@.contains_key(name as u32) && final(self)@ == old(self)@.remove(
                    name as u32,
                )
            },
    {
        if name == '_' || name == '#' || name == '.' || name == '%' {
            return false;
        }
        let ghost before = self@;
        let r = self.inner.remove(&(name as u32));
        assert(self@ =~= before.remove(name as u32));
        r.is_some()
    }

    /// The name of the clipboard's provider.
    pub fn clipboard_provider_name(&self) -> (r: String)
        ensures
            r@ == provider_name(self.provider()),
    {
        self.clipboard_provider.name()
    }
}

/// A register that takes values gives them back, and no other register changes.
pub proof fn law_read_after_write(
    m: Map<u32, Seq<Seq<char>>>,
    name: char,
    values: Seq<Seq<char>>,
    other: char,
    selections: nat,
    fragments: Seq<Seq<char>>,
    display_name: Seq<char>,
)
    requires
        name != '_',
        !read_only(name),
        other != name,
    ensures
        reading(m.insert(name as u32, values), name, selections, fragments, display_name) == Some(
            values,
        ),
        reading(m.insert(name as u32, values), other, selections, fragments, display_name)
            == reading(m, other, selections, fragments, display_name),
{
    vstd::utf8::char_u32_cast(name, name as u32);
    vstd::utf8::char_u32_cast(other, other as u32);
}

/// A register that was removed reads as one that was never written.
pub proof fn law_read_after_remove(
    m: Map<u32, Seq<Seq<char>>>,
    name: char,
    selections: nat,
    fragments: Seq<Seq<char>>,
    display_name: Seq<char>,
)
    requires
        name != '_',
        !read_only(name),
    ensures
        reading(m.remove(name as u32), name, selections, fragments, display_name) is None,
{
}

/// The special registers hold nothing, a number for each selection, what is selected and the name of
/// the document; no other register depends on these.
pub proof fn law_special_registers(
    m: Map<u32, Seq<Seq<char>>>,
    name: char,
    selections: nat,
    fragments: Seq<Seq<char>>,
    display_name: Seq<char>,
)
    ensures
        reading(m, '_', selections, fragments, display_name) == Some(Seq::<Seq<char>>::empty()),
        reading(m, '#', selections, fragments, display_name) matches Some(v) && v.len() == selections && (
        forall|i: int| 0 <= i < v.len() ==> digits_value(#[trigger] v[i]) == i + 1),
        reading(m, '.', selections, fragments, display_name) == Some(fragments),
        reading(m, '%', selections, fragments, display_name) == Some(seq![display_name]),
        name != '_' && name != '#' && name != '.' && name != '%' ==> reading(
            m,
            name,
            selections,
            fragments,
            display_name,
        ) == (if m.dom().contains(name as u32) {
            Some(m[name as u32])
        } else {
            None
        }),
{
    assert forall|i: int| 0 <= i < selections implies digits_value(#[trigger] numbers(selections)[i]) == i
        + 1 by {
        law_decimal_reads_back((i + 1) as nat);
    }
}

/// Of the two clipboards, one register stands for that of the system and one for the primary one;
/// just the registers that the editor fills itself cannot be written.
pub proof fn law_registers_of_the_clipboard(name: char)
    ensures
        is_clipboard(name) ==> (clipboard_type(name) == ClipboardType::Clipboard <==> name == '*'),
        is_clipboard(name) ==> (clipboard_type(name) == ClipboardType::Selection <==> name == '+'),
        is_clipboard(name) <==> name == '*' || name == '+',
        read_only(name) <==> name == '#' || name == '.' || name == '%',
{
}

/// Values are joined in their order, with the separator between any two and nowhere else.
pub proof fn law_joined_in_parts(a: Seq<Seq<char>>, b: Seq<Seq<char>>, separator: Seq<char>)
    requires
        a.len() > 0,
        b.len() > 0,
    ensures
        joined(a + b, separator) == joined(a, separator) + separator + joined(b, separator),
        joined(seq![a[0]], separator) == a[0],
        joined(Seq::empty(), separator) == Seq::<char>::empty(),
    decreases b.len(),
{
    let all = a + b;
    if b.len() == 1 {
        assert(all.drop_last() =~= a);
        assert(all.last() == b[0]);
    } else {
        law_joined_in_parts(a, b.drop_last(), separator);
        assert(all.drop_last() =~= a + b.drop_last());
        assert(all.last() == b.last());
        assert(joined(a, separator) + separator + joined(b.drop_last(), separator) + separator + b.last()
            =~= joined(a, separator) + separator + (joined(b.drop_last(), separator) + separator
            + b.last()));
    }
}

/// What the registers hold after `values` were written to one of them.
pub open spec fn after_write(
    m: Map<u32, Seq<Seq<char>>>,
    name: char,
    values: Seq<Seq<char>>,
    clipboard_ok: bool,
) -> Map<u32, Seq<Seq<char>>> {
    if name == '_' || read_only(name) || (is_clipboard(name) && !clipboard_ok) {
        m
    } else {
        m.insert(name as u32, values)
    }
}

/// What is written to a register is read from it, and no other register changes. The register that
/// swallows all reads as empty, one that cannot be written reads as before, and so does that of a
/// clipboard that failed.
pub proof fn law_what_is_written_is_read(
    m: Map<u32, Seq<Seq<char>>>,
    name: char,
    other: char,
    values: Seq<Seq<char>>,
    clipboard_ok: bool,
    selections: nat,
    fragments: Seq<Seq<char>>,
    display_name: Seq<char>,
)
    ensures
        ({
            let after = after_write(m, name, values, clipboard_ok);
            let now = reading(after, name, selections, fragments, display_name);
            &&& other != name ==> reading(after, other, selections, fragments, display_name) == reading(
                m,
                other,
                selections,
                fragments,
                display_name,
            )
            &&& name == '_' ==> now == Some(Seq::<Seq<char>>::empty())
            &&& name == '#' || name == '.' || name == '%' ==> now == reading(
                m,
                name,
                selections,
                fragments,
                display_name,
            )
            &&& (name == '*' || name == '+') && !clipboard_ok ==> now == reading(
                m,
                name,
                selections,
                fragments,
                display_name,
            )
            &&& name != '_' && name != '#' && name != '.' && name != '%' && clipboard_ok ==> now == Some(
                values,
            )
            &&& name != '_' && name != '#' && name != '.' && name != '%' && name != '*' && name != '+'
                ==> now == Some(values)
        }),
{
    vstd::utf8::char_u32_cast(name, name as u32);
    vstd::utf8::char_u32_cast(other, other as u32);
}

} // verus!
