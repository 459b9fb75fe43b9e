//! The menu shown while a key sequence is being typed.
//!
//! When the keymap needs more keys, a menu with the keys that can follow is put on top of the
//! layers. It takes the next key: a command is run, a further menu takes its place, and any other
//! key closes it.
use crate::editor_view::canonical;
use crate::editor_view::Position;
use crate::graphics::CursorKind;
use crate::input::canonicalize_key;
use crate::input::no_modifiers;
use crate::input::Event;
use crate::input::KeyCode;
use crate::input::KeyEvent;
use crate::input::KeyModifiers;
use crate::strings::clone_strings;
use crate::strings::texts;
use vstd::prelude::*;
use vstd::string::*;

verus! {

/// The name of the menu's layer.
pub const ID: &'static str = "key-menu";

/// What a key leads to.
#[derive(Debug)]
pub enum KeyTrie {
    /// A command, by its name.
    MappableCommand(String),
    /// Commands that are run one after the other.
    Sequence(Vec<String>),
    /// More keys.
    Node(KeyTrieNode),
}

/// A key and what it leads to.
#[derive(Debug)]
pub struct KeyTrieEntry {
    pub key: KeyEvent,
    pub trie: KeyTrie,
}

/// The keys that can follow.
#[derive(Debug)]
pub struct KeyTrieNode {
    pub name: String,
    pub entries: Vec<KeyTrieEntry>,
    /// Whether the menu stays open after a command.
    pub is_sticky: bool,
}

/// The first entry from `i` on for a key.
pub open spec fn entry_for(entries: Seq<KeyTrieEntry>, key: KeyEvent, i: int) -> Option<int>
    decreases entries.len() - i,
{
    if i < 0 || i >= entries.len() {
        None
    } else if entries[i].key == key {
        Some(i)
    } else {
        entry_for(entries, key, i + 1)
    }
}

impl KeyTrieNode {
    /// Where the entry for a key stands.
    pub fn get(&self, key: KeyEvent) -> (r: Option<usize>)
        ensures
            match r {
                Some(i) => entry_for(self.entries@, key, 0) == Some(i as int) && i
                    < self.entries@.len() && self.entries@[i as int].key == key,
                None => entry_for(self.entries@, key, 0) is None,
            },
    {
        let mut i: usize = 0;
        while i < self.entries.len()
            invariant
                i <= self.entries@.len(),
                entry_for(self.entries@, key, 0) == entry_for(self.entries@, key, i as int),
            decreases self.entries@.len() - i,
        {
            if self.entries[i].key == key {
                return Some(i);
            }
            i = i + 1;
        }
        None
    }
}

/// A menu with the keys that can follow.
#[derive(Debug)]
pub struct KeyMenu {
    pub node: KeyTrieNode,
    pub sticky: bool,
}

/// What a menu does with an event.
#[derive(Debug, Clone, Copy, PartialEq, Eq, Structural)]
pub enum KeyMenuStep {
    /// It is none of its concern.
    Ignored,
    /// Take the menu's layer off and drop the hints.
    Close,
    /// Run the commands of an entry.
    Run(usize),
    /// Put the menu of an entry in place of this one.
    Descend(usize),
}

/// What remains to be done after the commands of an entry were run.
#[derive(Debug, Clone, Copy, PartialEq, Eq, Structural)]
pub struct KeyMenuFinish {
    /// Forget the count.
    pub clear_count: bool,
    /// Scroll so that the cursor can be seen.
    pub ensure_cursor: bool,
    /// Take the menu's layer off and drop the hints, after what the commands left to be done.
    pub close: bool,
}

/// What a menu does with a key.
pub open spec fn menu_step(node: KeyTrieNode, key: KeyEvent) -> KeyMenuStep {
    if key.code is Esc && key.modifiers == no_modifiers() {
        KeyMenuStep::Close
    } else {
        match entry_for(node.entries@, key, 0) {
            Some(i) => match node.entries@[i].trie {
                KeyTrie::MappableCommand(_) => KeyMenuStep::Run(i as usize),
                KeyTrie::Sequence(_) => KeyMenuStep::Run(i as usize),
                KeyTrie::Node(_) => KeyMenuStep::Descend(i as usize),
            },
            None => KeyMenuStep::Close,
        }
    }
}

/// The names of the commands that an entry runs.
pub open spec fn entry_commands(trie: KeyTrie) -> Seq<Seq<char>> {
    match trie {
        KeyTrie::MappableCommand(c) => seq![c@],
        KeyTrie::Sequence(v) => texts(v@),
        KeyTrie::Node(_) => Seq::empty(),
    }
}

impl KeyMenu {
    pub fn new(node: KeyTrieNode) -> (r: Self)
        ensures
            r.node == node,
            r.sticky == node.is_sticky,
    {
        let sticky = node.is_sticky;
        KeyMenu { node, sticky }
    }

    /// Decides what becomes of an event.
    pub fn handle_event(&self, event: &Event) -> (r: KeyMenuStep)
        ensures
            r == match *event {
                Event::Key(key) => menu_step(self.node, canonical(key)),
                _ => KeyMenuStep::Ignored,
            },
            r matches KeyMenuStep::Run(i) ==> i < self.node.entries@.len() && !(
            self.node.entries@[i as int].trie is Node),
            r matches KeyMenuStep::Descend(i) ==> i < self.node.entries@.len()
                && self.node.entries@[i as int].trie is Node,
    {
        let mut key: KeyEvent = match event {
            Event::Key(key) => *key,
            _ => {
                return KeyMenuStep::Ignored;
            },
        };
        canonicalize_key(&mut key);
        if key.code == KeyCode::Esc && key.modifiers == KeyModifiers::empty() {
            return KeyMenuStep::Close;
        }
        match self.node.get(key) {
            Some(i) => match &self.node.entries[i].trie {
                KeyTrie::MappableCommand(_) => KeyMenuStep::Run(i),
                KeyTrie::Sequence(_) => KeyMenuStep::Run(i),
                KeyTrie::Node(_) => KeyMenuStep::Descend(i),
            },
            None => KeyMenuStep::Close,
        }
    }

    /// The names of the commands of an entry, in the order in which they are run.
    pub fn commands(&self, index: usize) -> (r: Vec<String>)
        requires
            index < self.node.entries@.len(),
        ensures
            texts(r@) == entry_commands(self.node.entries@[index as int].trie),
    {
        match &self.node.entries[index].trie {
            KeyTrie::MappableCommand(c) => {
                let out = vec![c.clone()];
                assert(texts(out@) =~= seq![c@]);
                out
            },
            KeyTrie::Sequence(v) => clone_strings(v),
            KeyTrie::Node(_) => {
                let out: Vec<String> = Vec::new();
                assert(texts(out@) =~= Seq::empty());
                out
            },
        }
    }

    /// Decides what remains to be done after the commands of an entry were run; `should_close`
    /// tells that the last document was closed.
    pub fn finish(&self, should_close: bool) -> (r: KeyMenuFinish)
        ensures
            r == (KeyMenuFinish {
                clear_count: true,
                ensure_cursor: !should_close,
                close: !self.sticky,
            }),
    {
        KeyMenuFinish { clear_count: true, ensure_cursor: !should_close, close: !self.sticky }
    }

    /// The menu of an entry with more keys, which takes the place of this one.
    pub fn descend(self, index: usize) -> (r: Option<KeyMenu>)
        ensures
            if index < self.node.entries@.len() {
                match self.node.entries@[index as int].trie {
                    KeyTrie::Node(n) => r == Some(KeyMenu { node: n, sticky: n.is_sticky }),
                    _ => r is None,
                }
            } else {
                r is None
            },
    {
        let mut entries = self.node.entries;
        if index >= entries.len() {
            return None;
        }
        let entry = entries.swap_remove(index);
        match entry.trie {
            KeyTrie::Node(n) => Some(KeyMenu::new(n)),
            _ => None,
        }
    }

    /// The keys whose hints are drawn, if hints are wanted.
    pub fn hints(&self, auto_info: bool) -> (r: Option<&KeyTrieNode>)
        ensures
            r == if auto_info {
                Some(&self.node)
            } else {
                None
            },
    {
        if auto_info {
            Some(&self.node)
        } else {
            None
        }
    }

    /// The menu shows no cursor.
    pub fn cursor(&self) -> (r: (Option<Position>, CursorKind))
        ensures
            r == (None::<Position>, CursorKind::Hidden),
    {
        (None, CursorKind::Hidden)
    }

    /// The name of the menu's layer.
    pub fn id(&self) -> (r: Option<&'static str>)
        ensures
            r == Some(ID),
    {
        Some(ID)
    }
}

/// A menu uses up every key: one without an entry closes it, as escape does.
pub proof fn law_every_key_is_used(node: KeyTrieNode, key: KeyEvent)
    ensures
        !(menu_step(node, key) is Ignored),
        entry_for(node.entries@, key, 0) is None ==> menu_step(node, key) is Close,
        menu_step(node, KeyEvent { code: KeyCode::Esc, modifiers: no_modifiers() }) is Close,
{
}

proof fn lemma_entry_for(entries: Seq<KeyTrieEntry>, key: KeyEvent, i: int)
    requires
        0 <= i <= entries.len(),
    ensures
        match entry_for(entries, key, i) {
            Some(k) => i <= k < entries.len() && entries[k].key == key && forall|m: int|
                i <= m < k ==> (#[trigger] entries[m]).key != key,
            None => forall|m: int| i <= m < entries.len() ==> (#[trigger] entries[m]).key != key,
        },
    decreases entries.len() - i,
{
    if i < entries.len() && entries[i].key != key {
        lemma_entry_for(entries, key, i + 1);
    }
}

/// The key of an entry runs it, or opens the menu behind it, if no entry before it has the same key.
/// A key that no entry has closes the menu, and so does escape, whatever the entries are.
pub proof fn law_key_finds_its_entry(node: KeyTrieNode, key: KeyEvent)
    requires
        node.entries@.len() <= usize::MAX,
    ensures
        key.code == KeyCode::Esc && key.modifiers == no_modifiers() ==> menu_step(node, key)
            == KeyMenuStep::Close,
        (forall|i: int| 0 <= i < node.entries@.len() ==> (#[trigger] node.entries@[i]).key != key)
            ==> menu_step(node, key) == KeyMenuStep::Close,
        !(key.code == KeyCode::Esc && key.modifiers == no_modifiers()) ==> forall|i: int|
            0 <= i < node.entries@.len() && (#[trigger] node.entries@[i]).key == key && (forall|m: int|
                0 <= m < i ==> (#[trigger] node.entries@[m]).key != key) ==> menu_step(node, key) == (
            if node.entries@[i].trie is Node {
                KeyMenuStep::Descend(i as usize)
            } else {
                KeyMenuStep::Run(i as usize)
            }),
{
    lemma_entry_for(node.entries@, key, 0);
}

/// The commands of an entry are those that it names, in their order; one that leads to another menu
/// names none.
pub proof fn law_commands_of_an_entry(trie: KeyTrie)
    ensures
        trie matches KeyTrie::MappableCommand(c) ==> entry_commands(trie).len() == 1
            && entry_commands(trie)[0] == c@,
        trie matches KeyTrie::Sequence(v) ==> entry_commands(trie).len() == v@.len() && forall|i: int|
            0 <= i < v@.len() ==> #[trigger] entry_commands(trie)[i] == v@[i]@,
        trie is Node ==> entry_commands(trie).len() == 0,
{
}

} // verus!
