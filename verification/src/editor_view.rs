//! The view of a document: how it reacts to keys and the mouse, and what is drawn around the text.
use crate::app_id::AppId;
use crate::app_id::AppIds;
use crate::config::Mode;
use crate::editor::EditorModel;
use crate::graphics::CursorKind;
use crate::graphics::Rect;
use crate::input::alt_only;
use crate::input::canonicalize_key;
use crate::input::no_modifiers;
use crate::input::Event;
use crate::input::EventResult;
use crate::input::KeyCode;
use crate::input::KeyEvent;
use crate::input::KeyModifiers;
use crate::input::MouseButton;
use crate::input::MouseEvent;
use crate::input::MouseEventKind;
use crate::selection::law_cursor_lands_where_it_is_put;
use crate::selection::Range;
use crate::strings::texts;
use crate::text::clustered;
use crate::text::is_boundary;
use crate::text::law_boundaries_are_the_nearest;
use crate::text::Rope;
use vstd::prelude::*;
use vstd::string::*;

verus! {

/// Identifies a view of a document.
#[derive(Debug, Clone, Copy, PartialEq, Eq, Structural)]
pub struct ViewId(pub u64);

/// A row and a column.
#[derive(Debug, Clone, Copy, PartialEq, Eq, Structural)]
pub struct Position {
    pub row: usize,
    pub col: usize,
}

/// What kind of callback waits for the next key.
#[derive(Debug, Clone, Copy, PartialEq, Eq, Structural)]
pub enum OnKeyCallbackKind {
    /// It takes the key before the keymap does.
    PseudoPending,
    /// It takes the key if the keymap has nothing for it.
    Fallback,
}

/// The spinners of language servers that are at work.
#[derive(Debug)]
pub struct ProgressSpinners {
    running: Vec<u64>,
}

impl View for ProgressSpinners {
    type V = Set<u64>;

    closed spec fn view(&self) -> Set<u64> {
        self.running@.to_set()
    }
}

impl Default for ProgressSpinners {
    fn default() -> (r: Self)
        ensures
            r@ == Set::<u64>::empty(),
    {
        let r = ProgressSpinners { running: Vec::new() };
        assert(r@ =~= Set::empty());
        r
    }
}

impl ProgressSpinners {
    /// Whether the spinner of a server turns.
    pub fn is_running(&self, server: u64) -> (r: bool)
        ensures
            r == self@.contains(server),
    {
        let mut i: usize = 0;
        while i < self.running.len()
            invariant
                i <= self.running@.len(),
                forall|k: int| 0 <= k < i ==> self.running@[k] != server,
            decreases self.running@.len() - i,
        {
            if self.running[i] == server {
                assert(self.running@.contains(server));
                return true;
            }
            i = i + 1;
        }
        false
    }

    /// Lets the spinner of a server turn.
    pub fn start(&mut self, server: u64)
        ensures
            final(self)@ == old(self)@.insert(server),
    {
        let ghost before = self.running@;
        if !self.is_running(server) {
            self.running.push(server);
            assert(self.running@.to_set() =~= before.to_set().insert(server)) by {
                assert forall|x: u64| before.push(server).contains(x) <==> before.contains(x) || x
                    == server by {
                    if before.contains(x) {
                        let k = choose|k: int| 0 <= k < before.len() && before[k] == x;
                        assert(before.push(server)[k] == x);
                    }
                    if x == server {
                        assert(before.push(server)[before.len() as int] == x);
                    }
                }
            }
        } else {
            assert(self@ =~= self@.insert(server));
        }
    }

    /// Stops the spinner of a server.
    pub fn stop(&mut self, server: u64)
        ensures
            final(self)@ == old(self)@.remove(server),
    {
        let ghost before = self.running@;
        let mut rest: Vec<u64> = Vec::new();
        let mut i: usize = 0;
        while i < self.running.len()
            invariant
                i <= self.running@.len(),
                self.running@ == before,
                forall|x: u64| #[trigger] rest@.contains(x) <==> x != server && before.take(
                    i as int,
                ).contains(x),
            decreases self.running@.len() - i,
        {
            let s: u64 = self.running[i];
            let ghost prev = rest@;
            if s != server {
                rest.push(s);
            }
            proof {
                let t = before.take(i + 1);
                assert forall|x: u64| #[trigger] rest@.contains(x) <==> x != server && t.contains(
                    x,
                ) by {
                    if before.take(i as int).contains(x) {
                        let k = choose|k: int| 0 <= k < i && before.take(i as int)[k] == x;
                        assert(t[k] == x);
                    }
                    if prev.contains(x) {
                        let k = choose|k: int| 0 <= k < prev.len() && prev[k] == x;
                        assert(rest@[k] == x);
                    }
                    assert(t[i as int] == s);
                    if s != server {
                        assert(rest@[prev.len() as int] == s);
                    }
                    if t.contains(x) {
                        let k = choose|k: int| 0 <= k < t.len() && t[k] == x;
                        if k < i {
                            assert(before.take(i as int)[k] == x);
                        }
                    }
                    if rest@.contains(x) {
                        let k = choose|k: int| 0 <= k < rest@.len() && rest@[k] == x;
                        if k < prev.len() {
                            assert(prev[k] == x);
                        }
                    }
                }
            }
            i = i + 1;
        }
        assert(before.take(before.len() as int) =~= before);
        self.running = rest;
        assert(self@ =~= before.to_set().remove(server));
    }
}

/// The view of the document in one tab.
#[derive(Debug)]
pub struct EditorView {
    pub app_id: AppId,
    pub tab_index: usize,
    /// What waits for the next key.
    pub on_next_key: Option<OnKeyCallbackKind>,
    /// The keys that a waiting callback has already taken.
    pub pseudo_pending: Vec<KeyEvent>,
    pub spinners: ProgressSpinners,
    /// Whether the terminal's window has the focus.
    pub terminal_focused: bool,
}

/// What a key asks of the view after it was canonicalised.
#[derive(Debug, Clone, Copy, PartialEq, Eq, Structural)]
pub enum KeyStep {
    /// Give the key to the waiting callback.
    Callback,
    /// Handle the key as a command.
    Command,
}

/// What becomes of an event.
#[derive(Debug, Clone, Copy, PartialEq, Eq, Structural)]
pub enum ViewStep {
    /// It is done.
    Done(EventResult),
    /// A key, and what is to be done with it.
    Key(KeyEvent, KeyStep),
    /// The mouse was used.
    Mouse(MouseEvent),
    /// Nothing happened for a while: compute inlay hints; the event counts as ignored.
    Idle,
}

/// A key without the shift that its character already tells of.
pub open spec fn canonical(key: KeyEvent) -> KeyEvent {
    if key.code is Char {
        KeyEvent { code: key.code, modifiers: KeyModifiers { shift: false, ..key.modifiers } }
    } else {
        key
    }
}

/// What is to be done after a key was handled.
#[derive(Debug, Clone, Copy, PartialEq, Eq, Structural)]
pub struct KeyFinish {
    pub result: EventResult,
    /// Scroll so that the cursor can be seen.
    pub ensure_cursor: bool,
    /// Append pending changes to the history.
    pub append_history: bool,
    /// Run the callbacks that the command left.
    pub run_callbacks: bool,
}

impl EditorView {
    pub fn new(ids: &mut AppIds, tab_index: usize) -> (r: Self)
        ensures
            r.app_id == AppId(old(ids)@),
            final(ids)@ == if old(ids)@ == u64::MAX {
                0
            } else {
                (old(ids)@ + 1) as u64
            },
            r.tab_index == tab_index,
            r.on_next_key is None,
            r.pseudo_pending@ == Seq::<KeyEvent>::empty(),
            r.spinners@ == Set::<u64>::empty(),
            r.terminal_focused,
    {
        EditorView {
            app_id: AppId::next(ids),
            tab_index,
            on_next_key: None,
            pseudo_pending: Vec::new(),
            spinners: ProgressSpinners::default(),
            terminal_focused: true,
        }
    }

    pub fn spinners_mut(&mut self) -> (r: &mut ProgressSpinners)
        ensures
            *r == old(self).spinners,
            *final(self) == (EditorView { spinners: *final(r), ..*old(self) }),
    {
        &mut self.spinners
    }

    /// Takes the waiting callback if it is of `kind`; tells whether it is to be called.
    pub fn on_next_key(&mut self, kind: OnKeyCallbackKind) -> (r: bool)
        ensures
            r == (old(self).on_next_key == Some(kind)),
            *final(self) == if r {
                EditorView { on_next_key: None, ..*old(self) }
            } else {
                *old(self)
            },
    {
        match self.on_next_key {
            Some(k) => if k == kind {
                self.on_next_key = None;
                true
            } else {
                false
            },
            None => false,
        }
    }

    /// Takes an event; the tab of this view becomes the active one. Pasting is not possible, and a
    /// new size is dealt with before drawing, so both are used up here. A key drops the status and
    /// starts the idle timer anew.
    pub fn handle_event<D, T, C>(
        &mut self,
        event: &Event,
        editor: &mut EditorModel<D, T, C>,
        now: u64,
    ) -> (r: ViewStep)
        requires
            event is Key ==> now + old(editor).config.idle_timeout <= u64::MAX,
        ensures
            *final(editor) == if event is Key {
                EditorModel {
                    active_tab: old(self).tab_index,
                    status_msg: None,
                    idle_timer: (now + old(editor).config.idle_timeout) as u64,
                    ..*old(editor)
                }
            } else {
                EditorModel { active_tab: old(self).tab_index, ..*old(editor) }
            },
            match *event {
                Event::Paste(_) => r == ViewStep::Done(EventResult::Consumed) && *final(self)
                    == *old(self),
                Event::Resize(_, _) => r == ViewStep::Done(EventResult::Consumed) && *final(self)
                    == *old(self),
                Event::Key(key) => if old(self).on_next_key == Some(
                    OnKeyCallbackKind::PseudoPending,
                ) {
                    r == ViewStep::Key(canonical(key), KeyStep::Callback) && *final(self) == (
                    EditorView { on_next_key: None, ..*old(self) })
                } else {
                    r == ViewStep::Key(canonical(key), KeyStep::Command) && *final(self) == *old(
                        self)
                },
                Event::Mouse(mouse) => r == ViewStep::Mouse(mouse) && *final(self) == *old(self),
                Event::IdleTimeout => r == ViewStep::Idle && *final(self) == *old(self),
                Event::FocusGained => r == ViewStep::Done(EventResult::Consumed) && *final(self)
                    == (EditorView { terminal_focused: true, ..*old(self) }),
                Event::FocusLost => r == ViewStep::Done(EventResult::Consumed) && *final(self) == (
                EditorView { terminal_focused: false, ..*old(self) }),
            },
    {
        editor.active_tab = self.tab_index;
        match event {
            Event::Paste(_) => ViewStep::Done(EventResult::Consumed),
            Event::Resize(_, _) => ViewStep::Done(EventResult::Consumed),
            Event::Key(key) => {
                editor.reset_idle_timer(now);
                let mut key: KeyEvent = *key;
                canonicalize_key(&mut key);
                editor.clear_status();
                if self.on_next_key(OnKeyCallbackKind::PseudoPending) {
                    ViewStep::Key(key, KeyStep::Callback)
                } else {
                    ViewStep::Key(key, KeyStep::Command)
                }
            },
            Event::Mouse(mouse) => ViewStep::Mouse(*mouse),
            Event::IdleTimeout => ViewStep::Idle,
            Event::FocusGained => {
                self.terminal_focused = true;
                ViewStep::Done(EventResult::Consumed)
            },
            Event::FocusLost => {
                self.terminal_focused = false;
                ViewStep::Done(EventResult::Consumed)
            },
        }
    }

    /// Decides what is to be done with what the keymap has for a key. `pending` are the keys that
    /// the keymap had taken before; they are noted as taken.
    pub fn handle_keymap_event(&mut self, pending: &Vec<KeyEvent>, result: KeymapResult) -> (r:
        KeymapStep)
        ensures
            r == keymap_step(result),
            final(self).pseudo_pending@ == old(self).pseudo_pending@ + pending@,
            final(self).app_id == old(self).app_id,
            final(self).tab_index == old(self).tab_index,
            final(self).on_next_key == old(self).on_next_key,
            final(self).spinners == old(self).spinners,
            final(self).terminal_focused == old(self).terminal_focused,
    {
        let ghost before = self.pseudo_pending@;
        let mut i: usize = 0;
        while i < pending.len()
            invariant
                i <= pending@.len(),
                self.pseudo_pending@ == before + pending@.take(i as int),
                self.app_id == old(self).app_id,
                self.tab_index == old(self).tab_index,
                self.on_next_key == old(self).on_next_key,
                self.spinners == old(self).spinners,
                self.terminal_focused == old(self).terminal_focused,
            decreases pending@.len() - i,
        {
            self.pseudo_pending.push(pending[i]);
            assert(self.pseudo_pending@ =~= before + pending@.take(i + 1));
            i = i + 1;
        }
        assert(pending@.take(pending@.len() as int) =~= pending@);
        match result {
            KeymapResult::Matched => KeymapStep { commands: 1, hints: Hints::Sticky, unused: None },
            KeymapResult::Pending => KeymapStep {
                commands: 0,
                hints: Hints::Following,
                unused: None,
            },
            KeymapResult::MatchedSequence(n) => KeymapStep {
                commands: n,
                hints: Hints::Sticky,
                unused: None,
            },
            _ => KeymapStep { commands: 0, hints: Hints::Sticky, unused: Some(result) },
        }
    }

    /// Ends the handling of a key as a command. `unused` is what the keymap had for a key without
    /// use, `pending` how many keys it has taken now. A callback that waits for such keys is taken.
    pub fn finish_command(&mut self, unused: Option<KeymapResult>, pending: usize) -> (r:
        CommandFinish)
        ensures
            r == (CommandFinish {
                fallback: unused == Some(KeymapResult::NotFound) && old(self).on_next_key == Some(
                    OnKeyCallbackKind::Fallback,
                ),
                clear_count: pending == 0,
            }),
            *final(self) == if r.fallback {
                EditorView { on_next_key: None, ..*old(self) }
            } else {
                *old(self)
            },
    {
        let fallback = unused == Some(KeymapResult::NotFound) && self.on_next_key(
            OnKeyCallbackKind::Fallback,
        );
        CommandFinish { fallback, clear_count: pending == 0 }
    }

    /// Nothing happened for a while; inlay hints are computed, and the event counts as ignored.
    pub fn handle_idle_timeout(&mut self) -> (r: EventResult)
        ensures
            r == EventResult::Ignored,
            *final(self) == *old(self),
    {
        EventResult::Ignored
    }

    /// Ends the handling of a key. `callback` is what the command left to wait for the next key,
    /// `callbacks` how many callbacks it left to run. If the command closed the last view, nothing
    /// more is done.
    pub fn finish_key(
        &mut self,
        key: KeyEvent,
        callback: Option<OnKeyCallbackKind>,
        callbacks: usize,
        should_close: bool,
        mode: Mode,
    ) -> (r: KeyFinish)
        ensures
            final(self).on_next_key == callback,
            final(self).pseudo_pending@ == keys_noted(old(self).pseudo_pending@, key, callback),
            final(self).app_id == old(self).app_id,
            final(self).tab_index == old(self).tab_index,
            final(self).spinners == old(self).spinners,
            final(self).terminal_focused == old(self).terminal_focused,
            r == key_end(should_close, mode, callbacks),
    {
        self.on_next_key = callback;
        match callback {
            Some(OnKeyCallbackKind::PseudoPending) => {
                self.pseudo_pending.push(key);
            },
            _ => {
                self.pseudo_pending.clear();
            },
        }
        if should_close {
            KeyFinish {
                result: EventResult::Ignored,
                ensure_cursor: false,
                append_history: false,
                run_callbacks: false,
            }
        } else {
            KeyFinish {
                result: EventResult::Consumed,
                ensure_cursor: true,
                append_history: mode != Mode::Normal,
                run_callbacks: callbacks > 0,
            }
        }
    }

    /// Begins to drop what waits for a key, since the input was none: the callback that waits for the
    /// next key is taken. Also drops the status and starts the idle timer anew. Tells whether the
    /// callback is to be called with the key that stands for nothing. That key then goes to the
    /// keymap, and `finish_non_key_input` deals with what the keymap has for it.
    pub fn handle_non_key_input<D, T, C>(&mut self, editor: &mut EditorModel<D, T, C>, now: u64) -> (r:
        (bool, KeyEvent))
        requires
            now + old(editor).config.idle_timeout <= u64::MAX,
        ensures
            *final(editor) == (EditorModel {
                status_msg: None,
                idle_timer: (now + old(editor).config.idle_timeout) as u64,
                ..*old(editor)
            }),
            r.0 == (old(self).on_next_key is Some),
            r.1 == (KeyEvent { code: KeyCode::Null, modifiers: no_modifiers() }),
            *final(self) == (EditorView { on_next_key: None, ..*old(self) }),
    {
        editor.clear_status();
        editor.reset_idle_timer(now);
        let waiting = self.on_next_key.is_some();
        self.on_next_key = None;
        (waiting, KeyEvent { code: KeyCode::Null, modifiers: KeyModifiers::empty() })
    }

    /// Ends dropping what waits for a key, once the keymap was asked for the key that stands for
    /// nothing. Decides what is to be done with what it has, as for any other key; no key is noted as
    /// taken then, neither one that was before nor one of `pending`, which the keymap had taken.
    pub fn finish_non_key_input(&mut self, pending: &Vec<KeyEvent>, result: KeymapResult) -> (r:
        KeymapStep)
        ensures
            r == keymap_step(result),
            final(self).pseudo_pending@ == Seq::<KeyEvent>::empty(),
            final(self).app_id == old(self).app_id,
            final(self).tab_index == old(self).tab_index,
            final(self).on_next_key == old(self).on_next_key,
            final(self).spinners == old(self).spinners,
            final(self).terminal_focused == old(self).terminal_focused,
    {
        let step = self.handle_keymap_event(pending, result);
        self.pseudo_pending.clear();
        step
    }

    /// Where the terminal's cursor goes, for the position of the cursor within the text. The block
    /// cursor is drawn with the text, so the terminal shows one only without the focus.
    pub fn cursor(&self, pos: Option<Position>, inner: Rect) -> (r: (Option<Position>, CursorKind))
        requires
            pos matches Some(p) ==> p.row + inner.y <= usize::MAX && p.col + inner.x <= usize::MAX,
        ensures
            r.0 == match pos {
                Some(p) => Some(
                    Position {
                        row: (p.row + inner.y) as usize,
                        col: (p.col + inner.x) as usize,
                    },
                ),
                None => None,
            },
            r.1 == if self.terminal_focused {
                CursorKind::Hidden
            } else {
                CursorKind::Underline
            },
    {
        let moved = match pos {
            Some(p) => Some(
                Position { row: p.row + inner.y as usize, col: p.col + inner.x as usize },
            ),
            None => None,
        };
        if self.terminal_focused {
            (moved, CursorKind::Hidden)
        } else {
            (moved, CursorKind::Underline)
        }
    }
}

/// The name of the tab: that of the document's file, `[scratch]` if it has none.
pub fn tab_name(has_path: bool, file_name: Option<String>) -> (r: String)
    ensures
        r@ == if has_path {
            match file_name {
                Some(n) => n@,
                None => Seq::empty(),
            }
        } else {
            "[scratch]"@
        },
{
    if has_path {
        match file_name {
            Some(n) => n,
            None => String::new(),
        }
    } else {
        "[scratch]".to_owned()
    }
}

/// All texts one behind the other.
pub open spec fn all_texts(v: Seq<Seq<char>>) -> Seq<char>
    decreases v.len(),
{
    if v.len() == 0 {
        Seq::empty()
    } else {
        all_texts(v.drop_last()) + v.last()
    }
}

/// The keys that wait for more, the keymap's first.
pub fn pending_keys(keymap: &Vec<String>, pseudo: &Vec<String>) -> (r: String)
    ensures
        r@ == all_texts(texts(keymap@)) + all_texts(texts(pseudo@)),
{
    let mut s = String::new();
    append_all(&mut s, keymap);
    append_all(&mut s, pseudo);
    assert(s@ =~= all_texts(texts(keymap@)) + all_texts(texts(pseudo@)));
    s
}

fn append_all(s: &mut String, v: &Vec<String>)
    ensures
        final(s)@ == old(s)@ + all_texts(texts(v@)),
{
    let ghost before = s@;
    let mut i: usize = 0;
    assert(texts(v@).take(0) =~= Seq::empty());
    assert(before + Seq::<char>::empty() =~= before);
    while i < v.len()
        invariant
            i <= v@.len(),
            s@ == before + all_texts(texts(v@).take(i as int)),
        decreases v@.len() - i,
    {
        s.append(v[i].as_str());
        let ghost t = texts(v@).take(i + 1);
        assert(t.drop_last() =~= texts(v@).take(i as int));
        assert(t.last() == v@[i as int]@);
        assert(s@ =~= before + all_texts(t));
        i = i + 1;
    }
    assert(texts(v@).take(v@.len() as int) =~= texts(v@));
}

/// What a key means while a count can be typed.
#[derive(Debug, Clone, Copy, PartialEq, Eq, Structural)]
pub enum CountStep {
    /// The key is used up; the count stays.
    Keep,
    /// The key is used up; this is the count now.
    SetCount(usize),
    /// The key goes to the keymap, with the count.
    Dispatch,
}

/// The digit of a key without modifiers.
pub open spec fn digit_of(event: KeyEvent) -> Option<int> {
    match event.code {
        KeyCode::Char(c) => if event.modifiers == no_modifiers() && 48 <= c as u32 <= 57 {
            Some(c as u32 - 48)
        } else {
            None
        },
        _ => None,
    }
}

/// What a key means, given the count so far and whether the keymap has a meaning for it. A count
/// that would become too great stays as it is.
pub open spec fn count_step(event: KeyEvent, count: Option<usize>, bound: bool) -> CountStep {
    match (digit_of(event), count) {
        (Some(d), Some(c)) => if c * 10 + d > 100_000_000 {
            CountStep::Keep
        } else {
            CountStep::SetCount((c * 10 + d) as usize)
        },
        (Some(d), None) => if d != 0 && !bound {
            CountStep::SetCount(d as usize)
        } else {
            CountStep::Dispatch
        },
        _ => CountStep::Dispatch,
    }
}

/// Decides what a key means while a count can be typed.
pub fn command_mode(event: KeyEvent, count: Option<usize>, bound: bool) -> (r: CountStep)
    requires
        count matches Some(c) ==> 0 < c,
        digit_of(event) matches Some(d) ==> count matches Some(c) ==> c * 10 + d <= usize::MAX,
    ensures
        r == count_step(event, count, bound),
{
    let digit: Option<usize> = match event.code {
        KeyCode::Char(c) => if event.modifiers == KeyModifiers::empty() && c as u32 >= 48
            && c as u32 <= 57 {
            Some((c as u32 - 48) as usize)
        } else {
            None
        },
        _ => None,
    };
    match (digit, count) {
        (Some(d), Some(c)) => {
            let n: usize = c * 10 + d;
            if n > 100_000_000 {
                CountStep::Keep
            } else {
                CountStep::SetCount(n)
            }
        },
        (Some(d), None) => if d != 0 && !bound {
            CountStep::SetCount(d)
        } else {
            CountStep::Dispatch
        },
        _ => CountStep::Dispatch,
    }
}

/// Typing digits keeps the count between one and a hundred million.
pub proof fn law_count_stays_bounded(event: KeyEvent, count: Option<usize>, bound: bool)
    requires
        count matches Some(c) ==> 0 < c <= 100_000_000,
    ensures
        count_step(event, count, bound) matches CountStep::SetCount(n) ==> 0 < n <= 100_000_000,
{
}

/// What the keymap has for a key.
#[derive(Debug, Clone, Copy, PartialEq, Eq, Structural)]
pub enum KeymapResult {
    /// More keys are needed.
    Pending,
    /// One command.
    Matched,
    /// Several commands.
    MatchedSequence(usize),
    NotFound,
    Cancelled,
}

/// Which keys are shown as hints.
#[derive(Debug, Clone, Copy, PartialEq, Eq, Structural)]
pub enum Hints {
    /// Those of the menu that stays open; none if there is no such menu.
    Sticky,
    /// Those that can follow.
    Following,
}

/// What is to be done with what the keymap has for a key.
#[derive(Debug, Clone, Copy, PartialEq, Eq, Structural)]
pub struct KeymapStep {
    /// How many commands are to be run.
    pub commands: usize,
    pub hints: Hints,
    /// What is told to the caller, if the key had no use.
    pub unused: Option<KeymapResult>,
}

/// What is to be done with what the keymap has for a key.
pub open spec fn keymap_step(result: KeymapResult) -> KeymapStep {
    KeymapStep {
        commands: match result {
            KeymapResult::Matched => 1,
            KeymapResult::MatchedSequence(n) => n,
            _ => 0,
        },
        hints: if result is Pending {
            Hints::Following
        } else {
            Hints::Sticky
        },
        unused: if result is NotFound || result is Cancelled {
            Some(result)
        } else {
            None
        },
    }
}

/// What is to be done after a key was handled as a command.
#[derive(Debug, Clone, Copy, PartialEq, Eq, Structural)]
pub struct CommandFinish {
    /// Give the key to the callback that takes keys without use.
    pub fallback: bool,
    /// Forget the count.
    pub clear_count: bool,
}

/// The switches of mode, for the mode before the first of `n` commands and those after each.
pub open spec fn switches(start: Mode, after: Seq<Mode>, n: int) -> Seq<(Mode, Mode)>
    decreases n,
{
    if n <= 0 {
        Seq::empty()
    } else {
        let old_mode = if n == 1 {
            start
        } else {
            after[n - 2]
        };
        if after[n - 1] != old_mode {
            switches(start, after, n - 1).push((old_mode, after[n - 1]))
        } else {
            switches(start, after, n - 1)
        }
    }
}

/// The switches of mode that are told about while commands run.
pub fn mode_switches(start: Mode, after: &Vec<Mode>) -> (r: Vec<(Mode, Mode)>)
    ensures
        r@ == switches(start, after@, after@.len() as int),
{
    let mut out: Vec<(Mode, Mode)> = Vec::new();
    let mut last = start;
    let mut i: usize = 0;
    while i < after.len()
        invariant
            i <= after@.len(),
            last == if i == 0 {
                start
            } else {
                after@[i - 1]
            },
            out@ == switches(start, after@, i as int),
        decreases after@.len() - i,
    {
        let current = after[i];
        if current != last {
            out.push((last, current));
        }
        last = current;
        i = i + 1;
    }
    out
}

/// What the mouse event meets on the screen and in the document.
pub struct MouseContext<'a> {
    /// The mode before the event; another view that gets the focus starts in normal mode.
    pub mode: Mode,
    pub text: &'a Rope,
    /// The position in the text under the pointer, and its view; virtual text does not count.
    pub over_text: Option<(usize, ViewId)>,
    /// The view under the pointer; virtual text counts.
    pub over_view: Option<ViewId>,
    /// The view whose gutter is under the pointer.
    pub over_gutter: Option<ViewId>,
    /// The position in the focused view under the pointer.
    pub focused_pos: Option<usize>,
    pub focus: ViewId,
    /// The primary range of the view under the pointer.
    pub hit_primary: Range,
    /// The primary range of the focused view.
    pub primary: Range,
    /// The range that was selected when the button went down.
    pub mouse_down_range: Option<Range>,
    /// How many lines one turn of the wheel scrolls; the sign does not count.
    pub scroll_lines: isize,
}

/// Where a scroll goes.
#[derive(Debug, Clone, Copy, PartialEq, Eq, Structural)]
pub enum Direction {
    Forward,
    Backward,
}

/// One effect of a mouse event.
#[derive(Debug, Clone, Copy, PartialEq, Eq, Structural)]
pub enum MouseEffect {
    /// Drop what waits for a key, as input that is no key does.
    DropPending,
    /// Give a view the focus; if it does not have it yet, the mode becomes the normal one.
    Focus(ViewId),
    /// Add an empty range to the selection; it becomes the primary one.
    AddCursor(ViewId, usize),
    /// Select just this range.
    Select(ViewId, Range),
    /// Replace the primary range.
    SetPrimary(ViewId, Range),
    SetMouseDownRange(Option<Range>),
    EnsureCursor(ViewId),
    /// Scroll a view, which has the focus meanwhile, by a number of lines.
    Scroll(ViewId, usize, Direction),
    /// Yank the primary range to the register `*`.
    Yank,
}

/// The absolute value of a number.
pub open spec fn magnitude(n: int) -> int {
    if n >= 0 {
        n
    } else {
        -n
    }
}

/// The effects of a mouse event behind dropping what waits for a key, and whether it is used up.
pub open spec fn mouse_effects(event: MouseEvent, c: MouseContext) -> (
    Seq<MouseEffect>,
    EventResult,
) {
    match event.kind {
        MouseEventKind::Down(MouseButton::Left) => match c.over_text {
            Some((pos, view)) => (
                seq![MouseEffect::Focus(view)] + (if event.modifiers == alt_only() {
                    seq![MouseEffect::AddCursor(view, pos)]
                } else if c.mode == Mode::Select && view == c.focus {
                    let range = c.hit_primary.with_cursor(c.text@, pos, true);
                    seq![
                        MouseEffect::Select(view, range),
                        MouseEffect::SetMouseDownRange(Some(range)),
                    ]
                } else {
                    seq![MouseEffect::Select(view, Range { anchor: pos, head: pos })]
                }) + seq![MouseEffect::EnsureCursor(view)],
                EventResult::Consumed,
            ),
            None => (
                match c.over_gutter {
                    Some(view) => seq![MouseEffect::Focus(view)],
                    None => Seq::empty(),
                },
                EventResult::Ignored,
            ),
        },
        MouseEventKind::Drag(MouseButton::Left) => match c.focused_pos {
            Some(pos) => (
                seq![
                    MouseEffect::SetPrimary(c.focus, c.primary.with_cursor(c.text@, pos, true)),
                    MouseEffect::EnsureCursor(c.focus),
                ],
                EventResult::Consumed,
            ),
            None => (Seq::empty(), EventResult::Ignored),
        },
        MouseEventKind::ScrollUp => scroll_effects(c, Direction::Backward),
        MouseEventKind::ScrollDown => scroll_effects(c, Direction::Forward),
        MouseEventKind::Up(MouseButton::Left) => {
            let yank = match c.mouse_down_range {
                Some(down) => c.primary != down,
                None => c.primary.end() - c.primary.start() > 1,
            };
            if yank {
                (
                    seq![MouseEffect::SetMouseDownRange(None), MouseEffect::Yank],
                    EventResult::Consumed,
                )
            } else {
                (seq![MouseEffect::SetMouseDownRange(None)], EventResult::Ignored)
            }
        },
        MouseEventKind::Up(MouseButton::Right) => match c.over_gutter {
            Some(view) => (
                seq![MouseEffect::Focus(view), MouseEffect::EnsureCursor(view)],
                EventResult::Consumed,
            ),
            None => (Seq::empty(), EventResult::Ignored),
        },
        _ => (Seq::empty(), EventResult::Ignored),
    }
}

/// The effects of turning the wheel: the view under the pointer scrolls, the focus stays.
pub open spec fn scroll_effects(c: MouseContext, direction: Direction) -> (
    Seq<MouseEffect>,
    EventResult,
) {
    match c.over_view {
        Some(view) => (
            seq![
                MouseEffect::Scroll(view, magnitude(c.scroll_lines as int) as usize, direction),
                MouseEffect::EnsureCursor(c.focus),
            ],
            EventResult::Consumed,
        ),
        None => (Seq::empty(), EventResult::Ignored),
    }
}

fn lines_to_scroll(n: isize) -> (r: usize)
    ensures
        r == magnitude(n as int),
{
    if n >= 0 {
        n as usize
    } else if n == isize::MIN {
        isize::MAX as usize + 1
    } else {
        (-n) as usize
    }
}

/// Decides what a mouse event does. Everything but a mere movement first drops what waits for a
/// key. There is no pasting with the middle button.
pub fn handle_mouse_event(event: MouseEvent, context: &MouseContext) -> (r: (
    Vec<MouseEffect>,
    EventResult,
))
    ensures
        r.0@ == (if event.kind != MouseEventKind::Moved {
            seq![MouseEffect::DropPending]
        } else {
            Seq::empty()
        }) + mouse_effects(event, *context).0,
        r.1 == mouse_effects(event, *context).1,
{
    let mut out: Vec<MouseEffect> = Vec::new();
    if event.kind != MouseEventKind::Moved {
        out.push(MouseEffect::DropPending);
    }
    let ghost start = out@;
    let result = match event.kind {
        MouseEventKind::Down(MouseButton::Left) => match context.over_text {
            Some((pos, view)) => {
                out.push(MouseEffect::Focus(view));
                if event.modifiers == KeyModifiers::alt() {
                    out.push(MouseEffect::AddCursor(view, pos));
                } else if context.mode == Mode::Select && view == context.focus {
                    let range = context.hit_primary.put_cursor(context.text, pos, true);
                    out.push(MouseEffect::Select(view, range));
                    out.push(MouseEffect::SetMouseDownRange(Some(range)));
                } else {
                    out.push(MouseEffect::Select(view, Range::point(pos)));
                }
                out.push(MouseEffect::EnsureCursor(view));
                EventResult::Consumed
            },
            None => {
                match context.over_gutter {
                    Some(view) => {
                        out.push(MouseEffect::Focus(view));
                    },
                    None => {},
                }
                EventResult::Ignored
            },
        },
        MouseEventKind::Drag(MouseButton::Left) => match context.focused_pos {
            Some(pos) => {
                let range = context.primary.put_cursor(context.text, pos, true);
                out.push(MouseEffect::SetPrimary(context.focus, range));
                out.push(MouseEffect::EnsureCursor(context.focus));
                EventResult::Consumed
            },
            None => EventResult::Ignored,
        },
        MouseEventKind::ScrollUp => match context.over_view {
            Some(view) => {
                let lines: usize = lines_to_scroll(context.scroll_lines);
                out.push(MouseEffect::Scroll(view, lines, Direction::Backward));
                out.push(MouseEffect::EnsureCursor(context.focus));
                EventResult::Consumed
            },
            None => EventResult::Ignored,
        },
        MouseEventKind::ScrollDown => match context.over_view {
            Some(view) => {
                let lines: usize = lines_to_scroll(context.scroll_lines);
                out.push(MouseEffect::Scroll(view, lines, Direction::Forward));
                out.push(MouseEffect::EnsureCursor(context.focus));
                EventResult::Consumed
            },
            None => EventResult::Ignored,
        },
        MouseEventKind::Up(MouseButton::Left) => {
            out.push(MouseEffect::SetMouseDownRange(None));
            let yank: bool = match context.mouse_down_range {
                Some(down) => context.primary != down,
                None => context.primary.to() - context.primary.from() > 1,
            };
            if yank {
                out.push(MouseEffect::Yank);
                EventResult::Consumed
            } else {
                EventResult::Ignored
            }
        },
        MouseEventKind::Up(MouseButton::Right) => match context.over_gutter {
            Some(view) => {
                out.push(MouseEffect::Focus(view));
                out.push(MouseEffect::EnsureCursor(view));
                EventResult::Consumed
            },
            None => EventResult::Ignored,
        },
        _ => EventResult::Ignored,
    };
    assert(out@ =~= start + mouse_effects(event, *context).0);
    (out, result)
}

/// A mouse event that is ignored never changes a selection and yanks nothing.
pub proof fn law_ignored_mouse_keeps_selection(event: MouseEvent, c: MouseContext, i: int)
    requires
        mouse_effects(event, c).1 == EventResult::Ignored,
        0 <= i < mouse_effects(event, c).0.len(),
    ensures
        !(mouse_effects(event, c).0[i] is Select),
        !(mouse_effects(event, c).0[i] is SetPrimary),
        !(mouse_effects(event, c).0[i] is AddCursor),
        !(mouse_effects(event, c).0[i] is Yank),
{
}

/// Turning the wheel up and turning it down over the same view scroll it by the same number of lines
/// in opposite directions, and up is backward. The number is the configured one without its sign.
/// Over no view nothing happens.
pub proof fn law_wheel_scrolls_both_ways(up: MouseEvent, down: MouseEvent, c: MouseContext)
    requires
        up.kind == MouseEventKind::ScrollUp,
        down.kind == MouseEventKind::ScrollDown,
    ensures
        c.over_view matches Some(view) ==> {
            let (a, b) = (mouse_effects(up, c), mouse_effects(down, c));
            &&& a.1 == EventResult::Consumed && b.1 == EventResult::Consumed
            &&& a.0.len() == 2 && b.0.len() == 2
            &&& a.0[0] matches MouseEffect::Scroll(v, n, d) && v == view && d == Direction::Backward
                && (n == c.scroll_lines || n + c.scroll_lines == 0) && b.0[0]
                == MouseEffect::Scroll(view, n, Direction::Forward)
            &&& a.0[1] == b.0[1] && a.0[1] == MouseEffect::EnsureCursor(c.focus)
        },
        c.over_view is None ==> mouse_effects(up, c).0.len() == 0 && mouse_effects(down, c).0.len()
            == 0 && mouse_effects(up, c).1 == EventResult::Ignored && mouse_effects(down, c).1
            == EventResult::Ignored,
{
}

/// Only the wheel scrolls, only a released button yanks, and only the pressed left button or moving
/// with it held changes a selection.
pub proof fn law_mouse_events_do_their_own(event: MouseEvent, c: MouseContext, i: int)
    requires
        0 <= i < mouse_effects(event, c).0.len(),
    ensures
        mouse_effects(event, c).0[i] is Scroll ==> event.kind == MouseEventKind::ScrollUp || event.kind
            == MouseEventKind::ScrollDown,
        mouse_effects(event, c).0[i] is Yank ==> event.kind == MouseEventKind::Up(MouseButton::Left),
        mouse_effects(event, c).0[i] is Select ==> event.kind == MouseEventKind::Down(
            MouseButton::Left,
        ),
        mouse_effects(event, c).0[i] is AddCursor ==> event.kind == MouseEventKind::Down(
            MouseButton::Left,
        ),
        mouse_effects(event, c).0[i] is SetPrimary ==> event.kind == MouseEventKind::Drag(
            MouseButton::Left,
        ),
        mouse_effects(event, c).0[i] is DropPending ==> false,
{
}

/// A click on the text gives its view the focus, shows the cursor, and puts it on the character that
/// was hit: with Alt as one more cursor, else as the only one. In the select mode of the focused view
/// the selection is extended to there, and is remembered as the one at which the button went down.
pub proof fn law_click_puts_the_cursor(event: MouseEvent, c: MouseContext, pos: usize, view: ViewId)
    requires
        event.kind == MouseEventKind::Down(MouseButton::Left),
        c.over_text == Some((pos, view)),
        clustered(c.text@),
        c.text@.len() <= usize::MAX,
        pos < c.text@.len(),
        is_boundary(c.text@, pos as int),
        c.hit_primary.anchor < c.text@.len(),
        c.hit_primary.head <= c.text@.len(),
        is_boundary(c.text@, c.hit_primary.anchor as int),
    ensures
        ({
            let (effects, result) = mouse_effects(event, c);
            let alt = event.modifiers.alt && !event.modifiers.shift && !event.modifiers.control
                && !event.modifiers.command;
            let extends = !alt && c.mode == Mode::Select && view == c.focus;
            &&& result == EventResult::Consumed
            &&& effects[0] == MouseEffect::Focus(view)
            &&& effects.last() == MouseEffect::EnsureCursor(view)
            &&& alt ==> effects[1] == MouseEffect::AddCursor(view, pos) && effects.len() == 3
            &&& !alt ==> (effects[1] matches MouseEffect::Select(v, range) && v == view
                && range.cursor_at(c.text@) == pos && (!extends ==> range.anchor == pos && range.head
                == pos && effects.len() == 3) && (extends ==> effects.len() == 4 && effects[2]
                == MouseEffect::SetMouseDownRange(Some(range)) && range.start()
                <= c.hit_primary.anchor <= range.end()))
        }),
{
    law_cursor_lands_where_it_is_put(c.hit_primary, c.text@, pos, true);
    law_boundaries_are_the_nearest(c.text@, c.hit_primary.anchor as int);
}

/// Moving the mouse with the button held moves the cursor of the primary range of the focused view to
/// the character under the pointer, and keeps that range's anchor selected.
pub proof fn law_drag_moves_the_cursor(event: MouseEvent, c: MouseContext, pos: usize)
    requires
        event.kind == MouseEventKind::Drag(MouseButton::Left),
        c.focused_pos == Some(pos),
        clustered(c.text@),
        c.text@.len() <= usize::MAX,
        pos < c.text@.len(),
        is_boundary(c.text@, pos as int),
        c.primary.anchor < c.text@.len(),
        c.primary.head <= c.text@.len(),
        is_boundary(c.text@, c.primary.anchor as int),
    ensures
        ({
            let (effects, result) = mouse_effects(event, c);
            &&& result == EventResult::Consumed
            &&& effects.len() == 2
            &&& effects[0] matches MouseEffect::SetPrimary(v, range) && v == c.focus
                && range.cursor_at(c.text@) == pos && range.start() <= c.primary.anchor <= range.end()
            &&& effects[1] == MouseEffect::EnsureCursor(c.focus)
        }),
{
    law_cursor_lands_where_it_is_put(c.primary, c.text@, pos, true);
    law_boundaries_are_the_nearest(c.text@, c.primary.anchor as int);
}

/// Releasing the left button yanks what was selected while it was held, and nothing if the selection
/// is as it was when the button went down, or no wider than a character. What was remembered of the
/// moment when it went down is forgotten in any case.
pub proof fn law_release_yanks_what_was_selected(event: MouseEvent, c: MouseContext)
    requires
        event.kind == MouseEventKind::Up(MouseButton::Left),
    ensures
        ({
            let (effects, result) = mouse_effects(event, c);
            &&& effects[0] == MouseEffect::SetMouseDownRange(None)
            &&& effects.contains(MouseEffect::Yank) <==> result == EventResult::Consumed
            &&& c.mouse_down_range == Some(c.primary) ==> !effects.contains(MouseEffect::Yank)
            &&& c.mouse_down_range is Some && c.mouse_down_range != Some(c.primary)
                ==> effects.contains(MouseEffect::Yank)
            &&& c.mouse_down_range is None ==> (effects.contains(MouseEffect::Yank)
                <==> c.primary.head >= c.primary.anchor + 2 || c.primary.anchor >= c.primary.head + 2)
        }),
{
    let effects = mouse_effects(event, c).0;
    if effects.len() == 2 {
        assert(effects[1] == MouseEffect::Yank);
    }
}

/// A click beside the text, on the gutter of a view, gives that view the focus and is left to others;
/// with the right button it is used up. Elsewhere nothing happens.
pub proof fn law_gutter_gets_the_focus(event: MouseEvent, c: MouseContext)
    ensures
        event.kind == MouseEventKind::Down(MouseButton::Left) && c.over_text is None ==> mouse_effects(
            event,
            c,
        ).1 == EventResult::Ignored,
        event.kind == MouseEventKind::Down(MouseButton::Left) && c.over_text is None ==> (
        c.over_gutter matches Some(v) ==> mouse_effects(event, c).0 == seq![MouseEffect::Focus(v)]),
        event.kind == MouseEventKind::Up(MouseButton::Right) ==> (c.over_gutter matches Some(v)
            ==> mouse_effects(event, c).1 == EventResult::Consumed && mouse_effects(event, c).0
            == seq![MouseEffect::Focus(v), MouseEffect::EnsureCursor(v)]),
        c.over_gutter is None && c.over_text is None && c.over_view is None && c.focused_pos is None
            && event.kind != MouseEventKind::Up(MouseButton::Left) ==> mouse_effects(
            event,
            c,
        ).0.len() == 0,
{
}

/// Typing a digit puts it behind the count: the count so far without its last digit is what it was,
/// and its last digit is the one typed. It starts with a digit that is not zero and that the keymap
/// has no use for; then it goes on whatever the keymap has. Only a count beyond a hundred million is
/// not taken.
pub proof fn law_digits_are_put_behind_the_count(event: KeyEvent, ch: char, count: Option<usize>, bound: bool)
    requires
        event.code == KeyCode::Char(ch),
        !event.modifiers.shift && !event.modifiers.control && !event.modifiers.alt
            && !event.modifiers.command,
        '0' <= ch <= '9',
        count matches Some(c) ==> 0 < c <= 100_000_000,
    ensures
        count matches Some(c) ==> match count_step(event, count, bound) {
            CountStep::SetCount(n) => n / 10 == c && n % 10 == ch as u32 - '0' as u32 && n
                <= 100_000_000,
            CountStep::Keep => c > 9_999_999,
            CountStep::Dispatch => false,
        },
        count is None && ch != '0' && !bound ==> (count_step(event, count, bound) matches
            CountStep::SetCount(n) && n == ch as u32 - '0' as u32),
        count is None && (ch == '0' || bound) ==> count_step(event, count, bound)
            == CountStep::Dispatch,
{
}

/// A key that is no digit, or comes with a modifier, goes to the keymap whatever the count.
pub proof fn law_other_keys_go_to_the_keymap(event: KeyEvent, count: Option<usize>, bound: bool)
    requires
        !(event.code is Char) || event.modifiers.control || event.modifiers.alt || event.modifiers.shift
            || event.modifiers.command || !('0' <= event.code->Char_0 <= '9'),
    ensures
        count_step(event, count, bound) == CountStep::Dispatch,
{
}

/// Looking a key up the same way however it is typed: only Shift is dropped, and only for a
/// character. Doing so again changes nothing.
pub proof fn law_canonical_keys(key: KeyEvent)
    ensures
        canonical(key).code == key.code,
        canonical(key).modifiers.control == key.modifiers.control,
        canonical(key).modifiers.alt == key.modifiers.alt,
        canonical(key).modifiers.command == key.modifiers.command,
        key.code is Char ==> !canonical(key).modifiers.shift,
        !(key.code is Char) ==> canonical(key) == key,
        canonical(canonical(key)) == canonical(key),
{
}

/// Only what the keymap knows is run, and only what it does not know, or gave up, counts as unused.
/// The keys that can follow are shown exactly while it waits for more.
pub proof fn law_keymap_results(result: KeymapResult)
    ensures
        keymap_step(result).hints == Hints::Following <==> result == KeymapResult::Pending,
        keymap_step(result).unused is Some <==> result == KeymapResult::NotFound || result
            == KeymapResult::Cancelled,
        keymap_step(result).unused matches Some(r) ==> r == result && keymap_step(result).commands
            == 0,
        result == KeymapResult::Matched ==> keymap_step(result).commands == 1,
        result matches KeymapResult::MatchedSequence(n) ==> keymap_step(result).commands == n,
        result == KeymapResult::Pending ==> keymap_step(result).commands == 0,
{
}

/// The switches of mode form a chain from the mode before all commands to the one after them: each
/// starts where the one before it ended, and none leads to the mode that it comes from. Without a
/// switch the mode is what it was.
pub proof fn law_mode_switches_form_a_chain(start: Mode, after: Seq<Mode>, n: int)
    requires
        0 <= n <= after.len(),
    ensures
        ({
            let s = switches(start, after, n);
            let end = if n == 0 {
                start
            } else {
                after[n - 1]
            };
            &&& s.len() == 0 ==> start == end
            &&& s.len() > 0 ==> s[0].0 == start && s.last().1 == end
            &&& forall|i: int| 0 <= i < s.len() ==> (#[trigger] s[i]).0 != s[i].1
            &&& forall|i: int| 0 < i < s.len() ==> (#[trigger] s[i]).0 == s[i - 1].1
            &&& s.len() <= n
        }),
    decreases n,
{
    if n > 0 {
        law_mode_switches_form_a_chain(start, after, n - 1);
    }
}

/// The texts of keys are put together without anything between them.
pub proof fn law_pending_keys_are_put_together(v: Seq<Seq<char>>)
    ensures
        all_texts(v) == v.flatten(),
    decreases v.len(),
{
    if v.len() > 0 {
        law_pending_keys_are_put_together(v.drop_last());
        v.drop_last().lemma_flatten_push(v.last());
        assert(v.drop_last().push(v.last()) =~= v);
    } else {
        assert(v.flatten() =~= Seq::empty());
    }
}

/// How the handling of a key ends.
pub open spec fn key_end(should_close: bool, mode: Mode, callbacks: usize) -> KeyFinish {
    if should_close {
        KeyFinish {
            result: EventResult::Ignored,
            ensure_cursor: false,
            append_history: false,
            run_callbacks: false,
        }
    } else {
        KeyFinish {
            result: EventResult::Consumed,
            ensure_cursor: true,
            append_history: mode != Mode::Normal,
            run_callbacks: callbacks > 0,
        }
    }
}

/// The keys that are noted after a key whose command left `callback` to wait for the next one.
pub open spec fn keys_noted(
    noted: Seq<KeyEvent>,
    key: KeyEvent,
    callback: Option<OnKeyCallbackKind>,
) -> Seq<KeyEvent> {
    if callback == Some(OnKeyCallbackKind::PseudoPending) {
        noted.push(key)
    } else {
        Seq::empty()
    }
}

/// A key is used up and the cursor kept in sight, unless the last view was closed with it: nothing at
/// all is done then. In normal mode nothing is added to the history; callbacks are run if there are any.
pub proof fn law_end_of_a_key(should_close: bool, mode: Mode, callbacks: usize)
    ensures
        key_end(should_close, mode, callbacks).result == EventResult::Ignored <==> should_close,
        key_end(should_close, mode, callbacks).result == EventResult::Consumed <==> !should_close,
        key_end(should_close, mode, callbacks).ensure_cursor == !should_close,
        key_end(should_close, mode, callbacks).append_history <==> !should_close && mode == Mode::Select,
        key_end(should_close, mode, callbacks).run_callbacks <==> !should_close && callbacks > 0,
{
}

/// Keys are noted as long as each one waits for another one; the last key is at the end of them.
pub proof fn law_waiting_keys_are_noted(
    noted: Seq<KeyEvent>,
    key: KeyEvent,
    callback: Option<OnKeyCallbackKind>,
)
    ensures
        callback == Some(OnKeyCallbackKind::PseudoPending) ==> {
            &&& keys_noted(noted, key, callback).len() == noted.len() + 1
            &&& keys_noted(noted, key, callback).last() == key
            &&& keys_noted(noted, key, callback).drop_last() == noted
        },
        callback != Some(OnKeyCallbackKind::PseudoPending) ==> keys_noted(noted, key, callback).len() == 0,
{
    assert(noted.push(key).drop_last() =~= noted);
}

} // verus!
