//! Taking over the terminal and giving it back.
use crate::config::Config as EditorConfig;
use crate::graphics::Color;
use crate::graphics::CursorKind;
use crate::graphics::Rect;
use crate::strings::str_eq;
use crate::terminal_style::to_terminal;
use crate::terminal_style::TerminalColor;
use vstd::prelude::*;
use vstd::string::*;

verus! {

/// What the terminal is configured to do.
#[derive(Debug, Clone, Copy, PartialEq, Eq, Structural)]
pub struct Config {
    pub enable_mouse_capture: bool,
    pub force_enable_extended_underlines: bool,
}

impl Config {
    /// What an editor's configuration says about the terminal.
    pub fn from_editor(config: &EditorConfig) -> (r: Config)
        ensures
            r == (Config {
                enable_mouse_capture: config.mouse,
                force_enable_extended_underlines: config.undercurl,
            }),
    {
        Config {
            enable_mouse_capture: config.mouse,
            force_enable_extended_underlines: config.undercurl,
        }
    }
}

/// The name of the terminal program, for the values of `TERM_PROGRAM` and `TERM`.
pub fn term_program(program: Option<String>, term: Option<String>) -> (r: Option<String>)
    ensures
        r == match program {
            Some(p) => Some(p),
            None => term,
        },
{
    match program {
        Some(p) => Some(p),
        None => term,
    }
}

/// What the terminal's description says.
#[derive(Debug)]
pub struct TermInfo {
    /// The sequence that resets the cursor's style, `Se`.
    pub reset_style: Option<String>,
    /// The sequence that makes the cursor appear normal.
    pub cursor_normal: Option<String>,
    /// Whether there is a sequence for styled underlines, `Smulx`.
    pub smulx: bool,
    /// Whether underlines can be styled, `Su`.
    pub su: bool,
}

/// What the terminal can do.
#[derive(Debug)]
pub struct Capabilities {
    pub has_extended_underlines: bool,
    pub reset_cursor_command: String,
}

/// The sequence that resets the cursor in any terminal.
pub open spec fn plain_reset() -> Seq<char> {
    "\x1B[0 q"@
}

/// The sequence that resets the cursor in a terminal.
pub open spec fn reset_sequence(info: TermInfo) -> Seq<char> {
    (match info.reset_style {
        Some(s) => s@,
        None => Seq::empty(),
    }) + (match info.cursor_normal {
        Some(s) => s@,
        None => Seq::empty(),
    }) + plain_reset()
}

fn reset_cursor_approach(info: &TermInfo) -> (r: String)
    ensures
        r@ == reset_sequence(*info),
{
    let mut s = String::new();
    match &info.reset_style {
        Some(t) => {
            s.append(t.as_str());
        },
        None => {},
    }
    match &info.cursor_normal {
        Some(t) => {
            s.append(t.as_str());
        },
        None => {},
    }
    s.append("\x1B[0 q");
    assert(s@ =~= reset_sequence(*info));
    s
}

impl Default for Capabilities {
    fn default() -> (r: Self)
        ensures
            !r.has_extended_underlines,
            r.reset_cursor_command@ == plain_reset(),
    {
        Capabilities {
            has_extended_underlines: false,
            reset_cursor_command: "\x1B[0 q".to_owned(),
        }
    }
}

impl Capabilities {
    /// What a terminal can do, for its description, the version of the VTE library if it is based
    /// on it, and the name of its program.
    pub fn from_env_or_default(
        config: &Config,
        info: Option<&TermInfo>,
        vte_version: Option<usize>,
        program: Option<&str>,
    ) -> (r: Self)
        ensures
            r.has_extended_underlines == (config.force_enable_extended_underlines || (
            info matches Some(i) && (i.smulx || i.su || (vte_version matches Some(v) && v >= 5102)
                || (program matches Some(p) && p@ == "WezTerm"@)))),
            r.reset_cursor_command@ == match info {
                Some(i) => reset_sequence(*i),
                None => plain_reset(),
            },
    {
        match info {
            None => {
                let plain = Capabilities::default();
                Capabilities {
                    has_extended_underlines: config.force_enable_extended_underlines,
                    reset_cursor_command: plain.reset_cursor_command,
                }
            },
            Some(i) => {
                let recent_vte = match vte_version {
                    Some(v) => v >= 5102,
                    None => false,
                };
                let wezterm = match program {
                    Some(p) => str_eq(p, "WezTerm"),
                    None => false,
                };
                Capabilities {
                    has_extended_underlines: config.force_enable_extended_underlines || i.smulx
                        || i.su || recent_vte || wezterm,
                    reset_cursor_command: reset_cursor_approach(i),
                }
            },
        }
    }
}

/// What the terminal is told.
#[derive(Debug, Clone, Copy, PartialEq, Eq, Structural)]
pub enum TermCommand {
    EnableRawMode,
    DisableRawMode,
    EnterAlternateScreen,
    LeaveAlternateScreen,
    EnableFocusChange,
    DisableFocusChange,
    EnableBracketedPaste,
    DisableBracketedPaste,
    EnableMouseCapture,
    DisableMouseCapture,
    PushKeyboardEnhancement,
    PopKeyboardEnhancement,
    ClearAll,
    /// Write the sequence that resets the cursor.
    ResetCursor,
}

/// How the terminal took a command.
#[derive(Debug, Clone, Copy, PartialEq, Eq, Structural)]
pub enum Outcome {
    Done,
    Unsupported,
    Failed,
}

/// What the terminal is told about its cursor.
#[derive(Debug, Clone, Copy, PartialEq, Eq, Structural)]
pub enum CursorCommand {
    Hide,
    Show,
    /// Go to a column and a row.
    MoveTo(u16, u16),
    SteadyBlock,
    SteadyBar,
    SteadyUnderScore,
}

/// A terminal that is taken over and given back.
#[derive(Debug)]
pub struct HelixTerminal {
    pub config: Config,
    pub capabilities: Capabilities,
    pub mouse_capture_enabled: bool,
    pub supports_bracketed_paste: bool,
}

/// A list of zero or one commands.
pub open spec fn only_if(wanted: bool, command: TermCommand) -> Seq<TermCommand> {
    if wanted {
        seq![command]
    } else {
        Seq::empty()
    }
}

/// What a terminal is told to take it over; `keyboard` tells whether it can report keys in more
/// detail.
pub open spec fn claim_list(config: Config, keyboard: bool) -> Seq<TermCommand> {
    seq![
        TermCommand::EnableRawMode,
        TermCommand::EnterAlternateScreen,
        TermCommand::EnableFocusChange,
        TermCommand::EnableBracketedPaste,
        TermCommand::ClearAll,
    ] + only_if(config.enable_mouse_capture, TermCommand::EnableMouseCapture) + only_if(
        keyboard,
        TermCommand::PushKeyboardEnhancement,
    )
}

/// What a terminal is told to give it back.
pub open spec fn restore_list(config: Config, keyboard: bool, paste: bool) -> Seq<TermCommand> {
    seq![TermCommand::ResetCursor] + only_if(
        config.enable_mouse_capture,
        TermCommand::DisableMouseCapture,
    ) + only_if(keyboard, TermCommand::PopKeyboardEnhancement) + only_if(
        paste,
        TermCommand::DisableBracketedPaste,
    ) + seq![
        TermCommand::DisableFocusChange,
        TermCommand::LeaveAlternateScreen,
        TermCommand::DisableRawMode,
    ]
}

/// The command that undoes another one.
pub open spec fn undoing(command: TermCommand) -> Option<TermCommand> {
    match command {
        TermCommand::EnableRawMode => Some(TermCommand::DisableRawMode),
        TermCommand::EnterAlternateScreen => Some(TermCommand::LeaveAlternateScreen),
        TermCommand::EnableFocusChange => Some(TermCommand::DisableFocusChange),
        TermCommand::EnableBracketedPaste => Some(TermCommand::DisableBracketedPaste),
        TermCommand::EnableMouseCapture => Some(TermCommand::DisableMouseCapture),
        TermCommand::PushKeyboardEnhancement => Some(TermCommand::PopKeyboardEnhancement),
        _ => None,
    }
}

impl HelixTerminal {
    pub fn new(config: Config, capabilities: Capabilities) -> (r: Self)
        ensures
            r == (HelixTerminal {
                config,
                capabilities,
                mouse_capture_enabled: false,
                supports_bracketed_paste: true,
            }),
    {
        HelixTerminal {
            config,
            capabilities,
            mouse_capture_enabled: false,
            supports_bracketed_paste: true,
        }
    }

    /// What the terminal is told to take it over, one command after the other.
    pub fn claim(&self, keyboard: bool) -> (r: Vec<TermCommand>)
        ensures
            r@ == claim_list(self.config, keyboard),
    {
        let mut out = vec![
            TermCommand::EnableRawMode,
            TermCommand::EnterAlternateScreen,
            TermCommand::EnableFocusChange,
            TermCommand::EnableBracketedPaste,
            TermCommand::ClearAll,
        ];
        if self.config.enable_mouse_capture {
            out.push(TermCommand::EnableMouseCapture);
        }
        if keyboard {
            out.push(TermCommand::PushKeyboardEnhancement);
        }
        assert(out@ =~= claim_list(self.config, keyboard));
        out
    }

    /// Takes note of how the terminal took a command while it is taken over; tells whether to go
    /// on. That pasted text is not marked is no reason to stop.
    pub fn claimed(&mut self, command: TermCommand, outcome: Outcome) -> (r: bool)
        ensures
            r == (outcome == Outcome::Done || (outcome == Outcome::Unsupported && command
                == TermCommand::EnableBracketedPaste)),
            *final(self) == (HelixTerminal {
                supports_bracketed_paste: if command == TermCommand::EnableBracketedPaste && outcome
                    == Outcome::Unsupported {
                    false
                } else {
                    old(self).supports_bracketed_paste
                },
                mouse_capture_enabled: if command == TermCommand::EnableMouseCapture && outcome
                    == Outcome::Done {
                    true
                } else {
                    old(self).mouse_capture_enabled
                },
                ..*old(self)
            }),
    {
        match outcome {
            Outcome::Done => {
                if command == TermCommand::EnableMouseCapture {
                    self.mouse_capture_enabled = true;
                }
                true
            },
            Outcome::Unsupported => {
                if command == TermCommand::EnableBracketedPaste {
                    self.supports_bracketed_paste = false;
                    true
                } else {
                    false
                }
            },
            Outcome::Failed => false,
        }
    }

    /// What the terminal is told to give it back, one command after the other.
    pub fn restore(&self, keyboard: bool) -> (r: Vec<TermCommand>)
        ensures
            r@ == restore_list(self.config, keyboard, self.supports_bracketed_paste),
    {
        let mut out = vec![TermCommand::ResetCursor];
        if self.config.enable_mouse_capture {
            out.push(TermCommand::DisableMouseCapture);
        }
        if keyboard {
            out.push(TermCommand::PopKeyboardEnhancement);
        }
        if self.supports_bracketed_paste {
            out.push(TermCommand::DisableBracketedPaste);
        }
        out.push(TermCommand::DisableFocusChange);
        out.push(TermCommand::LeaveAlternateScreen);
        out.push(TermCommand::DisableRawMode);
        assert(out@ =~= restore_list(self.config, keyboard, self.supports_bracketed_paste));
        out
    }

    /// What the terminal is told before it gets another configuration.
    pub fn reconfigure_command(&self, config: &Config) -> (r: Option<TermCommand>)
        ensures
            r == if self.mouse_capture_enabled == config.enable_mouse_capture {
                None
            } else if config.enable_mouse_capture {
                Some(TermCommand::EnableMouseCapture)
            } else {
                Some(TermCommand::DisableMouseCapture)
            },
    {
        if self.mouse_capture_enabled != config.enable_mouse_capture {
            if config.enable_mouse_capture {
                Some(TermCommand::EnableMouseCapture)
            } else {
                Some(TermCommand::DisableMouseCapture)
            }
        } else {
            None
        }
    }

    /// Gives the terminal another configuration, after it was told what that needs.
    pub fn reconfigure(&mut self, config: Config)
        ensures
            *final(self) == (HelixTerminal {
                config,
                mouse_capture_enabled: config.enable_mouse_capture,
                ..*old(self)
            }),
    {
        self.mouse_capture_enabled = config.enable_mouse_capture;
        self.config = config;
    }

    /// Whether the theme is dark or light cannot be told.
    pub fn get_theme_mode(&self) -> (r: Option<crate::application::ThemeMode>)
        ensures
            r is None,
    {
        None
    }
}

/// The background that the terminal gets for a colour; without one its own.
pub fn set_background_color(color: Option<Color>) -> (r: TerminalColor)
    ensures
        r == match color {
            Some(c) => to_terminal(c),
            None => TerminalColor::Reset,
        },
{
    match color {
        Some(c) => TerminalColor::from(c),
        None => TerminalColor::Reset,
    }
}

/// The area of a terminal.
pub fn size(width: u16, height: u16) -> (r: Rect)
    ensures
        r == (Rect { x: 0, y: 0, width, height }),
{
    Rect::new(0, 0, width, height)
}

/// What the terminal is told about its cursor when a picture is done.
pub open spec fn cursor_list(pos: Option<(u16, u16)>, kind: CursorKind) -> Seq<CursorCommand> {
    if kind == CursorKind::Hidden {
        seq![CursorCommand::Hide]
    } else {
        (match pos {
            Some((col, row)) => seq![CursorCommand::Show, CursorCommand::MoveTo(col, row)],
            None => Seq::empty(),
        }).push(
            match kind {
                CursorKind::Block => CursorCommand::SteadyBlock,
                CursorKind::Bar => CursorCommand::SteadyBar,
                _ => CursorCommand::SteadyUnderScore,
            },
        )
    }
}

/// What the terminal is told about its cursor when a picture is done.
pub fn draw_cursor(pos: Option<(u16, u16)>, kind: CursorKind) -> (r: Vec<CursorCommand>)
    ensures
        r@ == cursor_list(pos, kind),
{
    let mut out: Vec<CursorCommand> = Vec::new();
    let style = match kind {
        CursorKind::Hidden => {
            out.push(CursorCommand::Hide);
            assert(out@ =~= cursor_list(pos, kind));
            return out;
        },
        CursorKind::Block => CursorCommand::SteadyBlock,
        CursorKind::Bar => CursorCommand::SteadyBar,
        CursorKind::Underline => CursorCommand::SteadyUnderScore,
    };
    match pos {
        Some((col, row)) => {
            out.push(CursorCommand::Show);
            out.push(CursorCommand::MoveTo(col, row));
        },
        None => {},
    }
    out.push(style);
    assert(out@ =~= cursor_list(pos, kind));
    out
}

proof fn lemma_in_restore(config: Config, keyboard: bool, paste: bool, command: TermCommand)
    requires
        match command {
            TermCommand::DisableMouseCapture => config.enable_mouse_capture,
            TermCommand::PopKeyboardEnhancement => keyboard,
            TermCommand::DisableBracketedPaste => paste,
            TermCommand::DisableFocusChange => true,
            TermCommand::LeaveAlternateScreen => true,
            TermCommand::DisableRawMode => true,
            _ => false,
        },
    ensures
        restore_list(config, keyboard, paste).contains(command),
{
    let list = restore_list(config, keyboard, paste);
    let mouse = only_if(config.enable_mouse_capture, TermCommand::DisableMouseCapture).len() as int;
    let keys = only_if(keyboard, TermCommand::PopKeyboardEnhancement).len() as int;
    let marks = only_if(paste, TermCommand::DisableBracketedPaste).len() as int;
    let at = match command {
        TermCommand::DisableMouseCapture => 1,
        TermCommand::PopKeyboardEnhancement => 1 + mouse,
        TermCommand::DisableBracketedPaste => 1 + mouse + keys,
        TermCommand::DisableFocusChange => 1 + mouse + keys + marks,
        TermCommand::LeaveAlternateScreen => 2 + mouse + keys + marks,
        _ => 3 + mouse + keys + marks,
    };
    assert(list[at] == command);
}

/// Giving the terminal back undoes all that was switched on to take it over, except that pasted
/// text is marked where that is not supported.
pub proof fn law_restore_undoes_claim(config: Config, keyboard: bool, paste: bool, command: TermCommand)
    requires
        claim_list(config, keyboard).contains(command),
        command == TermCommand::EnableBracketedPaste ==> paste,
    ensures
        undoing(command) matches Some(undo) ==> restore_list(config, keyboard, paste).contains(undo),
{
    let list = claim_list(config, keyboard);
    let k = choose|i: int| 0 <= i < list.len() && list[i] == command;
    if let Some(undo) = undoing(command) {
        if command == TermCommand::EnableMouseCapture {
            if !config.enable_mouse_capture {
                assert(list[k] != command);
            }
        }
        if command == TermCommand::PushKeyboardEnhancement {
            if !keyboard {
                assert(list[k] != command);
            }
        }
        lemma_in_restore(config, keyboard, paste, undo);
    }
}

/// Taking the terminal over begins with raw mode and ends with a clean screen before anything that is
/// optional; the mouse and the keyboard are asked for just if they are wanted.
pub proof fn law_terminal_is_taken_over(config: Config, keyboard: bool)
    ensures
        claim_list(config, keyboard)[0] == TermCommand::EnableRawMode,
        claim_list(config, keyboard)[1] == TermCommand::EnterAlternateScreen,
        claim_list(config, keyboard).contains(TermCommand::EnableFocusChange),
        claim_list(config, keyboard).contains(TermCommand::EnableBracketedPaste),
        claim_list(config, keyboard).contains(TermCommand::ClearAll),
        claim_list(config, keyboard).contains(TermCommand::EnableMouseCapture)
            <==> config.enable_mouse_capture,
        claim_list(config, keyboard).contains(TermCommand::PushKeyboardEnhancement) <==> keyboard,
        claim_list(config, keyboard).len() == 5 + (if config.enable_mouse_capture {
            1int
        } else {
            0
        }) + (if keyboard {
            1int
        } else {
            0
        }),
{
    let list = claim_list(config, keyboard);
    assert(list[2] == TermCommand::EnableFocusChange);
    assert(list[3] == TermCommand::EnableBracketedPaste);
    assert(list[4] == TermCommand::ClearAll);
    if config.enable_mouse_capture {
        assert(list[5] == TermCommand::EnableMouseCapture);
    }
    if keyboard {
        assert(list.last() == TermCommand::PushKeyboardEnhancement);
        assert(list[list.len() - 1] == TermCommand::PushKeyboardEnhancement);
    }
}

/// Giving the terminal back first resets the cursor and ends with leaving the screen and raw mode; what
/// was not asked for is not given back.
pub proof fn law_terminal_is_given_back(config: Config, keyboard: bool, paste: bool)
    ensures
        ({
            let list = restore_list(config, keyboard, paste);
            let n = list.len() as int;
            &&& list[0] == TermCommand::ResetCursor
            &&& list[n - 1] == TermCommand::DisableRawMode
            &&& list[n - 2] == TermCommand::LeaveAlternateScreen
            &&& list[n - 3] == TermCommand::DisableFocusChange
            &&& list.contains(TermCommand::DisableMouseCapture) <==> config.enable_mouse_capture
            &&& list.contains(TermCommand::PopKeyboardEnhancement) <==> keyboard
            &&& list.contains(TermCommand::DisableBracketedPaste) <==> paste
        }),
{
    if config.enable_mouse_capture {
        lemma_in_restore(config, keyboard, paste, TermCommand::DisableMouseCapture);
    }
    if keyboard {
        lemma_in_restore(config, keyboard, paste, TermCommand::PopKeyboardEnhancement);
    }
    if paste {
        lemma_in_restore(config, keyboard, paste, TermCommand::DisableBracketedPaste);
    }
}

/// A cursor that is hidden is hidden and nothing more. One that is not is shown where it is, if that is
/// known, and gets the shape of its kind.
pub proof fn law_cursor_is_put_and_shaped(pos: Option<(u16, u16)>, kind: CursorKind)
    ensures
        kind == CursorKind::Hidden <==> cursor_list(pos, kind).contains(CursorCommand::Hide),
        kind == CursorKind::Hidden ==> cursor_list(pos, kind).len() == 1,
        kind == CursorKind::Block ==> cursor_list(pos, kind).last() == CursorCommand::SteadyBlock,
        kind == CursorKind::Bar ==> cursor_list(pos, kind).last() == CursorCommand::SteadyBar,
        kind == CursorKind::Underline ==> cursor_list(pos, kind).last() == CursorCommand::SteadyUnderScore,
        kind != CursorKind::Hidden ==> (match pos {
            Some((col, row)) => {
                &&& cursor_list(pos, kind).len() == 3
                &&& cursor_list(pos, kind)[0] == CursorCommand::Show
                &&& cursor_list(pos, kind)[1] == CursorCommand::MoveTo(col, row)
            },
            None => cursor_list(pos, kind).len() == 1,
        }),
{
    if kind == CursorKind::Hidden {
        assert(cursor_list(pos, kind)[0] == CursorCommand::Hide);
    }
}

/// Whatever the terminal knows of its cursor, the reset ends with the sequence that every terminal
/// understands, and begins with the terminal's own ones.
pub proof fn law_reset_ends_plainly(info: TermInfo)
    ensures
        reset_sequence(info).len() >= 5,
        reset_sequence(info).skip(reset_sequence(info).len() - 5) == seq!['\x1B', '[', '0', ' ', 'q'],
        info.reset_style is None && info.cursor_normal is None ==> reset_sequence(info).len() == 5,
        info.reset_style matches Some(s) ==> s@ == reset_sequence(info).take(s@.len() as int),
        info.reset_style is None ==> (info.cursor_normal matches Some(s) ==> s@ == reset_sequence(
            info,
        ).take(s@.len() as int)),
        info.reset_style matches Some(a) ==> (info.cursor_normal matches Some(b) ==> reset_sequence(info)
            == a@ + b@ + plain_reset()),
{
    reveal_strlit("\x1B[0 q");
    let r = reset_sequence(info);
    assert(r.skip(r.len() - 5) =~= seq!['\x1B', '[', '0', ' ', 'q']);
    if let Some(s) = info.reset_style {
        assert(s@ =~= r.take(s@.len() as int));
    } else if let Some(s) = info.cursor_normal {
        assert(s@ =~= r.take(s@.len() as int));
    }
}

} // verus!
