//! Handing text to the system clipboard.
use crate::strings::texts;
use vstd::prelude::*;
use vstd::string::*;

verus! {

/// Which of the two clipboards is meant.
#[derive(Debug, Clone, Copy, PartialEq, Eq, Structural)]
pub enum ClipboardType {
    Clipboard,
    Selection,
}

/// Why text could not be handed over.
#[derive(Debug)]
pub enum ClipboardError {
    /// Reading or writing failed, for the given reason.
    IoError(String),
    /// The system's own clipboard refused, with its error code.
    WinAPI(u32),
    CommandFailed,
    StdinWriteFailed,
}

/// A program with its arguments.
#[derive(Debug)]
pub struct Command {
    pub command: String,
    pub args: Vec<String>,
}

/// The program and its arguments, as texts.
pub type CommandView = (Seq<char>, Seq<Seq<char>>);

impl View for Command {
    type V = CommandView;

    open spec fn view(&self) -> CommandView {
        (self.command@, texts(self.args@))
    }
}

impl Clone for Command {
    fn clone(&self) -> (r: Self)
        ensures
            r@ == self@,
    {
        Command {
            command: self.command.clone(),
            args: crate::strings::clone_strings(&self.args),
        }
    }
}

/// The programs that take text for the two clipboards.
#[derive(Debug)]
pub struct CommandProvider {
    pub paste: Command,
    pub paste_primary: Option<Command>,
}

/// The two programs, as texts.
pub type ProviderView = (CommandView, Option<CommandView>);

/// The text of an optional command.
pub open spec fn command_opt(c: Option<Command>) -> Option<CommandView> {
    match c {
        Some(c) => Some(c@),
        None => None,
    }
}

impl View for CommandProvider {
    type V = ProviderView;

    open spec fn view(&self) -> ProviderView {
        (self.paste@, command_opt(self.paste_primary))
    }
}

/// Ways to reach the clipboard.
#[derive(Debug)]
pub enum ClipboardProvider {
    Pasteboard,
    Wayland,
    XClip,
    XSel,
    Win32Yank,
    Tmux,
    /// The clipboard of the Windows API.
    Windows,
    Termux,
    /// An escape sequence to the terminal.
    Termcode,
    Custom(CommandProvider),
    /// No clipboard at all.
    Off,
}

/// What the environment offers; each field tells whether a variable is set or a program exists.
#[derive(Debug, Clone, Copy)]
pub struct ClipboardEnv {
    pub windows: bool,
    pub macos: bool,
    pub wayland_display: bool,
    pub display: bool,
    pub tmux_running: bool,
    pub wl_copy: bool,
    pub xclip: bool,
    pub xsel: bool,
    pub termux_clipboard_set: bool,
    pub tmux: bool,
    pub win32yank: bool,
    pub pbcopy: bool,
}

/// The programs of the built-in providers.
pub open spec fn builtin_of(provider: ClipboardProvider) -> Option<ProviderView> {
    match provider {
        ClipboardProvider::Tmux => Some(
            (("tmux"@, seq!["load-buffer"@, "-w"@, "-"@]), None),
        ),
        ClipboardProvider::Pasteboard => Some((("pbcopy"@, Seq::empty()), None)),
        ClipboardProvider::Wayland => Some(
            (
                ("wl-copy"@, seq!["--type"@, "text/plain"@]),
                Some(("wl-copy"@, seq!["-p"@, "--type"@, "text/plain"@])),
            ),
        ),
        ClipboardProvider::XClip => Some(
            (
                ("xclip"@, seq!["-i"@, "-selection"@, "clipboard"@]),
                Some(("xclip"@, seq!["-i"@])),
            ),
        ),
        ClipboardProvider::XSel => Some(
            (("xsel"@, seq!["-i"@, "-b"@]), Some(("xsel"@, seq!["-i"@]))),
        ),
        ClipboardProvider::Win32Yank => Some(
            (("win32yank.exe"@, seq!["-i"@, "--crlf"@]), None),
        ),
        ClipboardProvider::Termux => Some((("termux-clipboard-set"@, Seq::empty()), None)),
        _ => None,
    }
}

fn command(program: &str, args: Vec<&str>) -> (r: Command)
    ensures
        r@ == (program@, args@.map_values(|s: &str| s@)),
{
    let mut list: Vec<String> = Vec::new();
    let mut i: usize = 0;
    while i < args.len()
        invariant
            i <= args@.len(),
            list@.len() == i,
            forall|k: int| 0 <= k < i ==> (#[trigger] list@[k])@ == args@[k]@,
        decreases args@.len() - i,
    {
        list.push(args[i].to_owned());
        i = i + 1;
    }
    assert(texts(list@) =~= args@.map_values(|s: &str| s@));
    Command { command: program.to_owned(), args: list }
}

/// What is to be done to hand text over.
#[derive(Debug)]
pub enum ClipboardAction {
    /// There is nothing to do.
    Nothing,
    /// Run the program with the text as its input.
    Run(Command),
    /// Use the clipboard of the Windows API.
    WindowsApi,
    /// Print this to the terminal.
    Print(String),
}

/// An action, with its texts.
pub enum ActionView {
    Nothing,
    Run(CommandView),
    WindowsApi,
    Print(Seq<char>),
}

impl View for ClipboardAction {
    type V = ActionView;

    open spec fn view(&self) -> ActionView {
        match self {
            ClipboardAction::Nothing => ActionView::Nothing,
            ClipboardAction::Run(c) => ActionView::Run(c@),
            ClipboardAction::WindowsApi => ActionView::WindowsApi,
            ClipboardAction::Print(s) => ActionView::Print(s@),
        }
    }
}

/// The character of a base64 digit.
pub open spec fn base64_char(d: int) -> char {
    if d < 26 {
        (65 + d) as char
    } else if d < 52 {
        (71 + d) as char
    } else if d < 62 {
        (d - 4) as char
    } else if d == 62 {
        '+'
    } else {
        '/'
    }
}

/// The four characters for up to three bytes, starting at `i`.
pub open spec fn base64_group(b: Seq<u8>, i: int) -> Seq<char> {
    let n = b[i] * 65536 + (if i + 1 < b.len() {
        b[i + 1] * 256
    } else {
        0
    }) + (if i + 2 < b.len() {
        b[i + 2] as int
    } else {
        0
    });
    seq![
        base64_char(n / 262144),
        base64_char(n / 4096 % 64),
        if i + 1 < b.len() {
            base64_char(n / 64 % 64)
        } else {
            '='
        },
        if i + 2 < b.len() {
            base64_char(n % 64)
        } else {
            '='
        },
    ]
}

/// The base64 text of the bytes from `i` on.
pub open spec fn base64_from(b: Seq<u8>, i: int) -> Seq<char>
    decreases b.len() + 3 - i,
{
    if i >= b.len() {
        Seq::empty()
    } else {
        base64_group(b, i) + base64_from(b, i + 3)
    }
}

fn base64_digit(d: u32) -> (c: char)
    requires
        d < 64,
    ensures
        c == base64_char(d as int),
{
    if d < 26 {
        (65u8 + d as u8) as char
    } else if d < 52 {
        (71u8 + d as u8) as char
    } else if d < 62 {
        (d as u8 - 4u8) as char
    } else if d == 62 {
        '+'
    } else {
        '/'
    }
}

/// Encodes bytes in base64.
pub fn simple_base64_encode(input: &[u8]) -> (r: String)
    requires
        input@.len() + 3 <= usize::MAX,
    ensures
        r@ == base64_from(input@, 0),
{
    let mut s = String::new();
    let mut i: usize = 0;
    assert(s@ + base64_from(input@, 0) =~= base64_from(input@, 0));
    while i < input.len()
        invariant
            input@.len() + 3 <= usize::MAX,
            i <= input@.len() + 2,
            s@ + base64_from(input@, i as int) == base64_from(input@, 0),
        decreases input@.len() + 3 - i,
    {
        let ghost before = s@;
        let len: usize = input.len();
        let b1: u32 = if i + 1 < len {
            input[i + 1] as u32
        } else {
            0
        };
        let b2: u32 = if i + 2 < len {
            input[i + 2] as u32
        } else {
            0
        };
        let n: u32 = input[i] as u32 * 65536 + b1 * 256 + b2;
        s.push(base64_digit(n / 262144));
        s.push(base64_digit(n / 4096 % 64));
        if i + 1 < len {
            s.push(base64_digit(n / 64 % 64));
        } else {
            s.push('=');
        }
        if i + 2 < len {
            s.push(base64_digit(n % 64));
        } else {
            s.push('=');
        }
        assert(s@ =~= before + base64_group(input@, i as int));
        assert(s@ + base64_from(input@, i + 3) =~= before + base64_from(input@, i as int));
        i = i + 3;
    }
    assert(s@ =~= base64_from(input@, 0));
    s
}

/// The value of a base64 character.
pub open spec fn base64_value(c: char) -> int {
    let u = c as int;
    if 65 <= u <= 90 {
        u - 65
    } else if 97 <= u <= 122 {
        u - 71
    } else if 48 <= u <= 57 {
        u + 4
    } else if c == '+' {
        62
    } else {
        63
    }
}

/// The bytes of four base64 characters.
pub open spec fn base64_bytes(s: Seq<char>) -> Seq<u8> {
    let n = base64_value(s[0]) * 262144 + base64_value(s[1]) * 4096 + (if s[2] == '=' {
        0
    } else {
        base64_value(s[2]) * 64
    }) + (if s[3] == '=' {
        0
    } else {
        base64_value(s[3])
    });
    if s[2] == '=' {
        seq![(n / 65536) as u8]
    } else if s[3] == '=' {
        seq![(n / 65536) as u8, (n / 256 % 256) as u8]
    } else {
        seq![(n / 65536) as u8, (n / 256 % 256) as u8, (n % 256) as u8]
    }
}

/// The bytes that a base64 text stands for.
pub open spec fn base64_decoded(s: Seq<char>) -> Seq<u8>
    decreases s.len(),
{
    if s.len() < 4 {
        Seq::empty()
    } else {
        base64_bytes(s.take(4)) + base64_decoded(s.skip(4))
    }
}

proof fn lemma_base64_char(d: int)
    requires
        0 <= d < 64,
    ensures
        base64_value(base64_char(d)) == d,
        base64_char(d) != '=',
{
}

proof fn lemma_base64_digits(x: u32, y: u32, z: u32)
    requires
        x < 256,
        y < 256,
        z < 256,
    ensures
        ({
            let n = x * 65536 + y * 256 + z;
            &&& 0 <= n / 262144 < 64
            &&& n == n / 262144 * 262144 + n / 4096 % 64 * 4096 + n / 64 % 64 * 64 + n % 64
            &&& n / 65536 == x
            &&& n / 256 % 256 == y
            &&& n % 256 == z
            &&& z == 0 && y == 0 ==> n / 64 % 64 == 0
            &&& z == 0 ==> n % 64 == 0
        }),
{
    let n: u32 = (x * 65536 + y * 256 + z) as u32;
    assert(n < 0x100_0000 ==> n == n / 262144 * 262144 + n / 4096 % 64 * 4096 + n / 64 % 64 * 64
        + n % 64) by (bit_vector);
    assert(n < 0x100_0000 && n / 262144 < 64 && n / 65536 == x && n / 256 % 256 == y && n % 256 == z && (z
        == 0 && y == 0 ==> n / 64 % 64 == 0) && (z == 0 ==> n % 64 == 0)) by (bit_vector)
        requires
            x < 256,
            y < 256,
            z < 256,
            n == x * 65536 + y * 256 + z,
    ;
}

proof fn lemma_base64_group(b: Seq<u8>, i: int)
    requires
        0 <= i < b.len(),
    ensures
        base64_bytes(base64_group(b, i)) == b.subrange(
            i,
            if i + 3 <= b.len() {
                i + 3
            } else {
                b.len() as int
            },
        ),
{
    let b1 = if i + 1 < b.len() {
        b[i + 1] as int
    } else {
        0
    };
    let b2 = if i + 2 < b.len() {
        b[i + 2] as int
    } else {
        0
    };
    let n = b[i] * 65536 + b1 * 256 + b2;
    lemma_base64_digits(b[i] as u32, b1 as u32, b2 as u32);
    lemma_base64_char(n / 262144);
    lemma_base64_char(n / 4096 % 64);
    lemma_base64_char(n / 64 % 64);
    lemma_base64_char(n % 64);
    assert(base64_bytes(base64_group(b, i)) =~= b.subrange(
        i,
        if i + 3 <= b.len() {
            i + 3
        } else {
            b.len() as int
        },
    ));
}

proof fn lemma_base64_from(b: Seq<u8>, i: int)
    requires
        0 <= i <= b.len() + 2,
    ensures
        base64_decoded(base64_from(b, i)) == if i <= b.len() {
            b.skip(i)
        } else {
            Seq::empty()
        },
    decreases b.len() + 3 - i,
{
    if i < b.len() {
        lemma_base64_from(b, i + 3);
        let s = base64_from(b, i);
        let g = base64_group(b, i);
        assert(s.take(4) =~= g);
        assert(s.skip(4) =~= base64_from(b, i + 3));
        lemma_base64_group(b, i);
        assert(base64_decoded(s) =~= b.skip(i));
    } else if i <= b.len() {
        assert(b.skip(i) =~= Seq::empty());
    }
}

/// Decoding a base64 text gives the encoded bytes back.
pub proof fn law_base64_round_trip(b: Seq<u8>)
    ensures
        base64_decoded(base64_from(b, 0)) == b,
{
    lemma_base64_from(b, 0);
    assert(b.skip(0) =~= b);
}

/// The escape sequence that sets a clipboard of the terminal.
pub open spec fn osc52(content: Seq<u8>, kind: ClipboardType) -> Seq<char> {
    "\x1b]52;"@ + (match kind {
        ClipboardType::Clipboard => "c"@,
        ClipboardType::Selection => "p"@,
    }) + ";"@ + base64_from(content, 0) + "\x07"@
}

/// What is to be done with a pair of programs.
pub open spec fn run_for(provider: ProviderView, kind: ClipboardType) -> ActionView {
    match kind {
        ClipboardType::Clipboard => ActionView::Run(provider.0),
        ClipboardType::Selection => match provider.1 {
            Some(c) => ActionView::Run(c),
            None => ActionView::Nothing,
        },
    }
}

/// What is to be done to hand `content` over.
pub open spec fn action_for(
    provider: ClipboardProvider,
    content: Seq<u8>,
    kind: ClipboardType,
) -> ActionView {
    match provider {
        ClipboardProvider::Windows => match kind {
            ClipboardType::Clipboard => ActionView::WindowsApi,
            ClipboardType::Selection => ActionView::Nothing,
        },
        ClipboardProvider::Termcode => ActionView::Print(osc52(content, kind)),
        ClipboardProvider::Custom(c) => run_for(c@, kind),
        ClipboardProvider::Off => ActionView::Nothing,
        _ => run_for(builtin_of(provider)->0, kind),
    }
}

/// The name shown for a provider.
pub open spec fn provider_name(provider: ClipboardProvider) -> Seq<char> {
    match provider {
        ClipboardProvider::Windows => "windows"@,
        ClipboardProvider::Termcode => "termcode"@,
        ClipboardProvider::Custom(c) => "custom"@ + " ("@ + c.paste.command@ + ")"@,
        ClipboardProvider::Off => "none"@,
        ClipboardProvider::Pasteboard => "pasteboard"@ + " ("@ + "pbcopy"@ + ")"@,
        ClipboardProvider::Wayland => "wayland"@ + " ("@ + "wl-copy"@ + ")"@,
        ClipboardProvider::XClip => "x-clip"@ + " ("@ + "xclip"@ + ")"@,
        ClipboardProvider::XSel => "x-sel"@ + " ("@ + "xsel"@ + ")"@,
        ClipboardProvider::Win32Yank => "win32-yank"@ + " ("@ + "win32yank.exe"@ + ")"@,
        ClipboardProvider::Tmux => "tmux"@ + " ("@ + "tmux"@ + ")"@,
        ClipboardProvider::Termux => "termux"@ + " ("@ + "termux-clipboard-set"@ + ")"@,
    }
}

fn named_with(name: &str, program: &str) -> (r: String)
    ensures
        r@ == name@ + " ("@ + program@ + ")"@,
{
    let mut s = name.to_owned();
    s.append(" (");
    s.append(program);
    s.append(")");
    s
}

impl ClipboardProvider {
    /// The provider where no clipboard can be reached.
    pub fn detect() -> (r: Self)
        ensures
            r == ClipboardProvider::Off,
    {
        ClipboardProvider::Off
    }

    /// The provider to use unless another one is configured.
    pub fn from_env(env: ClipboardEnv) -> (r: Self)
        ensures
            r == provider_for(env),
    {
        if env.windows {
            if env.win32yank {
                return ClipboardProvider::Win32Yank;
            }
            return ClipboardProvider::Windows;
        }
        if env.macos {
            if env.tmux_running && env.tmux {
                return ClipboardProvider::Tmux;
            }
            if env.pbcopy {
                return ClipboardProvider::Pasteboard;
            }
            return ClipboardProvider::Termcode;
        }
        if env.wayland_display && env.wl_copy {
            ClipboardProvider::Wayland
        } else if env.display && env.xclip {
            ClipboardProvider::XClip
        } else if env.display && env.xsel {
            ClipboardProvider::XSel
        } else if env.termux_clipboard_set {
            ClipboardProvider::Termux
        } else if env.tmux_running && env.tmux {
            ClipboardProvider::Tmux
        } else if env.win32yank {
            ClipboardProvider::Win32Yank
        } else {
            ClipboardProvider::Termcode
        }
    }

    /// The name shown for the provider: that of the configuration, with the program it runs.
    pub fn name(&self) -> (r: String)
        ensures
            r@ == provider_name(*self),
    {
        match self {
            ClipboardProvider::Pasteboard => named_with("pasteboard", "pbcopy"),
            ClipboardProvider::Wayland => named_with("wayland", "wl-copy"),
            ClipboardProvider::XClip => named_with("x-clip", "xclip"),
            ClipboardProvider::XSel => named_with("x-sel", "xsel"),
            ClipboardProvider::Win32Yank => named_with("win32-yank", "win32yank.exe"),
            ClipboardProvider::Tmux => named_with("tmux", "tmux"),
            ClipboardProvider::Termux => named_with("termux", "termux-clipboard-set"),
            ClipboardProvider::Windows => "windows".to_owned(),
            ClipboardProvider::Termcode => "termcode".to_owned(),
            ClipboardProvider::Custom(c) => named_with("custom", c.paste.command.as_str()),
            ClipboardProvider::Off => "none".to_owned(),
        }
    }

    /// The programs of a built-in provider.
    fn builtin(&self) -> (r: Option<CommandProvider>)
        ensures
            match r {
                Some(p) => builtin_of(*self) == Some(p@),
                None => builtin_of(*self) is None,
            },
    {
        let (paste, paste_primary) = match self {
            ClipboardProvider::Tmux => (command("tmux", vec!["load-buffer", "-w", "-"]), None),
            ClipboardProvider::Pasteboard => (command("pbcopy", vec![]), None),
            ClipboardProvider::Wayland => (
                command("wl-copy", vec!["--type", "text/plain"]),
                Some(command("wl-copy", vec!["-p", "--type", "text/plain"])),
            ),
            ClipboardProvider::XClip => (
                command("xclip", vec!["-i", "-selection", "clipboard"]),
                Some(command("xclip", vec!["-i"])),
            ),
            ClipboardProvider::XSel => (
                command("xsel", vec!["-i", "-b"]),
                Some(command("xsel", vec!["-i"])),
            ),
            ClipboardProvider::Win32Yank => (command("win32yank.exe", vec!["-i", "--crlf"]), None),
            ClipboardProvider::Termux => (command("termux-clipboard-set", vec![]), None),
            _ => {
                return None;
            },
        };
        let r = CommandProvider { paste, paste_primary };
        assert(r@.0.1 =~= (builtin_of(*self)->0).0.1);
        assert(r@.1 is Some ==> (r@.1->0).1 =~= ((builtin_of(*self)->0).1->0).1);
        Some(r)
    }

    /// What is to be done to hand `content` to a clipboard.
    pub fn set_contents(&self, content: &str, clipboard_type: ClipboardType) -> (r: ClipboardAction)
        requires
            content.spec_bytes().len() + 3 <= usize::MAX,
        ensures
            r@ == action_for(*self, content.spec_bytes(), clipboard_type),
    {
        match self {
            ClipboardProvider::Windows => match clipboard_type {
                ClipboardType::Clipboard => ClipboardAction::WindowsApi,
                ClipboardType::Selection => ClipboardAction::Nothing,
            },
            ClipboardProvider::Termcode => {
                let selection = match clipboard_type {
                    ClipboardType::Clipboard => "c",
                    ClipboardType::Selection => "p",
                };
                let encoded = simple_base64_encode(content.as_bytes());
                let mut s = "\x1b]52;".to_owned();
                s.append(selection);
                s.append(";");
                s.append(encoded.as_str());
                s.append("\x07");
                ClipboardAction::Print(s)
            },
            ClipboardProvider::Custom(provider) => match clipboard_type {
                ClipboardType::Clipboard => ClipboardAction::Run(provider.paste.clone()),
                ClipboardType::Selection => match &provider.paste_primary {
                    Some(c) => ClipboardAction::Run(c.clone()),
                    None => ClipboardAction::Nothing,
                },
            },
            ClipboardProvider::Off => ClipboardAction::Nothing,
            _ => match self.builtin() {
                Some(provider) => match clipboard_type {
                    ClipboardType::Clipboard => ClipboardAction::Run(provider.paste),
                    ClipboardType::Selection => match provider.paste_primary {
                        Some(c) => ClipboardAction::Run(c),
                        None => ClipboardAction::Nothing,
                    },
                },
                None => ClipboardAction::Nothing,
            },
        }
    }
}

/// How a program that took text for the clipboard ended.
#[derive(Debug)]
pub enum CommandOutcome {
    /// It could not be started or waited for.
    Failed(String),
    /// Its input could not be opened or written.
    StdinFailed,
    /// It ended; whether it reported success.
    Exited(bool),
}

/// What a run of a clipboard program amounts to.
pub fn execute_command(outcome: CommandOutcome) -> (r: Result<(), ClipboardError>)
    ensures
        match outcome {
            CommandOutcome::Failed(reason) => r matches Err(ClipboardError::IoError(e)) && e@
                == reason@,
            CommandOutcome::StdinFailed => r matches Err(ClipboardError::StdinWriteFailed),
            CommandOutcome::Exited(success) => if success {
                r is Ok
            } else {
                r matches Err(ClipboardError::CommandFailed)
            },
        },
{
    match outcome {
        CommandOutcome::Failed(reason) => Err(ClipboardError::IoError(reason)),
        CommandOutcome::StdinFailed => Err(ClipboardError::StdinWriteFailed),
        CommandOutcome::Exited(success) => if success {
            Ok(())
        } else {
            Err(ClipboardError::CommandFailed)
        },
    }
}

/// Whatever is put on the clipboard, each of the known programs is run in its own way; those that know
/// of no primary clipboard leave that one alone.
pub proof fn law_known_programs(content: Seq<u8>)
    ensures
        action_for(ClipboardProvider::Tmux, content, ClipboardType::Clipboard) == ActionView::Run(("tmux"@, seq!["load-buffer"@, "-w"@, "-"@])),
        action_for(ClipboardProvider::Tmux, content, ClipboardType::Selection) == ActionView::Nothing,
        action_for(ClipboardProvider::Pasteboard, content, ClipboardType::Clipboard) == ActionView::Run(("pbcopy"@, Seq::<Seq<char>>::empty())),
        action_for(ClipboardProvider::Pasteboard, content, ClipboardType::Selection) == ActionView::Nothing,
        action_for(ClipboardProvider::Wayland, content, ClipboardType::Clipboard) == ActionView::Run(("wl-copy"@, seq!["--type"@, "text/plain"@])),
        action_for(ClipboardProvider::Wayland, content, ClipboardType::Selection) == ActionView::Run(("wl-copy"@, seq!["-p"@, "--type"@, "text/plain"@])),
        action_for(ClipboardProvider::XClip, content, ClipboardType::Clipboard) == ActionView::Run(("xclip"@, seq!["-i"@, "-selection"@, "clipboard"@])),
        action_for(ClipboardProvider::XClip, content, ClipboardType::Selection) == ActionView::Run(("xclip"@, seq!["-i"@])),
        action_for(ClipboardProvider::XSel, content, ClipboardType::Clipboard) == ActionView::Run(("xsel"@, seq!["-i"@, "-b"@])),
        action_for(ClipboardProvider::XSel, content, ClipboardType::Selection) == ActionView::Run(("xsel"@, seq!["-i"@])),
        action_for(ClipboardProvider::Win32Yank, content, ClipboardType::Clipboard) == ActionView::Run(("win32yank.exe"@, seq!["-i"@, "--crlf"@])),
        action_for(ClipboardProvider::Win32Yank, content, ClipboardType::Selection) == ActionView::Nothing,
        action_for(ClipboardProvider::Termux, content, ClipboardType::Clipboard) == ActionView::Run(("termux-clipboard-set"@, Seq::<Seq<char>>::empty())),
        action_for(ClipboardProvider::Termux, content, ClipboardType::Selection) == ActionView::Nothing,
{
}

/// A provider of the user's own runs its own commands, and nothing for the primary clipboard if it has
/// no command for that; switched off, nothing is done; only the terminal is written to, and only on
/// Windows its interface is called.
pub proof fn law_clipboard_actions(provider: ClipboardProvider, content: Seq<u8>, kind: ClipboardType)
    ensures
        provider is Off ==> action_for(provider, content, kind) is Nothing,
        action_for(provider, content, kind) is WindowsApi <==> provider is Windows && kind
            == ClipboardType::Clipboard,
        action_for(provider, content, kind) is Print <==> provider is Termcode,
        provider matches ClipboardProvider::Custom(c) ==> {
            &&& action_for(provider, content, ClipboardType::Clipboard) == ActionView::Run(
                (c.paste.command@, texts(c.paste.args@)),
            )
            &&& c.paste_primary is None ==> action_for(provider, content, ClipboardType::Selection)
                is Nothing
            &&& c.paste_primary matches Some(p) ==> action_for(
                provider,
                content,
                ClipboardType::Selection,
            ) == ActionView::Run((p.command@, texts(p.args@)))
        },
{
}

/// What is written to the terminal names the clipboard that is meant and carries the whole content,
/// which decodes back to it; it is an escape sequence from beginning to end.
pub proof fn law_terminal_gets_the_content(content: Seq<u8>, kind: ClipboardType)
    ensures
        action_for(ClipboardProvider::Termcode, content, kind) matches ActionView::Print(s) && {
            &&& s.len() >= 8
            &&& s.take(5) == seq!['\x1b', ']', '5', '2', ';']
            &&& s[5] == 'c' <==> kind == ClipboardType::Clipboard
            &&& s[5] == 'p' <==> kind == ClipboardType::Selection
            &&& s[6] == ';'
            &&& s.last() == '\x07'
            &&& base64_decoded(s.subrange(7, s.len() - 1)) == content
        },
{
    reveal_strlit("\x1b]52;");
    reveal_strlit("c");
    reveal_strlit("p");
    reveal_strlit(";");
    reveal_strlit("\x07");
    let s = osc52(content, kind);
    assert(s.take(5) =~= seq!['\x1b', ']', '5', '2', ';']);
    assert(s.subrange(7, s.len() - 1) =~= base64_from(content, 0));
    law_base64_round_trip(content);
}

/// The name of a provider that runs a program tells which one.
pub proof fn law_provider_names_its_program(provider: ClipboardProvider, content: Seq<u8>)
    ensures
        action_for(provider, content, ClipboardType::Clipboard) matches ActionView::Run(command) ==> exists|
            label: Seq<char>,
        |
            provider_name(provider) == #[trigger] (label + " ("@) + command.0 + ")"@,
        provider is Off <==> provider_name(provider) == "none"@,
        provider is Windows <==> provider_name(provider) == "windows"@,
        provider is Termcode <==> provider_name(provider) == "termcode"@,
{
    reveal_strlit(" (");
    reveal_strlit(")");
    reveal_strlit("none");
    reveal_strlit("windows");
    reveal_strlit("termcode");
    let name = provider_name(provider);
    match provider {
        ClipboardProvider::Off => {},
        ClipboardProvider::Windows => {},
        ClipboardProvider::Termcode => {},
        _ => {
            assert(name.last() == ')');
        },
    }
    assert("none"@.last() == 'e');
    assert("windows"@.last() == 's');
    assert("termcode"@.last() == 'e');
    assert("none"@.len() != "termcode"@.len());
    if provider is Tmux {
        assert(name == "tmux"@ + " ("@ + "tmux"@ + ")"@);
    }
    if provider is Pasteboard {
        assert(name == "pasteboard"@ + " ("@ + "pbcopy"@ + ")"@);
    }
    if provider is Wayland {
        assert(name == "wayland"@ + " ("@ + "wl-copy"@ + ")"@);
    }
    if provider is XClip {
        assert(name == "x-clip"@ + " ("@ + "xclip"@ + ")"@);
    }
    if provider is XSel {
        assert(name == "x-sel"@ + " ("@ + "xsel"@ + ")"@);
    }
    if provider is Win32Yank {
        assert(name == "win32-yank"@ + " ("@ + "win32yank.exe"@ + ")"@);
    }
    if provider is Termux {
        assert(name == "termux"@ + " ("@ + "termux-clipboard-set"@ + ")"@);
    }
    if let ClipboardProvider::Custom(c) = provider {
        assert(name == "custom"@ + " ("@ + c.paste.command@ + ")"@);
    }
}

/// The provider that fits an environment.
pub open spec fn provider_for(env: ClipboardEnv) -> ClipboardProvider {
    if env.windows {
        if env.win32yank {
            ClipboardProvider::Win32Yank
        } else {
            ClipboardProvider::Windows
        }
    } else if env.macos {
        if env.tmux_running && env.tmux {
            ClipboardProvider::Tmux
        } else if env.pbcopy {
            ClipboardProvider::Pasteboard
        } else {
            ClipboardProvider::Termcode
        }
    } else if env.wayland_display && env.wl_copy {
        ClipboardProvider::Wayland
    } else if env.display && env.xclip {
        ClipboardProvider::XClip
    } else if env.display && env.xsel {
        ClipboardProvider::XSel
    } else if env.termux_clipboard_set {
        ClipboardProvider::Termux
    } else if env.tmux_running && env.tmux {
        ClipboardProvider::Tmux
    } else if env.win32yank {
        ClipboardProvider::Win32Yank
    } else {
        ClipboardProvider::Termcode
    }
}

/// A program is used only where it can be called and works: those of a display only with that display,
/// the multiplexer only within it, and those of a system only there. Where nothing fits, the terminal is
/// asked; Windows always has a clipboard.
pub proof fn law_provider_works_here(env: ClipboardEnv)
    ensures
        provider_for(env) is Wayland ==> env.wayland_display && env.wl_copy && !env.windows && !env.macos,
        provider_for(env) is XClip ==> env.display && env.xclip && !env.windows && !env.macos,
        provider_for(env) is XSel ==> env.display && env.xsel && !env.xclip && !env.windows && !env.macos,
        provider_for(env) is Tmux ==> env.tmux_running && env.tmux && !env.windows,
        provider_for(env) is Pasteboard ==> env.macos && env.pbcopy,
        provider_for(env) is Termux ==> env.termux_clipboard_set,
        provider_for(env) is Win32Yank ==> env.win32yank,
        provider_for(env) is Windows <==> env.windows && !env.win32yank,
        env.windows && env.win32yank ==> provider_for(env) is Win32Yank,
        !env.windows && env.macos && env.tmux_running && env.tmux ==> provider_for(env) is Tmux,
        !env.windows && env.macos && !(env.tmux_running && env.tmux) && env.pbcopy ==> provider_for(env)
            is Pasteboard,
        !env.windows && !env.macos && env.wayland_display && env.wl_copy ==> provider_for(env) is Wayland,
        !env.windows && !env.macos && !(env.wayland_display && env.wl_copy) && env.display && env.xclip
            ==> provider_for(env) is XClip,
        !env.windows && !env.macos && provider_for(env) is Termcode ==> !(env.wayland_display && env.wl_copy)
            && !(env.display && (env.xclip || env.xsel)) && !env.termux_clipboard_set && !(env.tmux_running
            && env.tmux) && !env.win32yank,
        !(provider_for(env) is Off) && !(provider_for(env) is Custom),
{
}

} // verus!
