//! The configuration of the viewer and its defaults.
use crate::clipboard::ClipboardProvider;
use crate::graphics::CursorKind;
use crate::strings::char_vec;
use crate::strings::str_eq;
use crate::strings::string_of;
use crate::strings::texts;
use vstd::prelude::*;
use vstd::string::*;

verus! {

/// What keys mean.
#[derive(Debug, Clone, Copy, PartialEq, Eq, Structural)]
pub enum Mode {
    Normal,
    Select,
}

/// How grave a diagnostic is.
#[derive(Debug, Clone, Copy, PartialEq, Eq, Structural)]
pub enum Severity {
    Hint,
    Info,
    Warning,
    Error,
}

/// Which diagnostics are shown.
#[derive(Debug, Clone, Copy, PartialEq, Eq, Structural)]
pub enum DiagnosticFilter {
    Disable,
    Enable(Severity),
}

/// The diagnostics that are shown below their lines.
#[derive(Debug, Clone, Copy, PartialEq, Eq, Structural)]
pub struct InlineDiagnosticsConfig {
    pub cursor_line: DiagnosticFilter,
    pub other_lines: DiagnosticFilter,
    pub min_diagnostic_width: u16,
    pub prefix_len: u16,
    pub max_wrap: u16,
    pub max_diagnostics: usize,
}

impl InlineDiagnosticsConfig {
    /// Whether none are shown, on any line.
    pub fn disabled(&self) -> (r: bool)
        ensures
            r == (self.cursor_line == DiagnosticFilter::Disable && self.other_lines
                == DiagnosticFilter::Disable),
    {
        self.cursor_line == DiagnosticFilter::Disable && self.other_lines
            == DiagnosticFilter::Disable
    }
}

/// How long lines are wrapped; what is left open has a default elsewhere.
#[derive(Debug)]
pub struct SoftWrap {
    pub enable: Option<bool>,
    pub max_wrap: Option<u16>,
    pub max_indent_retain: Option<u16>,
    pub wrap_indicator: Option<String>,
    pub wrap_at_text_width: Option<bool>,
}

/// How indentation is guessed.
#[derive(Debug, Clone, Copy, PartialEq, Eq, Structural)]
pub enum IndentationHeuristic {
    Simple,
    TreeSitter,
    Hybrid,
}

/// What ends a line.
#[derive(Debug, Clone, Copy, PartialEq, Eq, Structural)]
pub enum LineEnding {
    Crlf,
    LF,
}

/// What stands beside the text.
#[derive(Debug)]
pub struct GutterConfig {
    pub layout: Vec<GutterType>,
    pub line_numbers: GutterLineNumbersConfig,
}

/// The gutters shown unless others are configured.
pub open spec fn default_gutters() -> Seq<GutterType> {
    seq![
        GutterType::Diagnostics,
        GutterType::Spacer,
        GutterType::LineNumbers,
        GutterType::Spacer,
        GutterType::Diff,
    ]
}

impl Default for GutterConfig {
    fn default() -> (r: Self)
        ensures
            r.layout@ == default_gutters(),
            r.line_numbers.min_width == 3,
    {
        let layout = vec![
            GutterType::Diagnostics,
            GutterType::Spacer,
            GutterType::LineNumbers,
            GutterType::Spacer,
            GutterType::Diff,
        ];
        assert(layout@ =~= default_gutters());
        GutterConfig { layout, line_numbers: GutterLineNumbersConfig::default() }
    }
}

impl From<Vec<GutterType>> for GutterConfig {
    fn from(x: Vec<GutterType>) -> (r: Self) {
        GutterConfig { layout: x, line_numbers: GutterLineNumbersConfig { min_width: 3 } }
    }
}

impl vstd::std_specs::convert::FromSpecImpl<Vec<GutterType>> for GutterConfig {
    open spec fn obeys_from_spec() -> bool {
        true
    }

    open spec fn from_spec(x: Vec<GutterType>) -> GutterConfig {
        GutterConfig { layout: x, line_numbers: GutterLineNumbersConfig { min_width: 3 } }
    }
}

/// The lower-case form of a text.
pub uninterp spec fn lowercase_of(s: Seq<char>) -> Seq<char>;

/// The lower-case form of an ASCII character.
pub open spec fn ascii_lower(c: char) -> char {
    if 65 <= c as u32 <= 90 {
        (c as u32 + 32) as char
    } else {
        c
    }
}

/// `str::to_lowercase` of std, which depends on the text alone. ASCII letters become their
/// lower-case forms one by one; what becomes of other letters is not stated.
#[verifier::external_body]
fn to_lowercase(s: &str) -> (r: String)
    ensures
        r@ == lowercase_of(s@),
        (forall|i: int| 0 <= i < s@.len() ==> (#[trigger] s@[i]) as u32 <= 127) ==> r@
            == s@.map_values(|c: char| ascii_lower(c)),
{
    s.to_lowercase()
}

/// The gutter of a lower-case name.
pub open spec fn gutter_named(s: Seq<char>) -> Option<GutterType> {
    if s == "diagnostics"@ {
        Some(GutterType::Diagnostics)
    } else if s == "spacer"@ {
        Some(GutterType::Spacer)
    } else if s == "line-numbers"@ {
        Some(GutterType::LineNumbers)
    } else if s == "diff"@ {
        Some(GutterType::Diff)
    } else {
        None
    }
}

/// A column beside the text.
#[derive(Debug, Clone, Copy, PartialEq, Eq, Structural)]
pub enum GutterType {
    Diagnostics,
    LineNumbers,
    Spacer,
    Diff,
}

impl GutterType {
    /// Looks a gutter up by its lower-case name.
    pub fn from_lowercase(s: &str) -> (r: Option<GutterType>)
        ensures
            r == gutter_named(s@),
    {
        if str_eq(s, "diagnostics") {
            Some(GutterType::Diagnostics)
        } else if str_eq(s, "spacer") {
            Some(GutterType::Spacer)
        } else if str_eq(s, "line-numbers") {
            Some(GutterType::LineNumbers)
        } else if str_eq(s, "diff") {
            Some(GutterType::Diff)
        } else {
            None
        }
    }

    /// Looks a gutter up by its name, in any case.
    pub fn from_str(s: &str) -> (r: Result<GutterType, &'static str>)
        ensures
            match gutter_named(lowercase_of(s@)) {
                Some(g) => r == Ok::<GutterType, &'static str>(g),
                None => r matches Err(e) && e@
                    == "Gutter type can only be `diagnostics`, `spacer`, `line-numbers` or `diff`."@,
            },
    {
        match GutterType::from_lowercase(to_lowercase(s).as_str()) {
            Some(g) => Ok(g),
            None => Err(
                "Gutter type can only be `diagnostics`, `spacer`, `line-numbers` or `diff`.",
            ),
        }
    }
}

/// Whether all of the first `n` names are names of gutters.
pub open spec fn all_gutters(names: Seq<Seq<char>>, n: int) -> bool {
    forall|i: int| 0 <= i < n ==> gutter_named(lowercase_of(#[trigger] names[i])) is Some
}

/// The gutter configuration for a list of names, in any case; a name that is none is refused.
pub fn gutters_from_names(names: &Vec<String>) -> (r: Result<GutterConfig, &'static str>)
    ensures
        r is Ok <==> all_gutters(texts(names@), names@.len() as int),
        r matches Ok(g) ==> {
            &&& g.line_numbers.min_width == 3
            &&& g.layout@ == texts(names@).map_values(
                |s: Seq<char>| gutter_named(lowercase_of(s))->0,
            )
        },
        r matches Err(e) ==> e@
            == "Gutter type can only be `diagnostics`, `spacer`, `line-numbers` or `diff`."@,
{
    let mut layout: Vec<GutterType> = Vec::new();
    let mut i: usize = 0;
    while i < names.len()
        invariant
            i <= names@.len(),
            layout@.len() == i,
            all_gutters(texts(names@), i as int),
            forall|k: int|
                0 <= k < i ==> gutter_named(lowercase_of(texts(names@)[k])) == Some(
                    #[trigger] layout@[k],
                ),
        decreases names@.len() - i,
    {
        assert(texts(names@)[i as int] == names@[i as int]@);
        match GutterType::from_str(names[i].as_str()) {
            Ok(g) => {
                layout.push(g);
            },
            Err(e) => {
                return Err(e);
            },
        }
        i = i + 1;
    }
    assert(layout@ =~= texts(names@).map_values(
        |s: Seq<char>| gutter_named(lowercase_of(s))->0,
    ));
    Ok(GutterConfig::from(layout))
}

/// The column of line numbers.
#[derive(Debug, Clone, Copy, PartialEq, Eq, Structural)]
pub struct GutterLineNumbersConfig {
    /// The least number of characters to reserve.
    pub min_width: usize,
}

impl Default for GutterLineNumbersConfig {
    fn default() -> (r: Self)
        ensures
            r.min_width == 3,
    {
        GutterLineNumbersConfig { min_width: 3 }
    }
}

/// Which files the file picker lists.
#[derive(Debug, Clone, Copy, PartialEq, Eq, Structural)]
pub struct FilePickerConfig {
    /// Leave hidden files out.
    pub hidden: bool,
    /// Follow symbolic links.
    pub follow_symlinks: bool,
    /// Leave out links to files that are listed anyway.
    pub deduplicate_links: bool,
    /// Read ignore files of parent directories.
    pub parents: bool,
    /// Read `.ignore` files.
    pub ignore: bool,
    /// Read `.gitignore` files.
    pub git_ignore: bool,
    /// Read the user's global git ignore file.
    pub git_global: bool,
    /// Read `.git/info/exclude`.
    pub git_exclude: bool,
    /// How deep to descend.
    pub max_depth: Option<usize>,
}

impl Default for FilePickerConfig {
    fn default() -> (r: Self)
        ensures
            r == (FilePickerConfig {
                hidden: true,
                follow_symlinks: true,
                deduplicate_links: true,
                parents: true,
                ignore: true,
                git_ignore: true,
                git_global: true,
                git_exclude: true,
                max_depth: None,
            }),
    {
        FilePickerConfig {
            hidden: true,
            follow_symlinks: true,
            deduplicate_links: true,
            parents: true,
            ignore: true,
            git_ignore: true,
            git_global: true,
            git_exclude: true,
            max_depth: None,
        }
    }
}

/// Which files the file explorer lists.
#[derive(Debug, Clone, Copy, PartialEq, Eq, Structural)]
pub struct FileExplorerConfig {
    pub hidden: bool,
    pub follow_symlinks: bool,
    pub parents: bool,
    pub ignore: bool,
    pub git_ignore: bool,
    pub git_global: bool,
    pub git_exclude: bool,
    /// Show chains of directories with one entry as one line.
    pub flatten_dirs: bool,
}

impl Default for FileExplorerConfig {
    fn default() -> (r: Self)
        ensures
            r == (FileExplorerConfig {
                hidden: false,
                follow_symlinks: false,
                parents: false,
                ignore: false,
                git_ignore: false,
                git_global: false,
                git_exclude: false,
                flatten_dirs: true,
            }),
    {
        FileExplorerConfig {
            hidden: false,
            follow_symlinks: false,
            parents: false,
            ignore: false,
            git_ignore: false,
            git_global: false,
            git_exclude: false,
            flatten_dirs: true,
        }
    }
}

/// A duration in milliseconds as it is written: one that does not fit into 64 bits is an error.
pub fn serialize_duration_millis(millis: u128) -> (r: Result<u64, &'static str>)
    ensures
        match r {
            Ok(n) => n == millis,
            Err(e) => millis > u64::MAX && e@ == "duration value overflowed u64"@,
        },
{
    if millis <= u64::MAX as u128 {
        Ok(millis as u64)
    } else {
        Err("duration value overflowed u64")
    }
}

/// The text of an alphabet.
pub fn serialize_alphabet(alphabet: &[char]) -> (r: String)
    ensures
        r@ == alphabet@,
{
    let r = string_of(alphabet, 0, alphabet.len());
    assert(r@ =~= alphabet@);
    r
}

/// Reads an alphabet; no character may occur twice.
pub fn deserialize_alphabet(text: &str) -> (r: Result<Vec<char>, &'static str>)
    ensures
        text@.no_duplicates() ==> (r matches Ok(v) && v@ == text@),
        !text@.no_duplicates() ==> (r matches Err(e) && e@
            == "jump-label-alphabet must contain unique characters"@),
{
    let chars = char_vec(text);
    let mut i: usize = 0;
    while i < chars.len()
        invariant
            i <= chars@.len(),
            chars@ == text@,
            forall|a: int, b: int|
                0 <= a < i && 0 <= b < chars@.len() && a != b ==> chars@[a] != chars@[b],
        decreases chars@.len() - i,
    {
        let mut j: usize = i + 1;
        while j < chars.len()
            invariant
                i < j <= chars@.len(),
                chars@ == text@,
                forall|b: int| i < b < j ==> chars@[i as int] != chars@[b],
            decreases chars@.len() - j,
        {
            if chars[i] == chars[j] {
                return Err("jump-label-alphabet must contain unique characters");
            }
            j = j + 1;
        }
        i = i + 1;
    }
    Ok(chars)
}

/// Where the cursor of the buffer picker starts.
#[derive(Debug, Clone, Copy, PartialEq, Eq, Structural)]
pub enum PickerStartPosition {
    Current,
    Previous,
}

impl PickerStartPosition {
    #[must_use]
    pub fn is_previous(self) -> (r: bool)
        ensures
            r == (self is Previous),
    {
        matches!(self, PickerStartPosition::Previous)
    }

    #[must_use]
    pub fn is_current(self) -> (r: bool)
        ensures
            r == (self is Current),
    {
        matches!(self, PickerStartPosition::Current)
    }
}

impl Default for PickerStartPosition {
    fn default() -> (r: Self)
        ensures
            r is Current,
    {
        PickerStartPosition::Current
    }
}

/// The buffer picker.
#[derive(Debug, Clone, Copy, PartialEq, Eq, Structural)]
pub struct BufferPickerConfig {
    pub start_position: PickerStartPosition,
}

impl Default for BufferPickerConfig {
    fn default() -> (r: Self)
        ensures
            r.start_position is Current,
    {
        BufferPickerConfig { start_position: PickerStartPosition::Current }
    }
}

/// Whether the kitty keyboard protocol is used.
#[derive(Debug, Clone, Copy, PartialEq, Eq, Structural)]
pub enum KittyKeyboardProtocolConfig {
    Auto,
    Disabled,
    Enabled,
}

impl Default for KittyKeyboardProtocolConfig {
    fn default() -> (r: Self)
        ensures
            r is Auto,
    {
        KittyKeyboardProtocolConfig::Auto
    }
}

/// What the tab key does.
#[derive(Debug, Clone, Copy, PartialEq, Eq, Structural)]
pub struct SmartTabConfig {
    pub enable: bool,
    pub supersede_menu: bool,
}

impl Default for SmartTabConfig {
    fn default() -> (r: Self)
        ensures
            r == (SmartTabConfig { enable: true, supersede_menu: false }),
    {
        SmartTabConfig { enable: true, supersede_menu: false }
    }
}

/// The program that opens another terminal.
#[derive(Debug)]
pub struct TerminalConfig {
    pub command: String,
    pub args: Vec<String>,
}

impl Default for TerminalConfig {
    fn default() -> (r: Self)
        ensures
            r@ == (Seq::<char>::empty(), Seq::<Seq<char>>::empty()),
    {
        let r = TerminalConfig { command: String::new(), args: Vec::new() };
        assert(r@.1 =~= Seq::empty());
        r
    }
}

impl View for TerminalConfig {
    type V = (Seq<char>, Seq<Seq<char>>);

    open spec fn view(&self) -> (Seq<char>, Seq<Seq<char>>) {
        (self.command@, texts(self.args@))
    }
}

/// What the environment offers; each field tells whether a variable is set or a program exists.
#[derive(Debug, Clone, Copy)]
pub struct TerminalEnv {
    pub windows: bool,
    pub wt: bool,
    pub tmux_running: bool,
    pub tmux: bool,
    pub wezterm_socket: bool,
    pub wezterm: bool,
}

/// The program and arguments that open another terminal.
pub open spec fn terminal_for(env: TerminalEnv) -> Option<(Seq<char>, Seq<Seq<char>>)> {
    if env.windows {
        if env.wt {
            Some(("wt"@, seq!["new-tab"@, "--title"@, "DEBUG"@, "cmd"@, "/C"@]))
        } else {
            Some(("conhost"@, seq!["cmd"@, "/C"@]))
        }
    } else if env.tmux_running && env.tmux {
        Some(("tmux"@, seq!["split-window"@]))
    } else if env.wezterm_socket && env.wezterm {
        Some(("wezterm"@, seq!["cli"@, "split-pane"@]))
    } else {
        None
    }
}

fn owned(words: Vec<&str>) -> (r: Vec<String>)
    ensures
        texts(r@) == words@.map_values(|s: &str| s@),
{
    let mut list: Vec<String> = Vec::new();
    let mut i: usize = 0;
    while i < words.len()
        invariant
            i <= words@.len(),
            list@.len() == i,
            forall|k: int| 0 <= k < i ==> (#[trigger] list@[k])@ == words@[k]@,
        decreases words@.len() - i,
    {
        list.push(words[i].to_owned());
        i = i + 1;
    }
    assert(texts(list@) =~= words@.map_values(|s: &str| s@));
    list
}

/// The program that opens another terminal, if one is known.
pub fn get_terminal_provider(env: TerminalEnv) -> (r: Option<TerminalConfig>)
    ensures
        match r {
            Some(t) => terminal_for(env) == Some(t@),
            None => terminal_for(env) is None,
        },
{
    let (program, args) = if env.windows {
        if env.wt {
            ("wt", owned(vec!["new-tab", "--title", "DEBUG", "cmd", "/C"]))
        } else {
            ("conhost", owned(vec!["cmd", "/C"]))
        }
    } else if env.tmux_running && env.tmux {
        ("tmux", owned(vec!["split-window"]))
    } else if env.wezterm_socket && env.wezterm {
        ("wezterm", owned(vec!["cli", "split-pane"]))
    } else {
        return None;
    };
    let r = TerminalConfig { command: program.to_owned(), args };
    assert(r@.1 =~= (terminal_for(env)->0).1);
    Some(r)
}

/// What language servers are asked for and what is shown of them.
#[derive(Debug, Clone, Copy, PartialEq, Eq, Structural)]
pub struct LspConfig {
    pub enable: bool,
    pub display_progress_messages: bool,
    pub display_messages: bool,
    pub auto_signature_help: bool,
    pub display_signature_help_docs: bool,
    pub display_inlay_hints: bool,
    pub auto_document_highlight: bool,
    /// The greatest length of an inlay hint; not zero.
    pub inlay_hints_length_limit: Option<u8>,
    pub display_color_swatches: bool,
    pub goto_reference_include_declaration: bool,
}

impl LspConfig {
    /// The greatest length of an inlay hint is not zero.
    pub open spec fn wf(self) -> bool {
        self.inlay_hints_length_limit != Some(0u8)
    }
}

impl Default for LspConfig {
    fn default() -> (r: Self)
        ensures
            r.wf(),
            r == (LspConfig {
                enable: true,
                display_progress_messages: false,
                display_messages: true,
                auto_signature_help: true,
                display_signature_help_docs: true,
                display_inlay_hints: false,
                auto_document_highlight: false,
                inlay_hints_length_limit: None,
                goto_reference_include_declaration: true,
                display_color_swatches: true,
            }),
    {
        LspConfig {
            enable: true,
            display_progress_messages: false,
            display_messages: true,
            auto_signature_help: true,
            display_signature_help_docs: true,
            display_inlay_hints: false,
            auto_document_highlight: false,
            inlay_hints_length_limit: None,
            goto_reference_include_declaration: true,
            display_color_swatches: true,
        }
    }
}

/// How searches work.
#[derive(Debug, Clone, Copy, PartialEq, Eq, Structural)]
pub struct SearchConfig {
    pub smart_case: bool,
    pub wrap_around: bool,
}

impl Default for SearchConfig {
    fn default() -> (r: Self)
        ensures
            r == (SearchConfig { wrap_around: true, smart_case: true }),
    {
        SearchConfig { wrap_around: true, smart_case: true }
    }
}

/// A part of the status line.
#[derive(Debug, Clone, Copy, PartialEq, Eq, Structural)]
pub enum StatusLineElement {
    Mode,
    Spinner,
    FileBaseName,
    FileName,
    FileAbsolutePath,
    FileModificationIndicator,
    ReadOnlyIndicator,
    FileEncoding,
    FileLineEnding,
    FileIndentStyle,
    FileType,
    Diagnostics,
    WorkspaceDiagnostics,
    Selections,
    PrimarySelectionLength,
    Position,
    Separator,
    PositionPercentage,
    TotalLineNumbers,
    Spacer,
    VersionControl,
    GitWorktree,
    Register,
    CurrentWorkingDirectory,
}

/// The status line.
#[derive(Debug)]
pub struct StatusLineConfig {
    pub left: Vec<StatusLineElement>,
    pub center: Vec<StatusLineElement>,
    pub right: Vec<StatusLineElement>,
    pub separator: String,
    pub mode: ModeConfig,
    pub diagnostics: Vec<Severity>,
    pub workspace_diagnostics: Vec<Severity>,
}

impl StatusLineConfig {
    /// Whether this is the status line shown unless another one is configured.
    pub open spec fn is_default(self) -> bool {
        &&& self.left@ == seq![
            StatusLineElement::Mode,
            StatusLineElement::Spinner,
            StatusLineElement::GitWorktree,
            StatusLineElement::FileName,
            StatusLineElement::FileModificationIndicator,
        ]
        &&& self.center@ == Seq::<StatusLineElement>::empty()
        &&& self.right@ == seq![
            StatusLineElement::Diagnostics,
            StatusLineElement::Selections,
            StatusLineElement::Register,
            StatusLineElement::Position,
            StatusLineElement::FileEncoding,
        ]
        &&& self.separator@ == "│"@
        &&& self.mode.is_default()
        &&& self.diagnostics@ == seq![Severity::Warning, Severity::Error]
        &&& self.workspace_diagnostics@ == seq![Severity::Warning, Severity::Error]
    }
}

impl Default for StatusLineConfig {
    fn default() -> (r: Self)
        ensures
            r.is_default(),
    {
        let r = StatusLineConfig {
            left: vec![
                StatusLineElement::Mode,
                StatusLineElement::Spinner,
                StatusLineElement::GitWorktree,
                StatusLineElement::FileName,
                StatusLineElement::FileModificationIndicator,
            ],
            center: vec![],
            right: vec![
                StatusLineElement::Diagnostics,
                StatusLineElement::Selections,
                StatusLineElement::Register,
                StatusLineElement::Position,
                StatusLineElement::FileEncoding,
            ],
            separator: "│".to_owned(),
            mode: ModeConfig::default(),
            diagnostics: vec![Severity::Warning, Severity::Error],
            workspace_diagnostics: vec![Severity::Warning, Severity::Error],
        };
        assert(r.left@ =~= seq![
            StatusLineElement::Mode,
            StatusLineElement::Spinner,
            StatusLineElement::GitWorktree,
            StatusLineElement::FileName,
            StatusLineElement::FileModificationIndicator,
        ]);
        assert(r.center@ =~= Seq::empty());
        assert(r.right@ =~= seq![
            StatusLineElement::Diagnostics,
            StatusLineElement::Selections,
            StatusLineElement::Register,
            StatusLineElement::Position,
            StatusLineElement::FileEncoding,
        ]);
        assert(r.diagnostics@ =~= seq![Severity::Warning, Severity::Error]);
        assert(r.workspace_diagnostics@ =~= seq![Severity::Warning, Severity::Error]);
        r
    }
}

/// The names of the modes on the status line.
#[derive(Debug)]
pub struct ModeConfig {
    pub normal: String,
    pub insert: String,
    pub select: String,
}

impl ModeConfig {
    /// Whether these are the names shown unless others are configured.
    pub open spec fn is_default(self) -> bool {
        self.normal@ == "NOR"@ && self.insert@ == "INS"@ && self.select@ == "SEL"@
    }
}

impl Default for ModeConfig {
    fn default() -> (r: Self)
        ensures
            r.is_default(),
    {
        ModeConfig {
            normal: "NOR".to_owned(),
            insert: "INS".to_owned(),
            select: "SEL".to_owned(),
        }
    }
}

/// The cursor's shape in each mode: the normal one first.
#[derive(Debug, Clone, Copy)]
pub struct CursorShapeConfig {
    pub shapes: [CursorKind; 2],
}

impl CursorShapeConfig {
    /// The shape in a mode.
    pub open spec fn shape(self, mode: Mode) -> CursorKind {
        match mode {
            Mode::Normal => self.shapes[0],
            Mode::Select => self.shapes[1],
        }
    }

    /// The cursor's shape in a mode.
    pub fn from_mode(&self, mode: Mode) -> (r: CursorKind)
        ensures
            r == self.shape(mode),
    {
        match mode {
            Mode::Normal => self.shapes[0],
            Mode::Select => self.shapes[1],
        }
    }

    /// The shapes as configured; a mode without one has a block.
    pub fn from_shapes(normal: Option<CursorKind>, select: Option<CursorKind>) -> (r: Self)
        ensures
            r.shape(Mode::Normal) == match normal {
                Some(k) => k,
                None => CursorKind::Block,
            },
            r.shape(Mode::Select) == match select {
                Some(k) => k,
                None => CursorKind::Block,
            },
    {
        CursorShapeConfig {
            shapes: [
                match normal {
                    Some(k) => k,
                    None => CursorKind::Block,
                },
                match select {
                    Some(k) => k,
                    None => CursorKind::Block,
                },
            ],
        }
    }
}

impl Default for CursorShapeConfig {
    fn default() -> (r: Self)
        ensures
            forall|mode: Mode| #[trigger] r.shape(mode) == CursorKind::Block,
    {
        CursorShapeConfig::from_shapes(None, None)
    }
}

/// When the line of open buffers is shown.
#[derive(Debug, Clone, Copy, PartialEq, Eq, Structural)]
pub enum BufferLine {
    Never,
    Always,
    /// If there is more than one buffer.
    Multiple,
}

impl Default for BufferLine {
    fn default() -> (r: Self)
        ensures
            r is Never,
    {
        BufferLine::Never
    }
}

/// How lines are numbered.
#[derive(Debug, Clone, Copy, PartialEq, Eq, Structural)]
pub enum LineNumber {
    Absolute,
    Relative,
}

/// The numbering of a lower-case name.
pub open spec fn line_number_named(s: Seq<char>) -> Option<LineNumber> {
    if s == "absolute"@ || s == "abs"@ {
        Some(LineNumber::Absolute)
    } else if s == "relative"@ || s == "rel"@ {
        Some(LineNumber::Relative)
    } else {
        None
    }
}

impl LineNumber {
    /// Looks a numbering up by its lower-case name.
    pub fn from_lowercase(s: &str) -> (r: Option<LineNumber>)
        ensures
            r == line_number_named(s@),
    {
        if str_eq(s, "absolute") || str_eq(s, "abs") {
            Some(LineNumber::Absolute)
        } else if str_eq(s, "relative") || str_eq(s, "rel") {
            Some(LineNumber::Relative)
        } else {
            None
        }
    }

    /// Looks a numbering up by its name, in any case.
    pub fn from_str(s: &str) -> (r: Result<LineNumber, &'static str>)
        ensures
            match line_number_named(lowercase_of(s@)) {
                Some(n) => r == Ok::<LineNumber, &'static str>(n),
                None => r matches Err(e) && e@
                    == "Line number can only be `absolute` or `relative`."@,
            },
    {
        match LineNumber::from_lowercase(to_lowercase(s).as_str()) {
            Some(n) => Ok(n),
            None => Err("Line number can only be `absolute` or `relative`."),
        }
    }
}

/// How whitespace is shown.
#[derive(Debug, Clone, Copy, PartialEq, Eq, Structural)]
pub struct WhitespaceConfig {
    pub render: WhitespaceRender,
    pub characters: WhitespaceCharacters,
}

impl Default for WhitespaceConfig {
    fn default() -> (r: Self)
        ensures
            r.render == WhitespaceRender::Basic(WhitespaceRenderValue::Off),
            r.characters.is_default(),
    {
        WhitespaceConfig {
            render: WhitespaceRender::Basic(WhitespaceRenderValue::Off),
            characters: WhitespaceCharacters::default(),
        }
    }
}

/// Which whitespace is shown.
#[derive(Debug, Clone, Copy, PartialEq, Eq, Structural)]
pub enum WhitespaceRender {
    Basic(WhitespaceRenderValue),
    Specific {
        default: Option<WhitespaceRenderValue>,
        space: Option<WhitespaceRenderValue>,
        nbsp: Option<WhitespaceRenderValue>,
        nnbsp: Option<WhitespaceRenderValue>,
        tab: Option<WhitespaceRenderValue>,
        newline: Option<WhitespaceRenderValue>,
    },
}

/// Whether one kind of whitespace is shown.
#[derive(Debug, Clone, Copy, PartialEq, Eq, Structural)]
pub enum WhitespaceRenderValue {
    Off,
    All,
}

/// The value for one kind of whitespace: its own, else the common one, else off.
pub open spec fn own_or_default(
    own: Option<WhitespaceRenderValue>,
    default: Option<WhitespaceRenderValue>,
) -> WhitespaceRenderValue {
    match own {
        Some(v) => v,
        None => match default {
            Some(v) => v,
            None => WhitespaceRenderValue::Off,
        },
    }
}

fn choose_value(
    own: Option<WhitespaceRenderValue>,
    default: Option<WhitespaceRenderValue>,
) -> (r: WhitespaceRenderValue)
    ensures
        r == own_or_default(own, default),
{
    match own {
        Some(v) => v,
        None => match default {
            Some(v) => v,
            None => WhitespaceRenderValue::Off,
        },
    }
}

impl WhitespaceRender {
    pub fn space(&self) -> (r: WhitespaceRenderValue)
        ensures
            r == match *self {
                WhitespaceRender::Basic(v) => v,
                WhitespaceRender::Specific { default, space, .. } => own_or_default(space, default),
            },
    {
        match *self {
            WhitespaceRender::Basic(v) => v,
            WhitespaceRender::Specific { default, space, .. } => choose_value(space, default),
        }
    }

    pub fn nbsp(&self) -> (r: WhitespaceRenderValue)
        ensures
            r == match *self {
                WhitespaceRender::Basic(v) => v,
                WhitespaceRender::Specific { default, nbsp, .. } => own_or_default(nbsp, default),
            },
    {
        match *self {
            WhitespaceRender::Basic(v) => v,
            WhitespaceRender::Specific { default, nbsp, .. } => choose_value(nbsp, default),
        }
    }

    pub fn nnbsp(&self) -> (r: WhitespaceRenderValue)
        ensures
            r == match *self {
                WhitespaceRender::Basic(v) => v,
                WhitespaceRender::Specific { default, nnbsp, .. } => own_or_default(nnbsp, default),
            },
    {
        match *self {
            WhitespaceRender::Basic(v) => v,
            WhitespaceRender::Specific { default, nnbsp, .. } => choose_value(nnbsp, default),
        }
    }

    pub fn tab(&self) -> (r: WhitespaceRenderValue)
        ensures
            r == match *self {
                WhitespaceRender::Basic(v) => v,
                WhitespaceRender::Specific { default, tab, .. } => own_or_default(tab, default),
            },
    {
        match *self {
            WhitespaceRender::Basic(v) => v,
            WhitespaceRender::Specific { default, tab, .. } => choose_value(tab, default),
        }
    }

    pub fn newline(&self) -> (r: WhitespaceRenderValue)
        ensures
            r == match *self {
                WhitespaceRender::Basic(v) => v,
                WhitespaceRender::Specific { default, newline, .. } => own_or_default(
                    newline,
                    default,
                ),
            },
    {
        match *self {
            WhitespaceRender::Basic(v) => v,
            WhitespaceRender::Specific { default, newline, .. } => choose_value(newline, default),
        }
    }
}

/// The characters that stand for whitespace.
#[derive(Debug, Clone, Copy, PartialEq, Eq, Structural)]
pub struct WhitespaceCharacters {
    pub space: char,
    pub nbsp: char,
    pub nnbsp: char,
    pub tab: char,
    pub tabpad: char,
    pub newline: char,
}

impl WhitespaceCharacters {
    /// Whether these are the characters shown unless others are configured.
    pub open spec fn is_default(self) -> bool {
        self == WhitespaceCharacters {
            space: '·',
            nbsp: '⍽',
            nnbsp: '␣',
            tab: '→',
            newline: '⏎',
            tabpad: ' ',
        }
    }
}

impl Default for WhitespaceCharacters {
    fn default() -> (r: Self)
        ensures
            r.is_default(),
    {
        WhitespaceCharacters {
            space: '·',
            nbsp: '⍽',
            nnbsp: '␣',
            tab: '→',
            newline: '⏎',
            tabpad: ' ',
        }
    }
}

/// The lines that show indentation.
#[derive(Debug, Clone, Copy, PartialEq, Eq, Structural)]
pub struct IndentGuidesConfig {
    pub render: bool,
    pub character: char,
    pub skip_levels: u8,
}

impl Default for IndentGuidesConfig {
    fn default() -> (r: Self)
        ensures
            r == (IndentGuidesConfig { skip_levels: 0, render: false, character: '│' }),
    {
        IndentGuidesConfig { skip_levels: 0, render: false, character: '│' }
    }
}

/// The line ending of new documents.
#[derive(Debug, Clone, Copy, PartialEq, Eq, Structural)]
pub enum LineEndingConfig {
    /// That of the platform.
    Native,
    LF,
    Crlf,
}

impl Default for LineEndingConfig {
    fn default() -> (r: Self)
        ensures
            r is Native,
    {
        LineEndingConfig::Native
    }
}

impl LineEndingConfig {
    /// The line ending that is meant on a platform whose own one is `native`.
    pub fn line_ending(self, native: LineEnding) -> (r: LineEnding)
        ensures
            r == match self {
                LineEndingConfig::Native => native,
                LineEndingConfig::LF => LineEnding::LF,
                LineEndingConfig::Crlf => LineEnding::Crlf,
            },
    {
        match self {
            LineEndingConfig::Native => native,
            LineEndingConfig::LF => LineEnding::LF,
            LineEndingConfig::Crlf => LineEnding::Crlf,
        }
    }
}

/// Which floating windows have a border.
#[derive(Debug, Clone, Copy, PartialEq, Eq, Structural)]
pub enum PopupBorderConfig {
    Off,
    All,
    Popup,
    Menu,
}

/// The configuration.
#[derive(Debug)]
pub struct Config {
    /// Lines to keep in view above and below the cursor.
    pub scrolloff: usize,
    /// Lines that one turn of the wheel scrolls.
    pub scroll_lines: isize,
    pub mouse: bool,
    /// The shell with its arguments.
    pub shell: Vec<String>,
    pub line_number: LineNumber,
    pub cursorline: bool,
    pub cursorcolumn: bool,
    pub gutters: GutterConfig,
    /// Reload files that change on disk.
    pub auto_reload: bool,
    pub text_width: usize,
    /// Milliseconds without input until idle work is done.
    pub idle_timeout: u64,
    pub auto_info: bool,
    pub file_picker: FilePickerConfig,
    pub file_explorer: FileExplorerConfig,
    pub statusline: StatusLineConfig,
    pub cursor_shape: CursorShapeConfig,
    pub true_color: bool,
    pub undercurl: bool,
    pub search: SearchConfig,
    pub lsp: LspConfig,
    pub terminal: Option<TerminalConfig>,
    pub rulers: Vec<u16>,
    pub whitespace: WhitespaceConfig,
    pub bufferline: BufferLine,
    pub indent_guides: IndentGuidesConfig,
    pub color_modes: bool,
    pub soft_wrap: SoftWrap,
    pub workspace_lsp_roots: Vec<String>,
    pub default_line_ending: LineEndingConfig,
    pub insert_final_newline: bool,
    pub atomic_save: bool,
    pub trim_final_newlines: bool,
    pub trim_trailing_whitespace: bool,
    pub smart_tab: Option<SmartTabConfig>,
    pub popup_border: PopupBorderConfig,
    pub indent_heuristic: IndentationHeuristic,
    /// The characters of jump labels.
    pub jump_label_alphabet: Vec<char>,
    pub inline_diagnostics: InlineDiagnosticsConfig,
    pub end_of_line_diagnostics: DiagnosticFilter,
    pub clipboard_provider: ClipboardProvider,
    pub editor_config: bool,
    pub rainbow_brackets: bool,
    pub icons: bool,
    pub kitty_keyboard_protocol: KittyKeyboardProtocolConfig,
    pub buffer_picker: BufferPickerConfig,
}

/// What the default configuration takes from its surroundings.
#[derive(Debug)]
pub struct Surroundings {
    pub windows: bool,
    pub terminal: Option<TerminalConfig>,
    pub clipboard_provider: ClipboardProvider,
    pub indent_heuristic: IndentationHeuristic,
    pub inline_diagnostics: InlineDiagnosticsConfig,
}

/// The letters from `a` to `z`.
pub open spec fn lower_letters() -> Seq<char> {
    Seq::new(26, |i: int| (97 + i) as char)
}

fn letters() -> (r: Vec<char>)
    ensures
        r@ == lower_letters(),
{
    let mut v: Vec<char> = Vec::new();
    let mut i: u8 = 0;
    while i < 26
        invariant
            i <= 26,
            v@.len() == i,
            forall|k: int| 0 <= k < i ==> #[trigger] v@[k] == (97 + k) as char,
        decreases 26 - i,
    {
        v.push((97u8 + i) as char);
        i = i + 1;
    }
    assert(v@ =~= lower_letters());
    v
}

impl Config {
    /// The configuration unless something else is configured.
    pub fn default_in(surroundings: Surroundings) -> (r: Self)
        ensures
            r.scrolloff == 5,
            r.scroll_lines == 3,
            r.mouse,
            texts(r.shell@) == if surroundings.windows {
                seq!["cmd"@, "/C"@]
            } else {
                seq!["sh"@, "-c"@]
            },
            r.line_number == LineNumber::Absolute,
            !r.cursorline,
            !r.cursorcolumn,
            r.gutters.layout@ == default_gutters(),
            r.gutters.line_numbers.min_width == 3,
            r.auto_reload,
            r.text_width == 80,
            r.idle_timeout == 250,
            r.auto_info,
            r.file_picker == (FilePickerConfig {
                hidden: true,
                follow_symlinks: true,
                deduplicate_links: true,
                parents: true,
                ignore: true,
                git_ignore: true,
                git_global: true,
                git_exclude: true,
                max_depth: None,
            }),
            r.file_explorer == (FileExplorerConfig {
                hidden: false,
                follow_symlinks: false,
                parents: false,
                ignore: false,
                git_ignore: false,
                git_global: false,
                git_exclude: false,
                flatten_dirs: true,
            }),
            r.statusline.is_default(),
            forall|mode: Mode| #[trigger] r.cursor_shape.shape(mode) == CursorKind::Block,
            !r.true_color,
            !r.undercurl,
            r.search == (SearchConfig { wrap_around: true, smart_case: true }),
            r.lsp == (LspConfig {
                enable: true,
                display_progress_messages: false,
                display_messages: true,
                auto_signature_help: true,
                display_signature_help_docs: true,
                display_inlay_hints: false,
                auto_document_highlight: false,
                inlay_hints_length_limit: None,
                goto_reference_include_declaration: true,
                display_color_swatches: true,
            }),
            r.terminal == surroundings.terminal,
            r.rulers@ == Seq::<u16>::empty(),
            r.whitespace.render == WhitespaceRender::Basic(WhitespaceRenderValue::Off),
            r.whitespace.characters.is_default(),
            r.bufferline is Never,
            r.indent_guides == (IndentGuidesConfig {
                skip_levels: 0,
                render: false,
                character: '│',
            }),
            !r.color_modes,
            r.soft_wrap == (SoftWrap {
                enable: Some(false),
                max_wrap: None,
                max_indent_retain: None,
                wrap_indicator: None,
                wrap_at_text_width: None,
            }),
            r.workspace_lsp_roots@ == Seq::<String>::empty(),
            r.default_line_ending is Native,
            r.insert_final_newline,
            r.atomic_save,
            !r.trim_final_newlines,
            !r.trim_trailing_whitespace,
            r.smart_tab == Some(SmartTabConfig { enable: true, supersede_menu: false }),
            r.popup_border is Off,
            r.indent_heuristic == surroundings.indent_heuristic,
            r.jump_label_alphabet@ == lower_letters(),
            r.inline_diagnostics == surroundings.inline_diagnostics,
            r.end_of_line_diagnostics == DiagnosticFilter::Enable(Severity::Hint),
            r.clipboard_provider == surroundings.clipboard_provider,
            r.editor_config,
            !r.rainbow_brackets,
            !r.icons,
            r.kitty_keyboard_protocol is Auto,
            r.buffer_picker.start_position is Current,
    {
        let shell = if surroundings.windows {
            owned(vec!["cmd", "/C"])
        } else {
            owned(vec!["sh", "-c"])
        };
        assert(texts(shell@) =~= if surroundings.windows {
            seq!["cmd"@, "/C"@]
        } else {
            seq!["sh"@, "-c"@]
        });
        Config {
            scrolloff: 5,
            scroll_lines: 3,
            mouse: true,
            shell,
            line_number: LineNumber::Absolute,
            cursorline: false,
            cursorcolumn: false,
            gutters: GutterConfig::default(),
            auto_reload: true,
            text_width: 80,
            idle_timeout: 250,
            auto_info: true,
            file_picker: FilePickerConfig::default(),
            file_explorer: FileExplorerConfig::default(),
            statusline: StatusLineConfig::default(),
            cursor_shape: CursorShapeConfig::default(),
            true_color: false,
            undercurl: false,
            search: SearchConfig::default(),
            lsp: LspConfig::default(),
            terminal: surroundings.terminal,
            rulers: Vec::new(),
            whitespace: WhitespaceConfig::default(),
            bufferline: BufferLine::default(),
            indent_guides: IndentGuidesConfig::default(),
            color_modes: false,
            soft_wrap: SoftWrap {
                enable: Some(false),
                max_wrap: None,
                max_indent_retain: None,
                wrap_indicator: None,
                wrap_at_text_width: None,
            },
            workspace_lsp_roots: Vec::new(),
            default_line_ending: LineEndingConfig::default(),
            insert_final_newline: true,
            atomic_save: true,
            trim_final_newlines: false,
            trim_trailing_whitespace: false,
            smart_tab: Some(SmartTabConfig::default()),
            popup_border: PopupBorderConfig::Off,
            indent_heuristic: surroundings.indent_heuristic,
            jump_label_alphabet: letters(),
            inline_diagnostics: surroundings.inline_diagnostics,
            end_of_line_diagnostics: DiagnosticFilter::Enable(Severity::Hint),
            clipboard_provider: surroundings.clipboard_provider,
            editor_config: true,
            rainbow_brackets: false,
            icons: false,
            kitty_keyboard_protocol: KittyKeyboardProtocolConfig::default(),
            buffer_picker: BufferPickerConfig::default(),
        }
    }
}

/// No letter occurs twice in the default alphabet, so that it is accepted as a configured one.
pub proof fn law_default_alphabet_is_unique()
    ensures
        lower_letters().no_duplicates(),
{
    assert forall|i: int, j: int|
        0 <= i < lower_letters().len() && 0 <= j < lower_letters().len() && i != j implies
        lower_letters()[i] != lower_letters()[j] by {
        assert(((97 + i) as char) as u32 == 97 + i);
        assert(((97 + j) as char) as u32 == 97 + j);
    }
}

proof fn lemma_gutter_names(s: Seq<char>)
    ensures
        s == "diagnostics"@ ==> s.len() == 11,
        s == "spacer"@ ==> s.len() == 6,
        s == "line-numbers"@ ==> s.len() == 12,
        s == "diff"@ ==> s.len() == 4,
{
    reveal_strlit("diagnostics");
    reveal_strlit("spacer");
    reveal_strlit("line-numbers");
    reveal_strlit("diff");
}

/// Each kind of gutter has a name of its own.
pub proof fn law_gutters_are_named(s: Seq<char>)
    ensures
        gutter_named(s) == Some(GutterType::Diagnostics) <==> s == "diagnostics"@,
        gutter_named(s) == Some(GutterType::Spacer) <==> s == "spacer"@,
        gutter_named(s) == Some(GutterType::LineNumbers) <==> s == "line-numbers"@,
        gutter_named(s) == Some(GutterType::Diff) <==> s == "diff"@,
{
    lemma_gutter_names(s);
}

/// Line numbers count from the beginning or from the cursor, and both names have a short form.
pub proof fn law_line_numbers_are_named(s: Seq<char>)
    ensures
        line_number_named(s) == Some(LineNumber::Absolute) <==> s == "absolute"@ || s == "abs"@,
        line_number_named(s) == Some(LineNumber::Relative) <==> s == "relative"@ || s == "rel"@,
        line_number_named(s) is None <==> s != "absolute"@ && s != "abs"@ && s != "relative"@ && s
            != "rel"@,
{
    reveal_strlit("absolute");
    reveal_strlit("abs");
    reveal_strlit("relative");
    reveal_strlit("rel");
    assert("absolute"@[0] == 'a' && "abs"@[0] == 'a' && "relative"@[0] == 'r' && "rel"@[0] == 'r');
}

/// Another terminal is opened with what the environment offers: on Windows there always is one, and
/// elsewhere a multiplexer is used only if the program runs in it and it can be called.
pub proof fn law_terminal_of_the_environment(env: TerminalEnv)
    ensures
        env.windows ==> terminal_for(env) is Some,
        env.windows && env.wt ==> (terminal_for(env) matches Some(t) && t.0 == "wt"@),
        env.windows && !env.wt ==> (terminal_for(env) matches Some(t) && t.0 == "conhost"@),
        !env.windows && env.tmux && env.tmux_running ==> terminal_for(env) == Some(
            ("tmux"@, seq!["split-window"@]),
        ),
        !env.windows && !(env.tmux && env.tmux_running) && env.wezterm && env.wezterm_socket
            ==> terminal_for(env) == Some(("wezterm"@, seq!["cli"@, "split-pane"@])),
        !env.windows && !(env.tmux && env.tmux_running) && !(env.wezterm && env.wezterm_socket)
            ==> terminal_for(env) is None,
{
}

/// What is set for one kind of white space counts for it; else the default that is set; else it is not
/// shown.
pub proof fn law_own_setting_comes_first(
    own: WhitespaceRenderValue,
    default: WhitespaceRenderValue,
    any: Option<WhitespaceRenderValue>,
)
    ensures
        own_or_default(Some(own), any) == own,
        own_or_default(None, Some(default)) == default,
        own_or_default(None, None) == WhitespaceRenderValue::Off,
{
}

/// The first shape is that of normal mode and the second that of select mode.
pub proof fn law_shape_of_a_mode(normal: CursorKind, select: CursorKind)
    ensures
        (CursorShapeConfig { shapes: [normal, select] }).shape(Mode::Normal) == normal,
        (CursorShapeConfig { shapes: [normal, select] }).shape(Mode::Select) == select,
{
}

/// The labels of jumps are the small letters of the alphabet, all of them and in order.
pub proof fn law_letters_of_the_alphabet(i: int)
    requires
        0 <= i < 26,
    ensures
        lower_letters().len() == 26,
        lower_letters()[i] as u32 == 97 + i,
        lower_letters()[0] == 'a',
        lower_letters()[25] == 'z',
{
    vstd::utf8::char_u32_cast(lower_letters()[i], (97 + i) as u32);
}

/// Unless configured otherwise, a view has its diagnostics to the left of the line numbers and the
/// changes to the right of them, a blank on either side.
pub proof fn law_default_gutters(g: Seq<GutterType>)
    requires
        g == default_gutters(),
    ensures
        g.len() == 5,
        g.first() == GutterType::Diagnostics,
        g[2] == GutterType::LineNumbers,
        g.last() == GutterType::Diff,
        g[1] == GutterType::Spacer,
        g[3] == GutterType::Spacer,
{
}

} // verus!
