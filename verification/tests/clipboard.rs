use helix_view::clipboard::execute_command;
use helix_view::clipboard::simple_base64_encode;
use helix_view::clipboard::ClipboardAction;
use helix_view::clipboard::ClipboardEnv;
use helix_view::clipboard::ClipboardError;
use helix_view::clipboard::ClipboardProvider;
use helix_view::clipboard::ClipboardType;
use helix_view::clipboard::Command;
use helix_view::clipboard::CommandOutcome;
use helix_view::clipboard::CommandProvider;
use helix_view::register::ReadContext;
use helix_view::register::RegisterError;
use helix_view::register::Registers;

fn env() -> ClipboardEnv {
    ClipboardEnv {
        windows: false,
        macos: false,
        wayland_display: false,
        display: false,
        tmux_running: false,
        wl_copy: false,
        xclip: false,
        xsel: false,
        termux_clipboard_set: false,
        tmux: false,
        win32yank: false,
        pbcopy: false,
    }
}

#[test]
fn base64() {
    assert_eq!(simple_base64_encode(b""), "");
    assert_eq!(simple_base64_encode(b"f"), "Zg==");
    assert_eq!(simple_base64_encode(b"fo"), "Zm8=");
    assert_eq!(simple_base64_encode(b"foo"), "Zm9v");
    assert_eq!(simple_base64_encode(b"foobar"), "Zm9vYmFy");
    assert_eq!(simple_base64_encode(&[0xff, 0xfe, 0xfd]), "//79");
}

#[test]
fn the_environment_decides_on_the_provider() {
    assert_eq!(ClipboardProvider::from_env(env()).name(), "termcode");
    let wayland = ClipboardEnv { wayland_display: true, wl_copy: true, ..env() };
    assert_eq!(ClipboardProvider::from_env(wayland).name(), "wayland (wl-copy)");
    let x = ClipboardEnv { display: true, xclip: true, xsel: true, ..env() };
    assert_eq!(ClipboardProvider::from_env(x).name(), "x-clip (xclip)");
    let xsel = ClipboardEnv { display: true, xsel: true, ..env() };
    assert_eq!(ClipboardProvider::from_env(xsel).name(), "x-sel (xsel)");
    let tmux = ClipboardEnv { tmux_running: true, tmux: true, ..env() };
    assert_eq!(ClipboardProvider::from_env(tmux).name(), "tmux (tmux)");
    assert_eq!(ClipboardProvider::Off.name(), "none");
}

#[test]
fn contents_are_handed_to_the_provider() {
    let action = ClipboardProvider::Termcode.set_contents("foo", ClipboardType::Clipboard);
    assert!(matches!(action, ClipboardAction::Print(s) if s == "\x1b]52;c;Zm9v\x07"));
    let action = ClipboardProvider::Termcode.set_contents("foo", ClipboardType::Selection);
    assert!(matches!(action, ClipboardAction::Print(s) if s == "\x1b]52;p;Zm9v\x07"));
    assert!(matches!(
        ClipboardProvider::Off.set_contents("foo", ClipboardType::Clipboard),
        ClipboardAction::Nothing
    ));
    let custom = ClipboardProvider::Custom(CommandProvider {
        paste: Command { command: "p".to_string(), args: vec!["-x".to_string()] },
        paste_primary: None,
    });
    assert!(matches!(
        custom.set_contents("foo", ClipboardType::Clipboard),
        ClipboardAction::Run(c) if c.command == "p" && c.args == vec!["-x".to_string()]
    ));
}

#[test]
fn commands_can_fail() {
    assert!(execute_command(CommandOutcome::Exited(true)).is_ok());
    assert!(matches!(
        execute_command(CommandOutcome::Exited(false)),
        Err(ClipboardError::CommandFailed)
    ));
    assert!(matches!(
        execute_command(CommandOutcome::StdinFailed),
        Err(ClipboardError::StdinWriteFailed)
    ));
    assert!(matches!(
        execute_command(CommandOutcome::Failed("e".to_string())),
        Err(ClipboardError::IoError(e)) if e == "e"
    ));
}

fn context() -> ReadContext {
    ReadContext {
        selections: 2,
        fragments: vec!["one".to_string(), "two".to_string()],
        display_name: "file.rs".to_string(),
    }
}

fn values(r: &Registers, name: char) -> Option<Vec<String>> {
    let mut it = r.read(name, &context())?;
    let mut out = Vec::new();
    while let Some(v) = it.next() {
        out.push(v);
    }
    Some(out)
}

#[test]
fn what_was_written_is_read() {
    let mut r = Registers::new(ClipboardProvider::Off);
    assert_eq!(values(&r, 'a'), None);
    let v = vec!["x".to_string(), "y".to_string()];
    assert!(r.write('a', &v, Ok(())).is_ok());
    assert_eq!(values(&r, 'a'), Some(v));
    assert!(r.push('a', "z", Ok(())).is_ok());
    assert_eq!(r.first('a', &context()), Some("z".to_string()));
    assert_eq!(r.last('a', &context()), Some("y".to_string()));
    let mut it = r.read('a', &context()).unwrap();
    assert_eq!(it.len(), 3);
    assert_eq!(it.next_back(), Some("y".to_string()));
    assert_eq!(it.next(), Some("z".to_string()));
    assert!(r.remove('a'));
    assert!(!r.remove('a'));
    assert_eq!(values(&r, 'a'), None);
}

#[test]
fn special_registers() {
    let mut r = Registers::new(ClipboardProvider::Off);
    assert_eq!(values(&r, '_'), Some(vec![]));
    assert_eq!(values(&r, '#'), Some(vec!["1".to_string(), "2".to_string()]));
    assert_eq!(values(&r, '.'), Some(vec!["one".to_string(), "two".to_string()]));
    assert_eq!(values(&r, '%'), Some(vec!["file.rs".to_string()]));
    let v = vec!["x".to_string()];
    assert!(r.write('_', &v, Ok(())).is_ok());
    assert!(matches!(r.write('#', &v, Ok(())), Err(RegisterError::NoWriting('#'))));
    assert!(matches!(r.push('%', "x", Ok(())), Err(RegisterError::NoPushing('%'))));
    assert!(matches!(
        r.write('+', &v, Err("broken".to_string())),
        Err(RegisterError::Clipboard(_))
    ));
    assert_eq!(RegisterError::NoWriting('#').message(), "Register # does not support writing");
    assert_eq!(RegisterError::NoPushing('%').message(), "Register % does not support pushing");
    assert_eq!(r.clipboard_provider_name(), "none");
    assert!(r.write('*', &v, Ok(())).is_ok());
    assert_eq!(r.values_with('*', "y"), vec!["y".to_string(), "x".to_string()]);
    assert!(r.push('*', "y", Ok(())).is_ok());
    assert_eq!(values(&r, '*'), Some(vec!["y".to_string(), "x".to_string()]));
    assert!(r.push('*', "z", Err("broken".to_string())).is_err());
    assert_eq!(r.first('*', &context()), Some("y".to_string()));
    let two = vec!["x".to_string(), "y".to_string()];
    assert_eq!(
        Registers::clipboard_contents('*', &two, "\n"),
        Some(("x\ny".to_string(), ClipboardType::Clipboard))
    );
    assert_eq!(
        Registers::clipboard_contents('+', &two, "\n"),
        Some(("x\ny".to_string(), ClipboardType::Selection))
    );
    assert_eq!(Registers::clipboard_contents('a', &two, "\n"), None);
    r.clear();
    assert_eq!(values(&r, '*'), None);
}
