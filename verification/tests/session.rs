use elfdb::device::Device;
use elfdb::error::Error;
use elfdb::events::{Event, Key};
use elfdb::hook::{Action, Hook, Op};
use elfdb::tui::{help_command, Frame, Message, Outcome, Terminal};
use elfdb::visuals::{NoopVisuals, Visuals};

fn loaded(lines: &[&str]) -> Device {
    let mut device = Device::default();
    device.load(lines).expect("program loads");
    device
}

fn session() -> Terminal {
    let mut terminal = Terminal::new().interactive();
    let _ = terminal.frame(&Device::default());
    terminal
}

fn enter(terminal: &mut Terminal, device: &mut Device, line: &str) -> Result<Outcome, Error> {
    for c in line.chars() {
        assert_eq!(terminal.interactive_key(device, Key::Char(c)), Ok(Outcome::Redraw));
    }
    terminal.interactive_key(device, Key::Char('\n'))
}

fn errors(frame: &Frame) -> Vec<String> {
    let mut out = Vec::new();
    for m in &frame.messages {
        if let Message::Error(text) = m {
            out.push(text.clone());
        }
    }
    out
}

#[test]
fn message_builders() {
    assert_eq!(Message::error("e".to_string()), Message::Error("e".to_string()));
    assert_eq!(Message::info("i".to_string()), Message::Info("i".to_string()));
    assert_eq!(Message::bold("b".to_string()), Message::Bold("b".to_string()));
}

#[test]
fn help_lists_commands_and_keys() {
    let mut messages = vec![Message::info("first".to_string())];
    help_command(&mut messages);
    assert_eq!(messages.len(), 22);
    assert_eq!(messages[0], Message::Info("first".to_string()));
    assert_eq!(messages[1], Message::Bold("Commands:".to_string()));
    assert_eq!(messages[2], Message::Info("  help - show this help.".to_string()));
    assert_eq!(messages[17], Message::Bold("Keys:".to_string()));
    assert_eq!(
        messages[21],
        Message::Info("  <p> - pause when in non-interactive mode.".to_string())
    );
}

#[test]
fn new_session_runs_and_shows_help() {
    let mut terminal = Terminal::new();
    assert!(!terminal.is_interactive());
    assert!(terminal.human_decoding());
    assert_eq!(terminal.scroll(), 0);
    assert_eq!(terminal.input(), "");
    assert_eq!(terminal.hooks().len(), 0);
    assert_eq!(terminal.messages().len(), 21);
    let device = Device::default();
    let frame = terminal.frame(&device);
    assert_eq!(frame.messages.len(), 22);
    assert_eq!(
        frame.messages[21],
        Message::Bold(
            "running in non-interactive mode, press `p` to pause or `q` to quit".to_string()
        )
    );
    assert_eq!(frame.prompt, None);
    assert_eq!(frame.title, "Instructions (`F1` for Raw)");
    assert_eq!(terminal.messages().len(), 0);
    let terminal = terminal.interactive().hook(Hook::Line(3));
    assert!(terminal.is_interactive());
    assert_eq!(terminal.hooks(), &vec![Hook::Line(3)]);
}

#[test]
fn frame_shows_program_registers_and_counters() {
    let mut device = loaded(&["#ip 5", "seti 3 0 0", "addi 0 1 0", "addr 0 1 2"]);
    device.clear();
    device.step().unwrap();
    device.clear();
    device.step().unwrap();
    let mut terminal = session().hook(Hook::Line(1)).hook(Hook::Op(Op::Gte, 5, 2));
    let frame = terminal.frame(&device);
    let texts: Vec<&str> = frame.instructions.iter().map(|l| l.text.as_str()).collect();
    assert_eq!(texts, vec!["0  : a  = 3", "1  : a  = a + 1", "2  : c  = a + b"]);
    let standout: Vec<bool> = frame.instructions.iter().map(|l| l.standout).collect();
    assert_eq!(standout, vec![false, true, false]);
    let texts: Vec<&str> = frame.registers.iter().map(|l| l.text.as_str()).collect();
    assert_eq!(texts, vec!["a *= 4", "b  = 0", "c  = 0", "d  = 0", "e  = 0", "ip = 2"]);
    let standout: Vec<bool> = frame.registers.iter().map(|l| l.standout).collect();
    assert_eq!(standout, vec![true, false, false, false, false, false]);
    assert_eq!(frame.breakpoints, vec!["0 : line(1)", "1 : gte(ip, 2)"]);
    assert_eq!(frame.device, vec!["Count: 2", "Unique: 2"]);
    assert_eq!(frame.prompt, Some("> ".to_string()));
    assert_eq!(frame.messages.len(), 0);

    assert_eq!(terminal.interactive_key(&mut device, Key::F(1)), Ok(Outcome::Redraw));
    assert_eq!(terminal.interactive_key(&mut device, Key::Down), Ok(Outcome::Redraw));
    let frame = terminal.frame(&device);
    assert_eq!(frame.title, "Instructions (`F1` for Human)");
    let texts: Vec<&str> = frame.instructions.iter().map(|l| l.text.as_str()).collect();
    assert_eq!(texts, vec!["1  : addi 0 1 0", "2  : addr 0 1 2"]);
    let texts: Vec<&str> = frame.registers.iter().map(|l| l.text.as_str()).collect();
    assert_eq!(texts, vec!["0 *= 4", "1  = 0", "2  = 0", "3  = 0", "4  = 0", "5  = 2"]);
}

#[test]
fn frame_reports_halt() {
    let mut device = loaded(&["#ip 0"]);
    device.step().unwrap();
    assert!(device.halted);
    let mut terminal = session();
    let frame = terminal.frame(&device);
    assert_eq!(
        frame.messages,
        vec![
            Message::Bold("device is halted".to_string()),
            Message::Info("use `reset` to unhalt".to_string()),
        ]
    );
}

#[test]
fn scrolling_stays_within_the_program() {
    let mut device = loaded(&["#ip 0", "seti 0 0 1", "seti 0 0 1", "seti 0 0 1"]);
    let mut terminal = session();
    assert_eq!(terminal.interactive_key(&mut device, Key::Up), Ok(Outcome::Redraw));
    assert_eq!(terminal.scroll(), 0);
    for _ in 0..5 {
        terminal.generic_handle(Event::Input(Key::Down), device.instructions.len());
    }
    assert_eq!(terminal.scroll(), 2);
    terminal.generic_handle(Event::Input(Key::Up), device.instructions.len());
    assert_eq!(terminal.scroll(), 1);
    terminal.generic_handle(Event::Input(Key::Down), 0);
    assert_eq!(terminal.scroll(), 0);
    terminal.generic_handle(Event::Input(Key::Left), 3);
    terminal.generic_handle(Event::Input(Key::F(2)), 3);
    terminal.generic_handle(Event::Input(Key::Alt('x')), 3);
    let frame = terminal.frame(&device);
    assert_eq!(
        errors(&frame),
        vec![
            "unhandled event: Input(Left)",
            "unhandled event: Input(F(2))",
            "unhandled event: Input(Alt(x))",
        ]
    );
}

#[test]
fn follow_keeps_the_last_line_on_screen() {
    let mut lines = vec!["#ip 0"];
    for _ in 0..40 {
        lines.push("addi 1 1 1");
    }
    let mut device = loaded(&lines);
    let mut terminal = session();
    terminal.follow(&device, 10);
    assert_eq!(terminal.scroll(), 0);
    for _ in 0..11 {
        device.step().unwrap();
    }
    assert_eq!(device.registers.last_ip(), Some(10));
    terminal.follow(&device, 10);
    assert_eq!(terminal.scroll(), 0);
    device.step().unwrap();
    terminal.follow(&device, 10);
    assert_eq!(terminal.scroll(), 11);
    *device.registers.reg_mut(0usize).unwrap() = 3;
    device.step().unwrap();
    terminal.follow(&device, 10);
    assert_eq!(terminal.scroll(), 3);
}

#[test]
fn draws_every_millionth_step_while_running() {
    let mut device = loaded(&["#ip 0", "seti 0 0 1"]);
    let terminal = Terminal::new();
    assert!(terminal.wants_draw(&device));
    device.count = 1;
    assert!(!terminal.wants_draw(&device));
    device.count = 999_999;
    assert!(!terminal.wants_draw(&device));
    device.count = 2_000_000;
    assert!(terminal.wants_draw(&device));
    device.count = 7;
    assert!(terminal.interactive().wants_draw(&device));
}

#[test]
fn typing_and_editing_the_command_line() {
    let mut device = Device::default();
    let mut terminal = session();
    assert_eq!(terminal.interactive_key(&mut device, Key::Char(' ')), Ok(Outcome::Wait));
    assert_eq!(terminal.input(), "");
    assert_eq!(terminal.interactive_key(&mut device, Key::Backspace), Ok(Outcome::Redraw));
    assert_eq!(terminal.input(), "");
    for c in "he lp".chars() {
        assert_eq!(terminal.interactive_key(&mut device, Key::Char(c)), Ok(Outcome::Redraw));
    }
    assert_eq!(terminal.input(), "he lp");
    assert_eq!(terminal.interactive_key(&mut device, Key::Ctrl('d')), Ok(Outcome::Wait));
    assert_eq!(terminal.interactive_key(&mut device, Key::Backspace), Ok(Outcome::Redraw));
    assert_eq!(terminal.input(), "he l");
    assert_eq!(terminal.frame(&device).prompt, Some("> he l".to_string()));
    for _ in 0..4 {
        terminal.interactive_key(&mut device, Key::Backspace).unwrap();
    }
    assert_eq!(terminal.interactive_key(&mut device, Key::Ctrl('d')), Ok(Outcome::Exit));
}

#[test]
fn commands_that_end_or_run() {
    let mut device = loaded(&["#ip 0", "seti 5 0 1"]);
    for quit in ["q", "exit", "quit"] {
        let mut terminal = session();
        assert_eq!(enter(&mut terminal, &mut device, quit), Ok(Outcome::Exit));
    }
    for word in ["s", "step"] {
        let mut terminal = session();
        assert_eq!(enter(&mut terminal, &mut device, word), Ok(Outcome::Run));
        assert!(terminal.is_interactive());
    }
    for word in ["c", "continue"] {
        let mut terminal = session();
        assert_eq!(enter(&mut terminal, &mut device, word), Ok(Outcome::Run));
        assert!(!terminal.is_interactive());
    }
    device.halted = true;
    let mut terminal = session();
    assert_eq!(enter(&mut terminal, &mut device, "step"), Ok(Outcome::Redraw));
    assert_eq!(enter(&mut terminal, &mut device, "c"), Ok(Outcome::Redraw));
    assert!(terminal.is_interactive());
    device.halted = false;
    assert_eq!(
        errors(&terminal.frame(&device)),
        vec!["can't step, device is halted!", "can't continue, device is halted!"]
    );
}

#[test]
fn bare_enter_repeats_the_last_command() {
    let mut device = Device::default();
    let mut terminal = session();
    assert_eq!(terminal.interactive_key(&mut device, Key::Char('\n')), Ok(Outcome::Redraw));
    assert_eq!(errors(&terminal.frame(&device)), vec!["no command to re-run"]);
    assert_eq!(enter(&mut terminal, &mut device, "b line(1)"), Ok(Outcome::Redraw));
    assert_eq!(terminal.interactive_key(&mut device, Key::Char('\n')), Ok(Outcome::Redraw));
    assert_eq!(terminal.hooks(), &vec![Hook::Line(1), Hook::Line(1)]);
    assert_eq!(terminal.input(), "");
}

#[test]
fn break_clear_and_inspect() {
    let mut device = loaded(&["#ip 3"]);
    let mut terminal = session();
    assert_eq!(enter(&mut terminal, &mut device, "break all(line(28), not(read(ip)))"), Ok(Outcome::Redraw));
    assert_eq!(enter(&mut terminal, &mut device, "b unique(a)"), Ok(Outcome::Redraw));
    assert_eq!(enter(&mut terminal, &mut device, "b eq(b, 7)"), Ok(Outcome::Redraw));
    assert_eq!(
        terminal.hooks(),
        &vec![
            Hook::All(vec![Hook::Line(28), Hook::Not(Box::new(Hook::Read(3)))]),
            Hook::unique(0),
            Hook::Op(Op::Eq, 1, 7),
        ]
    );
    assert_eq!(enter(&mut terminal, &mut device, "b"), Ok(Outcome::Redraw));
    assert_eq!(enter(&mut terminal, &mut device, "b nope(a)"), Ok(Outcome::Redraw));
    assert_eq!(enter(&mut terminal, &mut device, "b read(a"), Ok(Outcome::Redraw));
    assert_eq!(enter(&mut terminal, &mut device, "inspect"), Ok(Outcome::Redraw));
    assert_eq!(enter(&mut terminal, &mut device, "inspect 0"), Ok(Outcome::Redraw));
    assert_eq!(enter(&mut terminal, &mut device, "inspect 1"), Ok(Outcome::Redraw));
    assert_eq!(enter(&mut terminal, &mut device, "inspect 3"), Ok(Outcome::Redraw));
    assert_eq!(enter(&mut terminal, &mut device, "inspect x"), Ok(Outcome::Redraw));
    assert_eq!(
        terminal.frame(&device).messages,
        vec![
            Message::Error("missing break condition!".to_string()),
            Message::Error("bad condition: no such function: nope".to_string()),
            Message::Error("bad condition: expected token".to_string()),
            Message::Info("eq()".to_string()),
            Message::Info("all(line(), not(read()))".to_string()),
            Message::Info("unique(seen: 0, last: None)".to_string()),
            Message::Error("no hook with index `3`".to_string()),
            Message::Error("bad index `x`".to_string()),
        ]
    );
    assert_eq!(enter(&mut terminal, &mut device, "clear 1"), Ok(Outcome::Redraw));
    assert_eq!(terminal.hooks().len(), 2);
    assert_eq!(terminal.hooks()[1], Hook::Op(Op::Eq, 1, 7));
    assert_eq!(enter(&mut terminal, &mut device, "cl"), Ok(Outcome::Redraw));
    assert_eq!(terminal.hooks().len(), 1);
    assert_eq!(enter(&mut terminal, &mut device, "clear 1"), Ok(Outcome::Redraw));
    assert_eq!(enter(&mut terminal, &mut device, "clear"), Ok(Outcome::Redraw));
    assert_eq!(terminal.hooks().len(), 0);
    assert_eq!(enter(&mut terminal, &mut device, "clear"), Ok(Outcome::Redraw));
    assert_eq!(enter(&mut terminal, &mut device, "clear -1"), Ok(Outcome::Redraw));
    assert_eq!(
        errors(&terminal.frame(&device)),
        vec!["bad hook index `1`", "no breakpoints to clear", "bad index `-1`"]
    );
}

#[test]
fn set_writes_a_register() {
    let mut device = loaded(&["#ip 2"]);
    let mut terminal = session();
    assert_eq!(enter(&mut terminal, &mut device, "set a 42"), Ok(Outcome::Redraw));
    assert_eq!(enter(&mut terminal, &mut device, "set ip -3"), Ok(Outcome::Redraw));
    assert_eq!(device.registers.iter(), vec![42, 0, -3, 0, 0, 0]);
    assert!(device.registers.is_written(0usize));
    assert!(device.registers.is_written(2usize));
    assert!(!device.registers.is_written(1usize));
    assert_eq!(enter(&mut terminal, &mut device, "set"), Ok(Outcome::Redraw));
    assert_eq!(enter(&mut terminal, &mut device, "set g 1"), Ok(Outcome::Redraw));
    assert_eq!(enter(&mut terminal, &mut device, "set a"), Ok(Outcome::Redraw));
    assert_eq!(enter(&mut terminal, &mut device, "set a x"), Ok(Outcome::Redraw));
    assert_eq!(enter(&mut terminal, &mut device, "set  a 1"), Ok(Outcome::Redraw));
    assert_eq!(
        errors(&terminal.frame(&device)),
        vec![
            "expected: set <register> <value>",
            "bad register: g",
            "expected: set <register> <value>",
            "expected: set <register> <value>",
            "bad value `x`",
            "bad register: ",
            "expected: set <register> <value>",
        ]
    );
    assert_eq!(device.registers.iter(), vec![42, 0, -3, 0, 0, 0]);
}

#[test]
fn help_reset_and_unknown_commands() {
    let mut device = loaded(&["#ip 5", "seti 7 0 0", "seti 8 0 0"]);
    device.step().unwrap();
    let mut terminal = session().hook(Hook::unique(0)).hook(Hook::Not(Box::new(Hook::unique(0))));
    assert_eq!(terminal.free_key(&mut device, None), Ok(Outcome::Redraw));
    assert!(terminal.is_interactive());
    assert_eq!(enter(&mut terminal, &mut device, "inspect 0"), Ok(Outcome::Redraw));
    assert_eq!(enter(&mut terminal, &mut device, "reset"), Ok(Outcome::Redraw));
    assert_eq!(device.count, 0);
    assert_eq!(device.registers.iter(), vec![0, 0, 0, 0, 0, 0]);
    assert_eq!(device.registers.ip_index(), 5);
    assert_eq!(device.registers.last_ip(), None);
    assert_eq!(device.unique.len(), 0);
    assert_eq!(device.instructions.len(), 2);
    assert_eq!(enter(&mut terminal, &mut device, "inspect 0"), Ok(Outcome::Redraw));
    assert_eq!(enter(&mut terminal, &mut device, "inspect 1"), Ok(Outcome::Redraw));
    assert_eq!(enter(&mut terminal, &mut device, "frobnicate now"), Ok(Outcome::Redraw));
    assert_eq!(
        terminal.frame(&device).messages,
        vec![
            Message::Info("unique(seen: 1, last: Some(7))".to_string()),
            Message::Info("unique(seen: 0, last: None)".to_string()),
            Message::Info("not(unique(seen: 0, last: None))".to_string()),
            Message::Error("no such command: frobnicate".to_string()),
        ]
    );
    assert_eq!(enter(&mut terminal, &mut device, "help"), Ok(Outcome::Redraw));
    assert_eq!(terminal.messages().len(), 21);
}

#[test]
fn load_asks_for_the_file_and_takes_it() {
    let mut device = Device::default();
    let mut terminal = session();
    assert_eq!(enter(&mut terminal, &mut device, "load"), Ok(Outcome::Redraw));
    assert_eq!(
        enter(&mut terminal, &mut device, "load prog.txt more"),
        Ok(Outcome::Load("prog.txt".to_string()))
    );
    terminal.loaded(&mut device, "prog.txt", Ok(&["#ip 1", "seti 1 2 3"]));
    assert_eq!(device.instructions.len(), 1);
    assert_eq!(device.registers.ip_index(), 1);
    terminal.loaded(&mut device, "prog.txt", Err(Error::Io("no such file".to_string())));
    assert_eq!(device.instructions.len(), 1);
    terminal.loaded(&mut device, "bad.txt", Ok(&["seti 1 2 3", "what"]));
    assert_eq!(device.instructions.len(), 1);
    assert_eq!(
        errors(&terminal.frame(&device)),
        vec![
            "expected: load <path>",
            "problem when loading `prog.txt`: no such file",
            "problem when loading `bad.txt`: bad instruction: what",
        ]
    );
}

#[test]
fn running_evaluates_every_breakpoint() {
    let mut device = loaded(&["#ip 5", "seti 7 0 0", "seti 7 0 1"]);
    let mut terminal = Terminal::new().hook(Hook::Line(0)).hook(Hook::unique(0));
    let _ = terminal.frame(&device);
    assert!(!terminal.pause_if_halted(&device));
    device.clear();
    device.step().unwrap();
    assert_eq!(terminal.free_key(&mut device, None), Ok(Outcome::Redraw));
    assert!(terminal.is_interactive());
    assert_eq!(terminal.hooks()[1].inspect().to_string(), "unique(seen: 1, last: Some(7))");
    assert!(device.registers.is_read(0usize));

    let mut terminal = Terminal::new().hook(Hook::Line(5));
    assert_eq!(terminal.free_key(&mut device, Some(Key::Down)), Ok(Outcome::Run));
    assert_eq!(terminal.scroll(), 1);
    assert_eq!(terminal.free_key(&mut device, Some(Key::Char('p'))), Ok(Outcome::Redraw));
    assert!(terminal.is_interactive());
    let mut terminal = Terminal::new();
    assert_eq!(terminal.free_key(&mut device, Some(Key::Char('q'))), Ok(Outcome::Exit));
    assert_eq!(terminal.free_key(&mut device, Some(Key::Char('x'))), Ok(Outcome::Run));

    let mut terminal = Terminal::new().hook(Hook::Op(Op::Eq, 9, 0)).hook(Hook::unique(0));
    assert_eq!(terminal.free_key(&mut device, None), Err(Error::BadRegister(9)));
    assert_eq!(terminal.hooks()[1], Hook::unique(0));

    device.step().unwrap();
    device.step().unwrap();
    assert!(device.halted);
    let mut terminal = Terminal::new();
    assert!(terminal.pause_if_halted(&device));
    assert!(terminal.is_interactive());
}

#[test]
fn noop_visuals_never_stop() {
    let mut device = loaded(&["#ip 0", "seti 1 0 1"]);
    let mut visuals = NoopVisuals;
    assert_eq!(visuals.setup(), Ok(()));
    assert_eq!(visuals.draw(&mut device), Ok(false));
    assert_eq!(visuals.done(&mut device), Ok(()));
    assert_eq!(device.count, 0);
    assert_eq!(Action::Pause, Action::Pause);
}
