//! The debugger session: the breakpoints, the command line, the messages for
//! the user, and what the debugger does on each key.
use vstd::prelude::*;
use crate::device::{load_spec, Device, DeviceView};
use crate::error::{error_text, Error};
use crate::events::{event_text, push_event, Event, Key};
use crate::hook::{
    display_text, hooks_view, inspect_text, reset_spec, test_spec, Action, Hook,
    HookView,
};
use crate::instruction::{human_text, instruction_text};
use crate::registers::reg_name_spec;
use crate::sets::index_set_len;
use crate::registers::RegistersView;
use crate::parser::{hook_spec, parse_chars, parse_error_text, register_of, register_spec};
use crate::text::{
    chars_of, find, find_from, int_text, is_word, pad_right, parse_i64, push_i64, push_padded, parse_i64_spec, parse_usize,
    parse_usize_spec, pieces_view, pop_char, push_char, push_chars, push_usize, slice, split,
    split_spec, string_of,
};

verus! {

/// A message for the user.
#[derive(Debug, PartialEq, Eq)]
pub enum Message {
    Error(String),
    Info(String),
    Bold(String),
}

/// A message as a mathematical value.
pub enum MessageView {
    Error(Seq<char>),
    Info(Seq<char>),
    Bold(Seq<char>),
}

impl View for Message {
    type V = MessageView;

    open spec fn view(&self) -> MessageView {
        match *self {
            Message::Error(text) => MessageView::Error(text@),
            Message::Info(text) => MessageView::Info(text@),
            Message::Bold(text) => MessageView::Bold(text@),
        }
    }
}

impl Message {
    /// A message that reports an error.
    pub fn error(error: String) -> (m: Message)
        ensures
            m@ == MessageView::Error(error@),
    {
        Message::Error(error)
    }

    /// A message that informs.
    pub fn info(error: String) -> (m: Message)
        ensures
            m@ == MessageView::Info(error@),
    {
        Message::Info(error)
    }

    /// A message that stands out.
    pub fn bold(error: String) -> (m: Message)
        ensures
            m@ == MessageView::Bold(error@),
    {
        Message::Bold(error)
    }
}

/// The messages in `v` as mathematical values.
pub open spec fn messages_view(v: Seq<Message>) -> Seq<MessageView> {
    Seq::new(v.len(), |i: int| v[i]@)
}

/// Appends an informing message with the text `text`.
pub fn push_info(messages: &mut Vec<Message>, text: &str)
    ensures
        messages_view(final(messages)@) == messages_view(old(messages)@).push(
            MessageView::Info(text@),
        ),
{
    messages.push(Message::info(String::from_str(text)));
}

/// Appends a message that stands out, with the text `text`.
pub fn push_bold(messages: &mut Vec<Message>, text: &str)
    ensures
        messages_view(final(messages)@) == messages_view(old(messages)@).push(
            MessageView::Bold(text@),
        ),
{
    messages.push(Message::bold(String::from_str(text)));
}

/// The help: the commands and the keys of the debugger.
pub open spec fn help_messages() -> Seq<MessageView> {
    seq![
        MessageView::Bold("Commands:"@),
        MessageView::Info("  help - show this help."@),
        MessageView::Info("  exit, q - close this session."@),
        MessageView::Info("  load <path> - load an elfcode program from the given path."@),
        MessageView::Info("  reset - reset the device back to its initial state."@),
        MessageView::Info("  break, b <expr> - break when the given expression holds true."@),
        MessageView::Info(
            "    <expr> can be one of: line(<line>), read(<reg>), write(<reg>), not(<expr>),"@,
        ),
        MessageView::Info(
            "    all(<expr1>[, <expr2>]), unique(<reg>), or <op>(<reg>, <value>)."@,
        ),
        MessageView::Info("    <reg> is a registry, like `a` or `ip`."@),
        MessageView::Info("    <value> is a registry value, like `42` or `100000`."@),
        MessageView::Info("    <op> can be one of `eq`, `lt`, `lte`, `gt`, or `gte`."@),
        MessageView::Info(
            "  clear, cl [index] - clear breakpoint, if [index] is blank removed the last one."@,
        ),
        MessageView::Info("  inspect [index] - inspect the state of a breakpoint."@),
        MessageView::Info("  step, s - run a single instruction."@),
        MessageView::Info("  continue, c - continue running in non-interactive mode."@),
        MessageView::Info(
            "  set <reg> <value> - set the register <reg> to the given value <value>."@,
        ),
        MessageView::Bold("Keys:"@),
        MessageView::Info("  <up>|<down> - scroll the instructions window up and down."@),
        MessageView::Info(
            "  <F1> - toggle between raw and human decoding of instructions."@,
        ),
        MessageView::Info("  <q> - quit when in non-interactive mode."@),
        MessageView::Info("  <p> - pause when in non-interactive mode."@),
    ]
}

/// Appends the help to `messages`.
pub fn help_command(messages: &mut Vec<Message>)
    ensures
        messages_view(final(messages)@) == messages_view(old(messages)@) + help_messages(),
{
    push_bold(messages, "Commands:");
    push_info(messages, "  help - show this help.");
    push_info(messages, "  exit, q - close this session.");
    push_info(messages, "  load <path> - load an elfcode program from the given path.");
    push_info(messages, "  reset - reset the device back to its initial state.");
    push_info(messages, "  break, b <expr> - break when the given expression holds true.");
    push_info(
        messages,
        "    <expr> can be one of: line(<line>), read(<reg>), write(<reg>), not(<expr>),",
    );
    push_info(messages, "    all(<expr1>[, <expr2>]), unique(<reg>), or <op>(<reg>, <value>).");
    push_info(messages, "    <reg> is a registry, like `a` or `ip`.");
    push_info(messages, "    <value> is a registry value, like `42` or `100000`.");
    push_info(messages, "    <op> can be one of `eq`, `lt`, `lte`, `gt`, or `gte`.");
    push_info(
        messages,
        "  clear, cl [index] - clear breakpoint, if [index] is blank removed the last one.",
    );
    push_info(messages, "  inspect [index] - inspect the state of a breakpoint.");
    push_info(messages, "  step, s - run a single instruction.");
    push_info(messages, "  continue, c - continue running in non-interactive mode.");
    push_info(messages, "  set <reg> <value> - set the register <reg> to the given value <value>.");
    push_bold(messages, "Keys:");
    push_info(messages, "  <up>|<down> - scroll the instructions window up and down.");
    push_info(messages, "  <F1> - toggle between raw and human decoding of instructions.");
    push_info(messages, "  <q> - quit when in non-interactive mode.");
    push_info(messages, "  <p> - pause when in non-interactive mode.");
}

/// A line of a list on the screen.
#[derive(Debug, PartialEq, Eq)]
pub struct Line {
    /// What the line says.
    pub text: String,
    /// Whether the line stands out from the others.
    pub standout: bool,
}

/// A line as a mathematical value.
pub struct LineView {
    pub text: Seq<char>,
    pub standout: bool,
}

impl View for Line {
    type V = LineView;

    open spec fn view(&self) -> LineView {
        LineView { text: self.text@, standout: self.standout }
    }
}

/// The lines in `v` as mathematical values.
pub open spec fn lines_view(v: Seq<Line>) -> Seq<LineView> {
    Seq::new(v.len(), |i: int| v[i]@)
}

/// The texts in `v` as sequences of characters.
pub open spec fn texts_view(v: Seq<String>) -> Seq<Seq<char>> {
    Seq::new(v.len(), |i: int| v[i]@)
}

/// What the screen shows.
#[derive(Debug, PartialEq, Eq)]
pub struct Frame {
    /// The heading of the list of instructions.
    pub title: String,
    /// The program from the first line shown; the line that ran last stands
    /// out.
    pub instructions: Vec<Line>,
    /// The six registers; those written to stand out.
    pub registers: Vec<Line>,
    /// The breakpoints.
    pub breakpoints: Vec<String>,
    /// The counters of the machine.
    pub device: Vec<String>,
    /// The messages, oldest first.
    pub messages: Vec<Message>,
    /// The command line, where the debugger waits for commands.
    pub prompt: Option<String>,
}

/// A frame as a mathematical value.
pub struct FrameView {
    pub title: Seq<char>,
    pub instructions: Seq<LineView>,
    pub registers: Seq<LineView>,
    pub breakpoints: Seq<Seq<char>>,
    pub device: Seq<Seq<char>>,
    pub messages: Seq<MessageView>,
    pub prompt: Option<Seq<char>>,
}

impl View for Frame {
    type V = FrameView;

    open spec fn view(&self) -> FrameView {
        FrameView {
            title: self.title@,
            instructions: lines_view(self.instructions@),
            registers: lines_view(self.registers@),
            breakpoints: texts_view(self.breakpoints@),
            device: texts_view(self.device@),
            messages: messages_view(self.messages@),
            prompt: match self.prompt {
                Some(prompt) => Some(prompt@),
                None => None,
            },
        }
    }
}

/// How program line `line` of the machine `d` is shown: its number, padded
/// to three characters, `: `, and the instruction, as an assignment where
/// `human` holds. The line with which the last instruction was fetched
/// stands out.
pub open spec fn instruction_line(d: DeviceView, line: int, human: bool) -> LineView {
    LineView {
        text: pad_right(int_text(line), 3) + ": "@ + if human {
            human_text(d.instructions[line], d.registers.ip)
        } else {
            instruction_text(d.instructions[line])
        },
        standout: d.registers.last_ip == Some(line as usize),
    }
}

/// How register `reg` of the machine `d` is shown: its name (or its number,
/// where `human` does not hold), padded to two characters, `*` if it has
/// been read and a space if not, `= `, and its value. A register that has
/// been written to stands out.
pub open spec fn register_line(d: DeviceView, reg: int, human: bool) -> LineView {
    LineView {
        text: pad_right(
            if human {
                reg_name_spec(d.registers.ip, reg as usize)
            } else {
                int_text(reg)
            },
            2,
        ) + (if d.registers.read.contains(reg as usize) {
            "*"@
        } else {
            " "@
        }) + "= "@ + int_text(d.registers.cells[reg] as int),
        standout: d.registers.written.contains(reg as usize),
    }
}

/// How breakpoint `index` is shown: its index, padded to two characters,
/// `: `, and the hook as the hook language writes it.
pub open spec fn breakpoint_line(hooks: Seq<HookView>, index: int, ip: usize) -> Seq<char> {
    pad_right(int_text(index), 2) + ": "@ + display_text(hooks[index], ip)
}

/// The messages that every frame adds for the state the debugger is in.
pub open spec fn status_messages(t: TerminalView, d: DeviceView) -> Seq<MessageView> {
    let halted = if d.halted {
        seq![
            MessageView::Bold("device is halted"@),
            MessageView::Info("use `reset` to unhalt"@),
        ]
    } else {
        Seq::empty()
    };
    if t.interactive {
        halted
    } else {
        halted.push(
            MessageView::Bold(
                "running in non-interactive mode, press `p` to pause or `q` to quit"@,
            ),
        )
    }
}

/// What the screen shows of the session `t` and the machine `d`. The
/// program is shown from line `t.scroll` on.
pub open spec fn frame_spec(t: TerminalView, d: DeviceView) -> FrameView {
    let shown = if t.scroll <= d.instructions.len() {
        d.instructions.len() - t.scroll
    } else {
        0
    };
    FrameView {
        title: if t.human_decoding {
            "Instructions (`F1` for Raw)"@
        } else {
            "Instructions (`F1` for Human)"@
        },
        instructions: Seq::new(
            shown as nat,
            |i: int| instruction_line(d, t.scroll + i, t.human_decoding),
        ),
        registers: Seq::new(6, |reg: int| register_line(d, reg, t.human_decoding)),
        breakpoints: Seq::new(
            t.hooks.len(),
            |i: int| breakpoint_line(t.hooks, i, d.registers.ip),
        ),
        device: seq![
            "Count: "@ + int_text(d.count as int),
            "Unique: "@ + int_text(d.unique.len() as int),
        ],
        messages: t.messages + status_messages(t, d),
        prompt: if t.interactive {
            Some("> "@ + t.input)
        } else {
            None
        },
    }
}

/// What the debugger does next.
#[derive(Debug, PartialEq, Eq)]
pub enum Outcome {
    /// The session ends.
    Exit,
    /// The machine runs one step.
    Run,
    /// The screen is drawn again, and more keys are taken.
    Redraw,
    /// The next key is awaited; the screen stays.
    Wait,
    /// The program at the given path is to be read and handed over.
    Load(String),
}

/// An outcome as a mathematical value.
pub enum OutcomeView {
    Exit,
    Run,
    Redraw,
    Wait,
    Load(Seq<char>),
}

impl View for Outcome {
    type V = OutcomeView;

    open spec fn view(&self) -> OutcomeView {
        match *self {
            Outcome::Exit => OutcomeView::Exit,
            Outcome::Run => OutcomeView::Run,
            Outcome::Redraw => OutcomeView::Redraw,
            Outcome::Wait => OutcomeView::Wait,
            Outcome::Load(path) => OutcomeView::Load(path@),
        }
    }
}

/// The session as a mathematical value.
pub struct TerminalView {
    /// Whether the debugger waits for commands (else the machine runs).
    pub interactive: bool,
    /// The breakpoints.
    pub hooks: Seq<HookView>,
    /// The command line as typed so far.
    pub input: Seq<char>,
    /// The last command that was entered.
    pub last: Option<Seq<char>>,
    /// The messages that have not been shown yet.
    pub messages: Seq<MessageView>,
    /// The first program line on the screen.
    pub scroll: usize,
    /// Whether instructions are shown as assignments.
    pub human_decoding: bool,
    /// While the machine runs, the screen is drawn once in so many steps.
    pub noninteractive_step: usize,
}

/// The session of the debugger.
pub struct Terminal {
    interactive: bool,
    hooks: Vec<Hook>,
    input: String,
    /// Last command run.
    last: Option<String>,
    messages: Vec<Message>,
    scroll: usize,
    /// If we should use human-readable decoding for instructions.
    human_decoding: bool,
    /// Visualization step when running in non-interactive mode.
    noninteractive_step: usize,
}

/// What scrolling and the keys that need no command line do to the scroll
/// position, the decoding and the messages: `Up` and `Down` move the first
/// line shown by one, within the program of `len` lines; `F1` switches the
/// decoding; any other event is reported as unhandled.
pub open spec fn generic_spec(t: TerminalView, event: Event, len: nat) -> TerminalView {
    match event {
        Event::Input(Key::Up) => TerminalView {
            scroll: if t.scroll > 0 {
                (t.scroll - 1) as usize
            } else {
                0
            },
            ..t
        },
        Event::Input(Key::Down) => {
            let down = if t.scroll < usize::MAX {
                t.scroll + 1
            } else {
                t.scroll as int
            };
            let bottom = if len > 0 {
                len - 1
            } else {
                0
            };
            TerminalView {
                scroll: if down <= bottom {
                    down as usize
                } else {
                    bottom as usize
                },
                ..t
            }
        },
        Event::Input(Key::F(1)) => TerminalView { human_decoding: !t.human_decoding, ..t },
        other => TerminalView {
            messages: t.messages.push(
                MessageView::Error("unhandled event: "@ + event_text(other)),
            ),
            ..t
        },
    }
}

/// The breakpoint that a command with the arguments `tokens` speaks of,
/// where there are `hooks` breakpoints: the one whose index is the first
/// argument, or the last one where there is no argument. Where the argument
/// is no index, or there is neither an argument nor a breakpoint, the
/// message that says so.
pub open spec fn index_spec(tokens: Seq<Seq<char>>, hooks: nat) -> Result<usize, MessageView> {
    if tokens.len() > 0 {
        match parse_usize_spec(tokens[0]) {
            Some(index) => Ok(index),
            None => Err(MessageView::Error("bad index `"@ + tokens[0] + "`"@)),
        }
    } else if hooks == 0 || hooks > usize::MAX {
        Err(MessageView::Error("no breakpoints to clear"@))
    } else {
        Ok((hooks - 1) as usize)
    }
}

/// What `clear` with the arguments `tokens` does: the breakpoint that the
/// arguments speak of is removed, or a message says why none was.
pub open spec fn clear_spec(t: TerminalView, tokens: Seq<Seq<char>>) -> TerminalView {
    match index_spec(tokens, t.hooks.len()) {
        Err(message) => TerminalView { messages: t.messages.push(message), ..t },
        Ok(index) => if index >= t.hooks.len() {
            TerminalView {
                messages: t.messages.push(
                    MessageView::Error("bad hook index `"@ + int_text(index as int) + "`"@),
                ),
                ..t
            }
        } else {
            TerminalView { hooks: t.hooks.remove(index as int), ..t }
        },
    }
}

/// What `inspect` with the arguments `tokens` does: a message shows the
/// state of the breakpoint that the arguments speak of, or says why none is
/// shown.
pub open spec fn inspect_spec(t: TerminalView, tokens: Seq<Seq<char>>) -> TerminalView {
    let message = match index_spec(tokens, t.hooks.len()) {
        Err(message) => message,
        Ok(index) => if index >= t.hooks.len() {
            MessageView::Error("no hook with index `"@ + int_text(index as int) + "`"@)
        } else {
            MessageView::Info(inspect_text(t.hooks[index as int]))
        },
    };
    TerminalView { messages: t.messages.push(message), ..t }
}

/// What `set` with the arguments `tokens` does to the messages and the
/// registers, and how it ends: the register named by the first argument gets
/// the value written by the second, which is recorded as a write. Where an
/// argument is missing or wrong, messages say so and the registers stay.
pub open spec fn set_spec(messages: Seq<MessageView>, d: DeviceView, tokens: Seq<Seq<char>>) -> (
    Seq<MessageView>,
    DeviceView,
    Result<(), Error>,
) {
    let usage = MessageView::Error("expected: set <register> <value>"@);
    if tokens.len() == 0 {
        (messages.push(usage), d, Ok(()))
    } else {
        match register_spec(tokens[0], d.registers.ip) {
            None => (
                messages.push(MessageView::Error("bad register: "@ + tokens[0])).push(usage),
                d,
                Ok(()),
            ),
            Some(register) => if tokens.len() < 2 {
                (messages.push(usage), d, Ok(()))
            } else {
                match parse_i64_spec(tokens[1]) {
                    None => (
                        messages.push(MessageView::Error("bad value `"@ + tokens[1] + "`"@)),
                        d,
                        Ok(()),
                    ),
                    Some(value) => {
                        let written = d.registers.touch_written(register);
                        if register < 6 {
                            (
                                messages,
                                DeviceView { registers: written.store(register, value), ..d },
                                Ok(()),
                            )
                        } else {
                            (
                                messages,
                                DeviceView { registers: written, ..d },
                                Err(Error::BadRegister(register)),
                            )
                        }
                    },
                }
            },
        }
    }
}

/// What `break` with the condition `condition` does: the hook that the
/// condition writes becomes the last breakpoint, or a message says why the
/// condition is no hook. Register `ip` is the one that the name `ip` stands
/// for.
pub open spec fn break_spec(t: TerminalView, condition: Seq<char>, ip: usize) -> TerminalView {
    match hook_spec(condition, 0, ip).0 {
        Ok(hook) => TerminalView { hooks: t.hooks.push(hook), ..t },
        Err(e) => TerminalView {
            messages: t.messages.push(
                MessageView::Error("bad condition: "@ + parse_error_text(e)),
            ),
            ..t
        },
    }
}

/// What evaluating the first `n` of the breakpoints `hooks` in order does:
/// the breakpoints and the registers afterwards, and whether one of them
/// paused. Every breakpoint is evaluated, also after one has paused; an
/// error ends the evaluation.
pub open spec fn test_hooks_spec(hooks: Seq<HookView>, r: RegistersView, n: nat) -> (
    Seq<HookView>,
    RegistersView,
    Result<bool, Error>,
)
    decreases n,
{
    if n == 0 || n > hooks.len() {
        (hooks, r, Ok(false))
    } else {
        let (before, r, result) = test_hooks_spec(hooks, r, (n - 1) as nat);
        match result {
            Err(e) => (before, r, Err(e)),
            Ok(paused) => {
                let (hook, r, result) = test_spec(hooks[n - 1], r);
                (
                    before.update(n - 1, hook),
                    r,
                    match result {
                        Ok(action) => Ok(paused || action == Action::Pause),
                        Err(e) => Err(e),
                    },
                )
            },
        }
    }
}

/// Once the evaluation of the breakpoints has failed, it has ended.
pub proof fn lemma_test_hooks_stops(hooks: Seq<HookView>, r: RegistersView, k: nat, n: nat)
    requires
        k <= n <= hooks.len(),
    ensures
        test_hooks_spec(hooks, r, k).2 is Err ==> test_hooks_spec(hooks, r, n) == test_hooks_spec(
            hooks,
            r,
            k,
        ),
    decreases n,
{
    if k < n {
        lemma_test_hooks_stops(hooks, r, k, (n - 1) as nat);
    }
}

/// What a key does while the machine runs.
///
/// `q` ends the session and `p` makes the debugger wait for commands. Any
/// other key is handled as `generic_spec` says. Then — also where there was
/// no key — the breakpoints are evaluated: where one pauses, the debugger
/// waits for commands from now on; where none does, the machine runs on.
pub open spec fn free_key_spec(t: TerminalView, d: DeviceView, key: Option<Key>) -> (
    TerminalView,
    DeviceView,
    Result<OutcomeView, Error>,
) {
    if key == Some(Key::Char('q')) {
        (t, d, Ok(OutcomeView::Exit))
    } else if key == Some(Key::Char('p')) {
        (TerminalView { interactive: true, ..t }, d, Ok(OutcomeView::Redraw))
    } else {
        let t = match key {
            Some(key) => generic_spec(t, Event::Input(key), d.instructions.len()),
            None => t,
        };
        let (hooks, registers, result) = test_hooks_spec(t.hooks, d.registers, t.hooks.len());
        let d = DeviceView { registers, ..d };
        match result {
            Err(e) => (TerminalView { hooks, ..t }, d, Err(e)),
            Ok(paused) => {
                let interactive = t.interactive || paused;
                (
                    TerminalView { hooks, interactive, ..t },
                    d,
                    Ok(
                        if interactive {
                            OutcomeView::Redraw
                        } else {
                            OutcomeView::Run
                        },
                    ),
                )
            },
        }
    }
}

/// The breakpoints `hooks`, each reset.
pub open spec fn reset_all_spec(hooks: Seq<HookView>) -> Seq<HookView> {
    Seq::new(hooks.len(), |i: int| reset_spec(hooks[i]))
}

/// The name of the command that `line` gives: what stands before the first
/// space.
pub open spec fn command_name(line: Seq<char>) -> Seq<char> {
    line.subrange(0, find_from(line, ' ', 0))
}

/// The arguments of the command that `line` gives: what stands behind the
/// first space, split at every space. No arguments where `line` holds no
/// space.
pub open spec fn command_arguments(line: Seq<char>) -> Seq<Seq<char>> {
    let end = find_from(line, ' ', 0);
    if 0 <= end < line.len() {
        split_spec(line.subrange(end + 1, line.len() as int), ' ')
    } else {
        Seq::empty()
    }
}

/// What the command line `line` does, and what the debugger does next.
///
/// | command | effect |
/// |---|---|
/// | `help` | the help is shown |
/// | `reset` | the breakpoints and the machine are reset |
/// | `c`, `continue` | the machine runs on, unless it is halted |
/// | `q`, `exit`, `quit` | the session ends |
/// | `s`, `step` | the machine runs one step, unless it is halted |
/// | `b`, `break` | the condition behind it becomes a breakpoint |
/// | `load` | the program at the path behind it is asked for |
/// | `clear`, `cl` | a breakpoint is removed |
/// | `inspect` | the state of a breakpoint is shown |
/// | `set` | a register is written |
///
/// Any other command is reported as unknown.
pub open spec fn command_spec(t: TerminalView, d: DeviceView, line: Seq<char>) -> (
    TerminalView,
    DeviceView,
    Result<OutcomeView, Error>,
) {
    let name = command_name(line);
    let end = find_from(line, ' ', 0);
    let arguments = command_arguments(line);
    let say = |message: MessageView| TerminalView { messages: t.messages.push(message), ..t };
    if name == "help"@ {
        (TerminalView { messages: t.messages + help_messages(), ..t }, d, Ok(OutcomeView::Redraw))
    } else if name == "reset"@ {
        (
            TerminalView { hooks: reset_all_spec(t.hooks), ..t },
            d.restarted(),
            Ok(OutcomeView::Redraw),
        )
    } else if name == "c"@ || name == "continue"@ {
        if d.halted {
            (
                say(MessageView::Error("can't continue, device is halted!"@)),
                d,
                Ok(OutcomeView::Redraw),
            )
        } else {
            (TerminalView { interactive: false, ..t }, d, Ok(OutcomeView::Run))
        }
    } else if name == "q"@ || name == "exit"@ || name == "quit"@ {
        (t, d, Ok(OutcomeView::Exit))
    } else if name == "s"@ || name == "step"@ {
        if d.halted {
            (say(MessageView::Error("can't step, device is halted!"@)), d, Ok(OutcomeView::Redraw))
        } else {
            (t, d, Ok(OutcomeView::Run))
        }
    } else if name == "b"@ || name == "break"@ {
        if 0 <= end < line.len() {
            (
                break_spec(t, line.subrange(end + 1, line.len() as int), d.registers.ip),
                d,
                Ok(OutcomeView::Redraw),
            )
        } else {
            (say(MessageView::Error("missing break condition!"@)), d, Ok(OutcomeView::Redraw))
        }
    } else if name == "load"@ {
        if arguments.len() > 0 {
            (t, d, Ok(OutcomeView::Load(arguments[0])))
        } else {
            (say(MessageView::Error("expected: load <path>"@)), d, Ok(OutcomeView::Redraw))
        }
    } else if name == "clear"@ || name == "cl"@ {
        (clear_spec(t, arguments), d, Ok(OutcomeView::Redraw))
    } else if name == "inspect"@ {
        (inspect_spec(t, arguments), d, Ok(OutcomeView::Redraw))
    } else if name == "set"@ {
        let (messages, d, result) = set_spec(t.messages, d, arguments);
        (
            TerminalView { messages, ..t },
            d,
            match result {
                Ok(()) => Ok(OutcomeView::Redraw),
                Err(e) => Err(e),
            },
        )
    } else {
        (say(MessageView::Error("no such command: "@ + name)), d, Ok(OutcomeView::Redraw))
    }
}

/// What Enter does: the command line, if something was typed, becomes the
/// last command and is emptied; then the last command is carried out. Where
/// nothing was typed and there is no last command, a message says so.
pub open spec fn enter_spec(t: TerminalView, d: DeviceView) -> (
    TerminalView,
    DeviceView,
    Result<OutcomeView, Error>,
) {
    let last = if t.input.len() > 0 {
        Some(t.input)
    } else {
        t.last
    };
    let t = TerminalView { input: Seq::empty(), last, ..t };
    match last {
        None => (
            TerminalView {
                messages: t.messages.push(MessageView::Error("no command to re-run"@)),
                ..t
            },
            d,
            Ok(OutcomeView::Redraw),
        ),
        Some(line) => command_spec(t, d, line),
    }
}

/// What a key does while the debugger waits for commands.
///
/// Backspace takes the last character from the command line, and a
/// character is added to it, except for a space on an empty command line,
/// which is ignored. Enter carries the command out. Ctrl-D on an empty
/// command line ends the session, and is ignored otherwise. Any other key is
/// handled as `generic_spec` says.
pub open spec fn interactive_key_spec(t: TerminalView, d: DeviceView, key: Key) -> (
    TerminalView,
    DeviceView,
    Result<OutcomeView, Error>,
) {
    match key {
        Key::Backspace => (
            TerminalView {
                input: if t.input.len() > 0 {
                    t.input.drop_last()
                } else {
                    t.input
                },
                ..t
            },
            d,
            Ok(OutcomeView::Redraw),
        ),
        Key::Char('\n') => enter_spec(t, d),
        Key::Char(c) => if c == ' ' && t.input.len() == 0 {
            (t, d, Ok(OutcomeView::Wait))
        } else {
            (TerminalView { input: t.input.push(c), ..t }, d, Ok(OutcomeView::Redraw))
        },
        Key::Ctrl('d') => if t.input.len() == 0 {
            (t, d, Ok(OutcomeView::Exit))
        } else {
            (t, d, Ok(OutcomeView::Wait))
        },
        other => (
            generic_spec(t, Event::Input(other), d.instructions.len()),
            d,
            Ok(OutcomeView::Redraw),
        ),
    }
}

impl View for Terminal {
    type V = TerminalView;

    closed spec fn view(&self) -> TerminalView {
        TerminalView {
            interactive: self.interactive,
            hooks: hooks_view(self.hooks),
            input: self.input@,
            last: match self.last {
                Some(last) => Some(last@),
                None => None,
            },
            messages: messages_view(self.messages@),
            scroll: self.scroll,
            human_decoding: self.human_decoding,
            noninteractive_step: self.noninteractive_step,
        }
    }
}

impl Terminal {
    /// A session in which the machine runs; the help is its first message.
    pub fn new() -> (t: Terminal)
        ensures
            t@ == (TerminalView {
                interactive: false,
                hooks: Seq::empty(),
                input: Seq::empty(),
                last: None,
                messages: help_messages(),
                scroll: 0,
                human_decoding: true,
                noninteractive_step: 1_000_000,
            }),
    {
        let mut messages: Vec<Message> = Vec::new();
        help_command(&mut messages);
        let t = Terminal {
            interactive: false,
            hooks: Vec::new(),
            input: String::new(),
            last: None,
            messages,
            scroll: 0,
            human_decoding: true,
            noninteractive_step: 1_000_000,
        };
        assert(t@.hooks =~= Seq::empty());
        t
    }

    /// The session, waiting for commands.
    pub fn interactive(self) -> (t: Terminal)
        ensures
            t@ == (TerminalView { interactive: true, ..self@ }),
    {
        let mut t = self;
        t.interactive = true;
        t
    }

    /// The session with one more breakpoint.
    pub fn hook(self, hook: Hook) -> (t: Terminal)
        ensures
            t@ == (TerminalView { hooks: self@.hooks.push(hook@), ..self@ }),
    {
        let mut t = self;
        let ghost before = hooks_view(t.hooks);
        t.hooks.push(hook);
        assert(hooks_view(t.hooks) =~= before.push(hook@));
        t
    }

    /// The breakpoints.
    pub fn hooks(&self) -> (r: &Vec<Hook>)
        ensures
            hooks_view(*r) == self@.hooks,
    {
        &self.hooks
    }

    /// The messages that have not been shown yet.
    pub fn messages(&self) -> (r: &Vec<Message>)
        ensures
            messages_view(r@) == self@.messages,
    {
        &self.messages
    }

    /// The command line as typed so far.
    pub fn input(&self) -> (r: &str)
        ensures
            r@ == self@.input,
    {
        self.input.as_str()
    }

    /// The first program line on the screen.
    pub fn scroll(&self) -> (r: usize)
        ensures
            r == self@.scroll,
    {
        self.scroll
    }

    /// Whether instructions are shown as assignments.
    pub fn human_decoding(&self) -> (r: bool)
        ensures
            r == self@.human_decoding,
    {
        self.human_decoding
    }

    /// Whether the debugger waits for commands.
    pub fn is_interactive(&self) -> (r: bool)
        ensures
            r == self@.interactive,
    {
        self.interactive
    }

    /// Appends a message.
    fn push_message(&mut self, message: Message)
        ensures
            final(self)@ == (TerminalView {
                messages: old(self)@.messages.push(message@),
                ..old(self)@
            }),
    {
        let ghost before = messages_view(self.messages@);
        self.messages.push(message);
        assert(messages_view(self.messages@) =~= before.push(message@));
    }

    /// Appends an error message with the text `prefix` followed by `text`.
    fn push_error_about(&mut self, prefix: &str, text: &[char])
        ensures
            final(self)@ == (TerminalView {
                messages: old(self)@.messages.push(MessageView::Error(prefix@ + text@)),
                ..old(self)@
            }),
    {
        let mut out = String::from_str(prefix);
        push_chars(&mut out, text);
        self.push_message(Message::error(out));
    }

    /// The breakpoint that a command with the arguments `tokens` speaks of.
    fn index_argument(&self, tokens: &[Vec<char>]) -> (r: Result<usize, Message>)
        ensures
            match r {
                Ok(index) => index_spec(pieces_view(tokens@), self@.hooks.len()) == Ok::<
                    usize,
                    MessageView,
                >(index),
                Err(message) => index_spec(pieces_view(tokens@), self@.hooks.len()) == Err::<
                    usize,
                    MessageView,
                >(message@),
            },
    {
        if tokens.len() > 0 {
            match parse_usize(tokens[0].as_slice()) {
                Some(index) => Ok(index),
                None => {
                    let mut out = String::from_str("bad index `");
                    push_chars(&mut out, tokens[0].as_slice());
                    out.append("`");
                    Err(Message::error(out))
                },
            }
        } else if self.hooks.len() == 0 {
            Err(Message::error(String::from_str("no breakpoints to clear")))
        } else {
            Ok(self.hooks.len() - 1)
        }
    }

    /// Removes the breakpoint that the arguments `tokens` speak of.
    pub fn clear_command(&mut self, tokens: &[Vec<char>])
        ensures
            final(self)@ == clear_spec(old(self)@, pieces_view(tokens@)),
    {
        let index = match self.index_argument(tokens) {
            Ok(index) => index,
            Err(message) => {
                self.push_message(message);
                return ;
            },
        };
        if index >= self.hooks.len() {
            let mut out = String::from_str("bad hook index `");
            push_usize(&mut out, index);
            out.append("`");
            self.push_message(Message::error(out));
            return ;
        }
        let ghost before = hooks_view(self.hooks);
        self.hooks.remove(index);
        assert(hooks_view(self.hooks) =~= before.remove(index as int));
    }

    /// Shows the state of the breakpoint that the arguments `tokens` speak
    /// of.
    pub fn inspect_command(&mut self, tokens: &[Vec<char>])
        ensures
            final(self)@ == inspect_spec(old(self)@, pieces_view(tokens@)),
    {
        let index = match self.index_argument(tokens) {
            Ok(index) => index,
            Err(message) => {
                self.push_message(message);
                return ;
            },
        };
        if index < self.hooks.len() {
            let text = self.hooks[index].inspect().to_string();
            self.push_message(Message::info(text));
        } else {
            let mut out = String::from_str("no hook with index `");
            push_usize(&mut out, index);
            out.append("`");
            self.push_message(Message::error(out));
        }
    }

    /// Writes the value that the second of `tokens` writes to the register
    /// that the first of them names.
    pub fn set_command(&mut self, device: &mut Device, tokens: &[Vec<char>]) -> (r: Result<
        (),
        Error,
    >)
        ensures
            ({
                let (messages, d, result) = set_spec(
                    old(self)@.messages,
                    old(device)@,
                    pieces_view(tokens@),
                );
                &&& final(self)@ == (TerminalView { messages, ..old(self)@ })
                &&& final(device)@ == d
                &&& r == result
            }),
    {
        let reg = match self.register(device, tokens) {
            Some(reg) => reg,
            None => {
                self.push_message(
                    Message::error(String::from_str("expected: set <register> <value>")),
                );
                return Ok(());
            },
        };
        if tokens.len() < 2 {
            self.push_message(Message::error(String::from_str("expected: set <register> <value>")));
            return Ok(());
        }
        let value = match parse_i64(tokens[1].as_slice()) {
            Some(value) => value,
            None => {
                let mut out = String::from_str("bad value `");
                push_chars(&mut out, tokens[1].as_slice());
                out.append("`");
                self.push_message(Message::error(out));
                return Ok(());
            },
        };
        *device.registers.reg_mut(reg)? = value;
        Ok(())
    }

    /// The register that the first of `tokens` names; a message where it
    /// names none.
    fn register(&mut self, device: &Device, tokens: &[Vec<char>]) -> (r: Option<usize>)
        ensures
            tokens.len() == 0 ==> r.is_none() && final(self)@ == old(self)@,
            tokens.len() > 0 ==> r == register_spec(tokens@[0]@, device@.registers.ip),
            tokens.len() > 0 && r.is_some() ==> final(self)@ == old(self)@,
            tokens.len() > 0 && r.is_none() ==> final(self)@ == (TerminalView {
                messages: old(self)@.messages.push(
                    MessageView::Error("bad register: "@ + tokens@[0]@),
                ),
                ..old(self)@
            }),
    {
        if tokens.len() == 0 {
            return None;
        }
        let name = tokens[0].as_slice();
        let reg = register_of(name, device.registers.ip_index());
        if reg.is_none() {
            self.push_error_about("bad register: ", name);
        }
        reg
    }

    /// Makes the hook that `condition` writes the last breakpoint.
    pub fn break_command(&mut self, device: &Device, condition: Vec<char>)
        ensures
            final(self)@ == break_spec(old(self)@, condition@, device@.registers.ip),
    {
        match parse_chars(condition, device) {
            Ok(hook) => {
                let ghost before = hooks_view(self.hooks);
                self.hooks.push(hook);
                assert(hooks_view(self.hooks) =~= before.push(hook@));
            },
            Err(e) => {
                let mut out = String::from_str("bad condition: ");
                let text = e.to_string();
                out.append(text.as_str());
                self.push_message(Message::error(out));
            },
        }
    }

    /// Resets every breakpoint.
    fn reset_hooks(&mut self)
        ensures
            final(self)@ == (TerminalView {
                hooks: reset_all_spec(old(self)@.hooks),
                ..old(self)@
            }),
    {
        let ghost before = hooks_view(self.hooks);
        let mut i: usize = 0;
        while i < self.hooks.len()
            invariant
                i <= self.hooks.len(),
                self.hooks.len() == before.len(),
                self@ == (TerminalView { hooks: hooks_view(self.hooks), ..old(self)@ }),
                forall|j: int| 0 <= j < i ==> hooks_view(self.hooks)[j] == reset_spec(before[j]),
                forall|j: int| i <= j < before.len() ==> hooks_view(self.hooks)[j] == before[j],
            decreases self.hooks.len() - i,
        {
            let ghost current = hooks_view(self.hooks);
            self.hooks[i].reset();
            assert(hooks_view(self.hooks) =~= current.update(i as int, self.hooks[i as int]@));
            i += 1;
        }
        assert(hooks_view(self.hooks) =~= reset_all_spec(before));
    }

    /// Carries out the command that `line` gives.
    pub fn command(&mut self, device: &mut Device, line: &[char]) -> (r: Result<Outcome, Error>)
        ensures
            ({
                let (t, d, result) = command_spec(old(self)@, old(device)@, line@);
                &&& final(self)@ == t
                &&& final(device)@ == d
                &&& match r {
                    Ok(outcome) => result == Ok::<OutcomeView, Error>(outcome@),
                    Err(e) => result == Err::<OutcomeView, Error>(e),
                }
            }),
    {
        let end = find(line, ' ');
        let name = slice(line, 0, end);
        let name = name.as_slice();
        let tokens: Vec<Vec<char>> = if end < line.len() {
            let rest = slice(line, end + 1, line.len());
            split(rest.as_slice(), ' ')
        } else {
            Vec::new()
        };
        let tokens = tokens.as_slice();
        if is_word(name, "help") {
            help_command(&mut self.messages);
            Ok(Outcome::Redraw)
        } else if is_word(name, "reset") {
            self.reset_hooks();
            device.reset();
            Ok(Outcome::Redraw)
        } else if is_word(name, "c") || is_word(name, "continue") {
            if device.halted {
                self.push_message(
                    Message::error(String::from_str("can't continue, device is halted!")),
                );
                Ok(Outcome::Redraw)
            } else {
                self.interactive = false;
                Ok(Outcome::Run)
            }
        } else if is_word(name, "q") || is_word(name, "exit") || is_word(name, "quit") {
            Ok(Outcome::Exit)
        } else if is_word(name, "s") || is_word(name, "step") {
            if device.halted {
                self.push_message(Message::error(String::from_str("can't step, device is halted!")));
                Ok(Outcome::Redraw)
            } else {
                Ok(Outcome::Run)
            }
        } else if is_word(name, "b") || is_word(name, "break") {
            if end < line.len() {
                let condition = slice(line, end + 1, line.len());
                self.break_command(device, condition);
            } else {
                self.push_message(Message::error(String::from_str("missing break condition!")));
            }
            Ok(Outcome::Redraw)
        } else if is_word(name, "load") {
            if tokens.len() > 0 {
                Ok(Outcome::Load(string_of(tokens[0].as_slice())))
            } else {
                self.push_message(Message::error(String::from_str("expected: load <path>")));
                Ok(Outcome::Redraw)
            }
        } else if is_word(name, "clear") || is_word(name, "cl") {
            self.clear_command(tokens);
            Ok(Outcome::Redraw)
        } else if is_word(name, "inspect") {
            self.inspect_command(tokens);
            Ok(Outcome::Redraw)
        } else if is_word(name, "set") {
            self.set_command(device, tokens)?;
            Ok(Outcome::Redraw)
        } else {
            self.push_error_about("no such command: ", name);
            Ok(Outcome::Redraw)
        }
    }

    /// Handles Enter.
    pub fn enter(&mut self, device: &mut Device) -> (r: Result<Outcome, Error>)
        ensures
            ({
                let (t, d, result) = enter_spec(old(self)@, old(device)@);
                &&& final(self)@ == t
                &&& final(device)@ == d
                &&& match r {
                    Ok(outcome) => result == Ok::<OutcomeView, Error>(outcome@),
                    Err(e) => result == Err::<OutcomeView, Error>(e),
                }
            }),
    {
        if !self.input.as_str().is_empty() {
            self.last = Some(self.input.clone());
        }
        self.input = String::new();
        let line = match &self.last {
            Some(last) => chars_of(last.as_str()),
            None => {
                self.push_message(Message::error(String::from_str("no command to re-run")));
                return Ok(Outcome::Redraw);
            },
        };
        self.command(device, line.as_slice())
    }

    /// Handles a key while the debugger waits for commands.
    pub fn interactive_key(&mut self, device: &mut Device, key: Key) -> (r: Result<
        Outcome,
        Error,
    >)
        ensures
            ({
                let (t, d, result) = interactive_key_spec(old(self)@, old(device)@, key);
                &&& final(self)@ == t
                &&& final(device)@ == d
                &&& match r {
                    Ok(outcome) => result == Ok::<OutcomeView, Error>(outcome@),
                    Err(e) => result == Err::<OutcomeView, Error>(e),
                }
            }),
    {
        match key {
            Key::Backspace => {
                pop_char(&mut self.input);
                Ok(Outcome::Redraw)
            },
            Key::Char('\n') => self.enter(device),
            Key::Char(c) => {
                if c == ' ' && self.input.as_str().is_empty() {
                    return Ok(Outcome::Wait);
                }
                push_char(&mut self.input, c);
                Ok(Outcome::Redraw)
            },
            Key::Ctrl('d') => {
                if self.input.as_str().is_empty() {
                    Ok(Outcome::Exit)
                } else {
                    Ok(Outcome::Wait)
                }
            },
            other => {
                self.generic_handle(Event::Input(other), device.instructions.len());
                Ok(Outcome::Redraw)
            },
        }
    }

    /// Handles a key, or the lack of one, while the machine runs, and
    /// evaluates the breakpoints.
    #[verifier::loop_isolation(false)]
    pub fn free_key(&mut self, device: &mut Device, key: Option<Key>) -> (r: Result<
        Outcome,
        Error,
    >)
        ensures
            ({
                let (t, d, result) = free_key_spec(old(self)@, old(device)@, key);
                &&& final(self)@ == t
                &&& final(device)@ == d
                &&& match r {
                    Ok(outcome) => result == Ok::<OutcomeView, Error>(outcome@),
                    Err(e) => result == Err::<OutcomeView, Error>(e),
                }
            }),
    {
        match key {
            Some(Key::Char('q')) => {
                return Ok(Outcome::Exit);
            },
            Some(Key::Char('p')) => {
                self.interactive = true;
                return Ok(Outcome::Redraw);
            },
            Some(key) => {
                self.generic_handle(Event::Input(key), device.instructions.len());
            },
            None => {},
        }
        let ghost t = self@;
        let ghost d = device@;
        let mut paused = false;
        let mut i: usize = 0;
        while i < self.hooks.len()
            invariant
                i <= self.hooks.len(),
                self.hooks.len() == t.hooks.len(),
                self@ == (TerminalView { hooks: hooks_view(self.hooks), ..t }),
                device@ == (DeviceView { registers: device@.registers, ..d }),
                forall|j: int| i <= j < t.hooks.len() ==> hooks_view(self.hooks)[j] == t.hooks[j],
                test_hooks_spec(t.hooks, d.registers, i as nat) == (
                    hooks_view(self.hooks),
                    device@.registers,
                    Ok::<bool, Error>(paused),
                ),
            decreases self.hooks.len() - i,
        {
            let ghost current = hooks_view(self.hooks);
            let result = self.hooks[i].test(device);
            proof {
                assert(hooks_view(self.hooks) =~= current.update(i as int, self.hooks[i as int]@));
                lemma_test_hooks_stops(t.hooks, d.registers, (i + 1) as nat, t.hooks.len());
            }
            match result? {
                Action::Pause => {
                    paused = true;
                },
                Action::Nothing => {},
            }
            i += 1;
        }
        if paused {
            self.interactive = true;
        }
        if self.interactive {
            Ok(Outcome::Redraw)
        } else {
            Ok(Outcome::Run)
        }
    }

    /// Whether the screen is drawn now: always while the debugger waits for
    /// commands, and once in `noninteractive_step` steps while the machine
    /// runs.
    pub fn wants_draw(&self, device: &Device) -> (r: bool)
        ensures
            r == (self@.interactive || self@.noninteractive_step == 0 || device@.count
                % self@.noninteractive_step == 0),
    {
        self.interactive || self.noninteractive_step == 0 || device.count
            % self.noninteractive_step == 0
    }

    /// Moves the first line shown so that the line that ran last is on a
    /// screen of `height` lines: to that line, where it lies above the
    /// first line shown or more than `height` lines below it.
    pub fn follow(&mut self, device: &Device, height: usize)
        ensures
            final(self)@ == (TerminalView {
                scroll: match device@.registers.last_ip {
                    Some(last_ip) => if last_ip < old(self)@.scroll || last_ip > old(
                        self,
                    )@.scroll + height {
                        last_ip
                    } else {
                        old(self)@.scroll
                    },
                    None => old(self)@.scroll,
                },
                ..old(self)@
            }),
    {
        match device.registers.last_ip() {
            Some(last_ip) => {
                if last_ip < self.scroll {
                    self.scroll = last_ip;
                } else {
                    match self.scroll.checked_add(height) {
                        Some(bottom) => {
                            if last_ip > bottom {
                                self.scroll = last_ip;
                            }
                        },
                        None => {},
                    }
                }
            },
            None => {},
        }
    }

    /// Makes the debugger wait for commands where the machine is halted;
    /// tells whether it did.
    pub fn pause_if_halted(&mut self, device: &Device) -> (r: bool)
        ensures
            r == device@.halted,
            final(self)@ == (TerminalView {
                interactive: old(self)@.interactive || device@.halted,
                ..old(self)@
            }),
    {
        if device.halted {
            self.interactive = true;
        }
        device.halted
    }

    /// Takes the program that was read for a `load` command: `content` holds
    /// its lines, or the error that kept it from being read. A program that
    /// cannot be read or loaded is reported.
    pub fn loaded(&mut self, device: &mut Device, path: &str, content: Result<&[&str], Error>)
        ensures
            match content {
                Ok(lines) => {
                    let (instructions, ip, result) = load_spec(
                        crate::device::lines_view(lines@),
                        old(device)@.registers.ip,
                    );
                    &&& final(device)@ == (DeviceView {
                        instructions,
                        registers: RegistersView { ip, ..old(device)@.restarted().registers },
                        ..old(device)@.restarted()
                    })
                    &&& final(self)@ == (TerminalView {
                        messages: match result {
                            Ok(()) => old(self)@.messages,
                            Err(e) => old(self)@.messages.push(
                                MessageView::Error(
                                    "problem when loading `"@ + path@ + "`: "@ + error_text(e),
                                ),
                            ),
                        },
                        ..old(self)@
                    })
                },
                Err(e) => {
                    &&& final(device)@ == old(device)@
                    &&& final(self)@ == (TerminalView {
                        messages: old(self)@.messages.push(
                            MessageView::Error(
                                "problem when loading `"@ + path@ + "`: "@ + error_text(e@),
                            ),
                        ),
                        ..old(self)@
                    })
                },
            },
    {
        let mut out = String::from_str("problem when loading `");
        out.append(path);
        out.append("`: ");
        let loaded = match content {
            Ok(lines) => device.load(lines),
            Err(e) => Err(e),
        };
        match loaded {
            Ok(()) => {},
            Err(e) => {
                let text = e.to_string();
                out.append(text.as_str());
                self.push_message(Message::error(out));
            },
        }
    }

    /// What the screen shows now. The messages leave the session with the
    /// frame.
    pub fn frame(&mut self, device: &Device) -> (f: Frame)
        ensures
            f@ == frame_spec(old(self)@, device@),
            final(self)@ == (TerminalView { messages: Seq::empty(), ..old(self)@ }),
    {
        proof {
            device.registers.lemma_six_cells();
        }
        let title = if self.human_decoding {
            String::from_str("Instructions (`F1` for Raw)")
        } else {
            String::from_str("Instructions (`F1` for Human)")
        };
        let instructions = self.instruction_lines(device);
        let registers = self.register_lines(device);
        let breakpoints = self.breakpoint_lines(device);
        let mut device_list: Vec<String> = Vec::new();
        let mut count = String::from_str("Count: ");
        push_usize(&mut count, device.count);
        device_list.push(count);
        let mut unique = String::from_str("Unique: ");
        push_usize(&mut unique, index_set_len(&device.unique));
        device_list.push(unique);
        if device.halted {
            self.push_message(Message::bold(String::from_str("device is halted")));
            self.push_message(Message::info(String::from_str("use `reset` to unhalt")));
        }
        if !self.interactive {
            self.push_message(
                Message::bold(
                    String::from_str(
                        "running in non-interactive mode, press `p` to pause or `q` to quit",
                    ),
                ),
            );
        }
        let mut messages: Vec<Message> = Vec::new();
        std::mem::swap(&mut messages, &mut self.messages);
        let prompt = if self.interactive {
            let mut prompt = String::from_str("> ");
            prompt.append(self.input.as_str());
            Some(prompt)
        } else {
            None
        };
        let f = Frame {
            title,
            instructions,
            registers,
            breakpoints,
            device: device_list,
            messages,
            prompt,
        };
        assert(f@.device =~= frame_spec(old(self)@, device@).device);
        assert(f@.messages =~= frame_spec(old(self)@, device@).messages);
        assert(self@.messages =~= Seq::empty());
        f
    }

    /// The lines of the program from the first line shown.
    fn instruction_lines(&self, device: &Device) -> (lines: Vec<Line>)
        ensures
            lines_view(lines@) == frame_spec(self@, device@).instructions,
    {
        let mut lines: Vec<Line> = Vec::new();
        let mut line: usize = self.scroll;
        let ghost shown = frame_spec(self@, device@).instructions;
        while line < device.instructions.len()
            invariant
                self.scroll <= line,
                shown == frame_spec(self@, device@).instructions,
                lines.len() == line - self.scroll,
                self.scroll <= device.instructions.len() ==> line <= device.instructions.len(),
                self.scroll > device.instructions.len() ==> line == self.scroll,
                forall|i: int| 0 <= i < lines.len() ==> lines[i]@ == shown[i],
            decreases device.instructions.len() - line,
        {
            let inst = &device.instructions[line];
            let mut number = String::new();
            push_usize(&mut number, line);
            let mut text = String::new();
            push_padded(&mut text, number.as_str(), 3);
            text.append(": ");
            if self.human_decoding {
                text.append(inst.human_display(&device.registers).to_string().as_str());
            } else {
                text.append(inst.display().to_string().as_str());
            }
            let standout = match device.registers.last_ip() {
                Some(ip) => ip == line,
                None => false,
            };
            lines.push(Line { text, standout });
            line += 1;
        }
        lines
    }

    /// The lines of the six registers.
    fn register_lines(&self, device: &Device) -> (lines: Vec<Line>)
        ensures
            lines_view(lines@) == frame_spec(self@, device@).registers,
    {
        let values = device.registers.iter();
        proof {
            device.registers.lemma_six_cells();
        }
        let mut lines: Vec<Line> = Vec::new();
        let mut reg: usize = 0;
        while reg < 6
            invariant
                reg <= 6,
                values@ == device@.registers.cells,
                values.len() == 6,
                lines.len() == reg,
                forall|i: int|
                    0 <= i < reg ==> lines[i]@ == register_line(device@, i, self.human_decoding),
            decreases 6 - reg,
        {
            let mut name = String::new();
            if self.human_decoding {
                name.append(device.registers.name(reg).to_string().as_str());
            } else {
                push_usize(&mut name, reg);
            }
            let mut text = String::new();
            push_padded(&mut text, name.as_str(), 2);
            if device.registers.is_read(reg) {
                text.append("*");
            } else {
                text.append(" ");
            }
            text.append("= ");
            push_i64(&mut text, values[reg]);
            let standout = device.registers.is_written(reg);
            lines.push(Line { text, standout });
            reg += 1;
        }
        lines
    }

    /// The lines of the breakpoints.
    fn breakpoint_lines(&self, device: &Device) -> (lines: Vec<String>)
        ensures
            texts_view(lines@) == frame_spec(self@, device@).breakpoints,
    {
        let mut lines: Vec<String> = Vec::new();
        let mut index: usize = 0;
        while index < self.hooks.len()
            invariant
                index <= self.hooks.len(),
                lines.len() == index,
                forall|i: int|
                    0 <= i < index ==> lines[i]@ == breakpoint_line(
                        hooks_view(self.hooks),
                        i,
                        device@.registers.ip,
                    ),
            decreases self.hooks.len() - index,
        {
            let mut number = String::new();
            push_usize(&mut number, index);
            let mut text = String::new();
            push_padded(&mut text, number.as_str(), 2);
            text.append(": ");
            text.append(self.hooks[index].display(device).to_string().as_str());
            lines.push(text);
            index += 1;
        }
        lines
    }

    /// Handles an event that needs no command line.
    pub fn generic_handle(&mut self, e: Event, len: usize)
        ensures
            final(self)@ == generic_spec(old(self)@, e, len as nat),
    {
        match e {
            Event::Input(Key::Up) => {
                self.scroll = self.scroll.saturating_sub(1);
            },
            Event::Input(Key::Down) => {
                let down = self.scroll.saturating_add(1);
                let bottom = len.saturating_sub(1);
                self.scroll = if down <= bottom {
                    down
                } else {
                    bottom
                };
            },
            Event::Input(Key::F(1)) => {
                self.human_decoding = !self.human_decoding;
            },
            e => {
                let ghost before = messages_view(self.messages@);
                let mut text = String::from_str("unhandled event: ");
                push_event(&mut text, e);
                self.messages.push(Message::error(text));
                assert(messages_view(self.messages@) =~= before.push(
                    MessageView::Error("unhandled event: "@ + event_text(e)),
                ));
            },
        }
    }
}

} // verus!
