//! Hooks: predicates over the state of the machine that tell the debugger
//! when to pause.
use vstd::prelude::*;
use hashbrown::HashSet;
use crate::device::{Device, DeviceView};
use crate::error::Error;
use crate::registers::{reg_name_spec, RegistersView};
use crate::sets::{
    value_set_clear, value_set_insert, value_set_len, value_set_new, value_set_view,
};
use crate::text::{int_text, push_i64, push_usize};
use crate::Reg;

verus! {

/// What the debugger does after a hook was evaluated.
#[derive(Debug, PartialEq, Eq, Structural)]
pub enum Action {
    /// Stop running and wait for the user.
    Pause,
    /// Go on.
    Nothing,
}

/// A comparison between the value of a register and a constant.
#[derive(Debug, Clone, Copy, PartialEq, Eq, Structural)]
pub enum Op {
    Eq,
    Lt,
    Lte,
    Gt,
    Gte,
}

impl Op {
    /// Whether `a` stands in the relation to `b`.
    pub open spec fn test_spec(self, a: Reg, b: Reg) -> bool {
        match self {
            Op::Eq => a == b,
            Op::Gt => a > b,
            Op::Gte => a >= b,
            Op::Lt => a < b,
            Op::Lte => a <= b,
        }
    }

    /// Tests whether `a` stands in the relation to `b`.
    pub fn test(self, a: Reg, b: Reg) -> (r: bool)
        ensures
            r == self.test_spec(a, b),
    {
        match self {
            Op::Eq => a == b,
            Op::Gt => a > b,
            Op::Gte => a >= b,
            Op::Lt => a < b,
            Op::Lte => a <= b,
        }
    }
}

impl Op {
    /// The name of the comparison in the hook language.
    pub open spec fn name_spec(self) -> Seq<char> {
        match self {
            Op::Eq => "eq"@,
            Op::Gt => "gt"@,
            Op::Gte => "gte"@,
            Op::Lt => "lt"@,
            Op::Lte => "lte"@,
        }
    }

    /// The name of the comparison in the hook language.
    pub fn name(self) -> (r: &'static str)
        ensures
            r@ == self.name_spec(),
    {
        match self {
            Op::Eq => "eq",
            Op::Gt => "gt",
            Op::Gte => "gte",
            Op::Lt => "lt",
            Op::Lte => "lte",
        }
    }
}

#[derive(Debug, PartialEq, Eq)]
pub enum Hook {
    /// Break when the given register is read.
    Read(usize),
    /// Break when the given register is written to.
    Write(usize),
    /// Break when the given line is run.
    Line(usize),
    /// Break when the given register equals the specified value.
    Op(Op, usize, Reg),
    /// Break when a unique value has been observed in the specified registry.
    Unique(HashSet<Reg>, Option<Reg>, usize),
    /// Break when the inverted condition of a hook is true.
    Not(Box<Hook>),
    /// All the criterias listed must match.
    All(Vec<Hook>),
}

/// A hook as a mathematical value.
pub enum HookView {
    Read(usize),
    Write(usize),
    Line(usize),
    Op(Op, usize, Reg),
    /// The values seen so far, the value seen last, and the register.
    Unique(Set<Reg>, Option<Reg>, usize),
    Not(Box<HookView>),
    All(Seq<HookView>),
}

/// The mathematical value of a hook.
pub open spec fn hook_view(hook: Hook) -> HookView
    decreases hook,
{
    match hook {
        Hook::Read(reg) => HookView::Read(reg),
        Hook::Write(reg) => HookView::Write(reg),
        Hook::Line(line) => HookView::Line(line),
        Hook::Op(op, reg, value) => HookView::Op(op, reg, value),
        Hook::Unique(seen, last, reg) => HookView::Unique(value_set_view(seen), last, reg),
        Hook::Not(inner) => HookView::Not(Box::new(hook_view(*inner))),
        Hook::All(hooks) => HookView::All(
            Seq::new(
                hooks.len() as nat,
                |i: int|
                    if 0 <= i < hooks.len() {
                        hook_view(hooks[i])
                    } else {
                        HookView::All(Seq::empty())
                    },
            ),
        ),
    }
}

/// The hook with all that it has remembered forgotten: every `Unique` in it
/// has seen nothing.
pub open spec fn reset_spec(hook: HookView) -> HookView
    decreases hook,
{
    match hook {
        HookView::Unique(_, _, reg) => HookView::Unique(Set::empty(), None, reg),
        HookView::Not(inner) => HookView::Not(Box::new(reset_spec(*inner))),
        HookView::All(hooks) => HookView::All(
            Seq::new(
                hooks.len(),
                |i: int|
                    if 0 <= i < hooks.len() {
                        reset_spec(hooks[i])
                    } else {
                        hook
                    },
            ),
        ),
        other => other,
    }
}

/// The other action.
pub open spec fn invert(action: Action) -> Action {
    match action {
        Action::Pause => Action::Nothing,
        Action::Nothing => Action::Pause,
    }
}

/// `Pause` where `fires` holds, `Nothing` where it does not.
pub open spec fn pause_if(fires: bool) -> Action {
    if fires {
        Action::Pause
    } else {
        Action::Nothing
    }
}

/// What evaluating `hook` against the registers `r` gives: the hook and the
/// registers afterwards, and the action or the error.
///
/// - `Read`, `Write` and `Line` look at the two records and at `last_ip`, and
///   change nothing.
/// - `Op` and `Unique` read their register, which is recorded as a read (a
///   register that does not exist gives `BadRegister`). `Op` compares the
///   value with its constant. `Unique` pauses where it has not seen the value
///   before, and then remembers it.
/// - `Not` evaluates the hook inside and inverts the action.
/// - `All` evaluates its hooks in order up to the first that does not pause.
pub open spec fn test_spec(hook: HookView, r: RegistersView) -> (
    HookView,
    RegistersView,
    Result<Action, Error>,
)
    decreases hook, 0nat,
{
    match hook {
        HookView::Read(reg) => (hook, r, Ok(pause_if(r.read.contains(reg)))),
        HookView::Write(reg) => (hook, r, Ok(pause_if(r.written.contains(reg)))),
        HookView::Line(line) => (hook, r, Ok(pause_if(r.last_ip == Some(line)))),
        HookView::Op(op, reg, value) => {
            let read = r.touch_read(reg);
            if reg < 6 {
                (hook, read, Ok(pause_if(op.test_spec(r.cells[reg as int], value))))
            } else {
                (hook, read, Err(Error::BadRegister(reg)))
            }
        },
        HookView::Unique(seen, last, reg) => {
            let read = r.touch_read(reg);
            if reg < 6 {
                let value = r.cells[reg as int];
                if seen.contains(value) {
                    (hook, read, Ok(Action::Nothing))
                } else {
                    (
                        HookView::Unique(seen.insert(value), Some(value), reg),
                        read,
                        Ok(Action::Pause),
                    )
                }
            } else {
                (hook, read, Err(Error::BadRegister(reg)))
            }
        },
        HookView::Not(inner) => {
            let (inner, r, result) = test_spec(*inner, r);
            (
                HookView::Not(Box::new(inner)),
                r,
                match result {
                    Ok(action) => Ok(invert(action)),
                    Err(e) => Err(e),
                },
            )
        },
        HookView::All(hooks) => {
            let (hooks, r, result) = test_all_spec(hooks, r, hooks.len());
            (HookView::All(hooks), r, result)
        },
    }
}

/// What evaluating the first `n` of `hooks` in order gives, where evaluation
/// stops at the first hook that does not pause: the hooks and the registers
/// afterwards, and `Pause` if all `n` paused, else what the hook that stopped
/// the evaluation gave.
pub open spec fn test_all_spec(hooks: Seq<HookView>, r: RegistersView, n: nat) -> (
    Seq<HookView>,
    RegistersView,
    Result<Action, Error>,
)
    decreases hooks, n,
{
    if n == 0 || n > hooks.len() {
        (hooks, r, Ok(Action::Pause))
    } else {
        let (before, r, result) = test_all_spec(hooks, r, (n - 1) as nat);
        if result == Ok::<Action, Error>(Action::Pause) {
            let (hook, r, result) = test_spec(hooks[n - 1], r);
            (before.update(n - 1, hook), r, result)
        } else {
            (before, r, result)
        }
    }
}

/// What evaluating `hook` once against each of `states` in turn gives: the
/// hook afterwards, and the outcome of each evaluation.
pub open spec fn test_each_spec(hook: HookView, states: Seq<RegistersView>) -> (
    HookView,
    Seq<Result<Action, Error>>,
)
    decreases states.len(),
{
    if states.len() == 0 {
        (hook, Seq::empty())
    } else {
        let (hook, outcomes) = test_each_spec(hook, states.drop_last());
        let (hook, _, outcome) = test_spec(hook, states.last());
        (hook, outcomes.push(outcome))
    }
}

/// Resetting a `Unique` hook empties what it has seen.
pub proof fn lemma_reset_unique(seen: Set<Reg>, last: Option<Reg>, reg: usize)
    ensures
        reset_spec(HookView::Unique(seen, last, reg)) == HookView::Unique(Set::empty(), None, reg),
{
}

/// A `Unique` hook that has been reset pauses exactly once for each distinct
/// value: evaluated against one state of the registers after another, it
/// pauses at a state if and only if no earlier state held the same value in
/// its register.
pub proof fn lemma_unique_pauses_once_per_value(
    seen: Set<Reg>,
    last: Option<Reg>,
    reg: usize,
    states: Seq<RegistersView>,
    k: int,
)
    requires
        reg < 6,
        0 <= k < states.len(),
    ensures
        ({
            let hook = reset_spec(HookView::Unique(seen, last, reg));
            let fresh = forall|j: int|
                0 <= j < k ==> states[j].cells[reg as int] != states[k].cells[reg as int];
            test_each_spec(hook, states).1[k] == Ok::<Action, Error>(pause_if(fresh))
        }),
{
    let hook = reset_spec(HookView::Unique(seen, last, reg));
    let before = states.take(k);
    let prefix = states.take(k + 1);
    lemma_test_each_prefix(hook, states, k + 1);
    lemma_test_each_prefix(hook, before, k);
    lemma_unique_seen(hook, before, reg);
    assert(prefix.drop_last() =~= before);
    assert(test_each_spec(hook, states).1[k] == test_each_spec(hook, prefix).1[k]);
    assert forall|j: int| 0 <= j < k implies before[j] == states[j] by {}
}

/// The outcomes of the first `n` evaluations do not depend on the states
/// that follow.
pub proof fn lemma_test_each_prefix(hook: HookView, states: Seq<RegistersView>, n: int)
    requires
        0 <= n <= states.len(),
    ensures
        test_each_spec(hook, states).1.len() == states.len(),
        test_each_spec(hook, states.take(n)).1 == test_each_spec(hook, states).1.take(n),
    decreases states.len(),
{
    if n == states.len() {
        assert(states.take(n) =~= states);
        if n > 0 {
            lemma_test_each_prefix(hook, states.drop_last(), n - 1);
        }
    } else {
        lemma_test_each_prefix(hook, states.drop_last(), n);
        assert(states.drop_last().take(n) =~= states.take(n));
    }
}

/// A `Unique` hook that started with nothing seen has seen, after some
/// evaluations, exactly the values that its register held in them.
pub proof fn lemma_unique_seen(hook: HookView, states: Seq<RegistersView>, reg: usize)
    requires
        hook == HookView::Unique(Set::empty(), None, reg),
        reg < 6,
    ensures
        test_each_spec(hook, states).0 matches HookView::Unique(seen, _, r) && r == reg && (
        forall|v: Reg|
            seen.contains(v) <==> exists|j: int|
                0 <= j < states.len() && states[j].cells[reg as int] == v),
    decreases states.len(),
{
    if states.len() > 0 {
        let before = states.drop_last();
        lemma_unique_seen(hook, before, reg);
        let seen = test_each_spec(hook, states).0->Unique_0;
        assert forall|v: Reg| seen.contains(v) <==> exists|j: int|
            0 <= j < states.len() && states[j].cells[reg as int] == v by {
            if exists|j: int| 0 <= j < states.len() && states[j].cells[reg as int] == v {
                let j = choose|j: int| 0 <= j < states.len() && states[j].cells[reg as int] == v;
                if j < states.len() - 1 {
                    assert(before[j].cells[reg as int] == v);
                }
            }
            if seen.contains(v) && v != states.last().cells[reg as int] {
                let j = choose|j: int| 0 <= j < before.len() && before[j].cells[reg as int] == v;
                assert(states[j].cells[reg as int] == v);
            }
        }
    }
}

/// How the value that a `Unique` hook saw last is shown.
pub open spec fn last_text(last: Option<Reg>) -> Seq<char> {
    match last {
        Some(value) => "Some("@ + int_text(value as int) + ")"@,
        None => "None"@,
    }
}

/// What a hook shows of its state: its name and empty brackets, but for
/// `unique`, which shows how many values it has seen and which it saw last,
/// and for `not` and `all`, which show the state of the hooks inside.
pub open spec fn inspect_text(hook: HookView) -> Seq<char>
    decreases hook, 0nat,
{
    match hook {
        HookView::Read(_) => "read()"@,
        HookView::Write(_) => "write()"@,
        HookView::Line(_) => "line()"@,
        HookView::Op(op, _, _) => op.name_spec() + "()"@,
        HookView::Unique(seen, last, _) => "unique(seen: "@ + int_text(seen.len() as int)
            + ", last: "@ + last_text(last) + ")"@,
        HookView::Not(inner) => "not("@ + inspect_text(*inner) + ")"@,
        HookView::All(hooks) => "all("@ + inspect_list(hooks, hooks.len()) + ")"@,
    }
}

/// What the first `n` of `hooks` show of their state, with `, ` between them.
pub open spec fn inspect_list(hooks: Seq<HookView>, n: nat) -> Seq<char>
    decreases hooks, n,
{
    if n == 0 || n > hooks.len() {
        Seq::empty()
    } else if n == 1 {
        inspect_text(hooks[0])
    } else {
        inspect_list(hooks, (n - 1) as nat) + ", "@ + inspect_text(hooks[n - 1])
    }
}

/// The hook as the hook language writes it, where register `ip` holds the
/// instruction pointer: registers by their names, and one space after each
/// comma.
pub open spec fn display_text(hook: HookView, ip: usize) -> Seq<char>
    decreases hook, 0nat,
{
    match hook {
        HookView::Read(reg) => "read("@ + reg_name_spec(ip, reg) + ")"@,
        HookView::Write(reg) => "write("@ + reg_name_spec(ip, reg) + ")"@,
        HookView::Line(line) => "line("@ + int_text(line as int) + ")"@,
        HookView::Op(op, reg, value) => op.name_spec() + "("@ + reg_name_spec(ip, reg) + ", "@
            + int_text(value as int) + ")"@,
        HookView::Unique(_, _, reg) => "unique("@ + reg_name_spec(ip, reg) + ")"@,
        HookView::Not(inner) => "not("@ + display_text(*inner, ip) + ")"@,
        HookView::All(hooks) => "all("@ + display_list(hooks, ip, hooks.len()) + ")"@,
    }
}

/// The first `n` of `hooks` as the hook language writes them, with `, `
/// between them.
pub open spec fn display_list(hooks: Seq<HookView>, ip: usize, n: nat) -> Seq<char>
    decreases hooks, n,
{
    if n == 0 || n > hooks.len() {
        Seq::empty()
    } else if n == 1 {
        display_text(hooks[0], ip)
    } else {
        display_list(hooks, ip, (n - 1) as nat) + ", "@ + display_text(hooks[n - 1], ip)
    }
}

/// A hook, to be shown with its state.
pub struct Inspect<'a> {
    hook: &'a Hook,
}

impl<'a> Inspect<'a> {
    /// The text that is shown.
    pub closed spec fn text(&self) -> Seq<char> {
        inspect_text(self.hook@)
    }

    /// The text as a string.
    pub fn to_string(&self) -> (r: String)
        ensures
            r@ == self.text(),
    {
        let mut out = String::new();
        self.hook.push_inspect(&mut out);
        out
    }
}

/// A hook, to be shown as the hook language writes it.
pub struct Display<'a> {
    hook: &'a Hook,
    device: &'a Device,
}

impl<'a> Display<'a> {
    /// The text that is shown.
    pub closed spec fn text(&self) -> Seq<char> {
        display_text(self.hook@, self.device@.registers.ip)
    }

    /// The text as a string.
    pub fn to_string(&self) -> (r: String)
        ensures
            r@ == self.text(),
    {
        let mut out = String::new();
        self.hook.push_display(&mut out, self.device);
        out
    }
}

/// The mathematical values of the hooks in `hooks`.
pub open spec fn hooks_view(hooks: Vec<Hook>) -> Seq<HookView> {
    Seq::new(hooks.len() as nat, |i: int| hook_view(hooks[i]))
}

/// Once a hook among the first `k` has not paused, evaluating more of the
/// hooks changes nothing.
pub proof fn lemma_test_all_stops(hooks: Seq<HookView>, r: RegistersView, k: nat, n: nat)
    requires
        k <= n <= hooks.len(),
    ensures
        test_all_spec(hooks, r, k).2 != Ok::<Action, Error>(Action::Pause) ==> test_all_spec(
            hooks,
            r,
            n,
        ) == test_all_spec(hooks, r, k),
    decreases n,
{
    if k < n {
        lemma_test_all_stops(hooks, r, k, (n - 1) as nat);
    }
}

impl View for Hook {
    type V = HookView;

    open spec fn view(&self) -> HookView {
        hook_view(*self)
    }
}

impl Hook {
    /// Create a Unique hook for the given register.
    pub fn unique(register: usize) -> (r: Hook)
        ensures
            r@ == HookView::Unique(Set::empty(), None, register),
    {
        Hook::Unique(value_set_new(), None, register)
    }

    /// Shows the hook with its state.
    pub fn inspect<'a>(&'a self) -> (r: Inspect<'a>)
        ensures
            r.text() == inspect_text(self@),
    {
        Inspect { hook: self }
    }

    /// Convert hook into a string.
    pub fn display<'a>(&'a self, device: &'a Device) -> (r: Display<'a>)
        ensures
            r.text() == display_text(self@, device@.registers.ip),
    {
        Display { hook: self, device }
    }

    /// Appends to `out` what the hook shows of its state.
    fn push_inspect(&self, out: &mut String)
        ensures
            final(out)@ == old(out)@ + inspect_text(self@),
        decreases self,
    {
        match self {
            Hook::Read(_) => {
                out.append("read()");
            },
            Hook::Write(_) => {
                out.append("write()");
            },
            Hook::Line(_) => {
                out.append("line()");
            },
            Hook::Op(op, _, _) => {
                out.append(op.name());
                out.append("()");
            },
            Hook::Unique(seen, last, _) => {
                out.append("unique(seen: ");
                push_usize(out, value_set_len(seen));
                out.append(", last: ");
                match last {
                    Some(value) => {
                        out.append("Some(");
                        push_i64(out, *value);
                        out.append(")");
                    },
                    None => {
                        out.append("None");
                    },
                }
                out.append(")");
            },
            Hook::Not(inner) => {
                out.append("not(");
                inner.push_inspect(out);
                out.append(")");
            },
            Hook::All(hooks) => {
                out.append("all(");
                let ghost views = hooks_view(*hooks);
                assert(self@->All_0 =~= views);
                let mut i: usize = 0;
                while i < hooks.len()
                    invariant
                        i <= hooks.len(),
                        *self == Hook::All(*hooks),
                        views == hooks_view(*hooks),
                        out@ == old(out)@ + "all("@ + inspect_list(views, i as nat),
                    decreases hooks.len() - i,
                {
                    if i > 0 {
                        out.append(", ");
                    }
                    proof {
                        assert(decreases_to!(self => self->All_0));
                    }
                    hooks[i].push_inspect(out);
                    i += 1;
                    assert(out@ =~= old(out)@ + "all("@ + inspect_list(views, i as nat));
                }
                out.append(")");
            },
        }
    }

    /// Appends the hook to `out` as the hook language writes it.
    fn push_display(&self, out: &mut String, device: &Device)
        ensures
            final(out)@ == old(out)@ + display_text(self@, device@.registers.ip),
        decreases self,
    {
        let ghost ip = device@.registers.ip;
        match self {
            Hook::Read(reg) => {
                out.append("read(");
                out.append(device.registers.name(*reg).to_string().as_str());
                out.append(")");
            },
            Hook::Write(reg) => {
                out.append("write(");
                out.append(device.registers.name(*reg).to_string().as_str());
                out.append(")");
            },
            Hook::Line(line) => {
                out.append("line(");
                push_usize(out, *line);
                out.append(")");
            },
            Hook::Op(op, reg, value) => {
                out.append(op.name());
                out.append("(");
                out.append(device.registers.name(*reg).to_string().as_str());
                out.append(", ");
                push_i64(out, *value);
                out.append(")");
            },
            Hook::Unique(_, _, reg) => {
                out.append("unique(");
                out.append(device.registers.name(*reg).to_string().as_str());
                out.append(")");
            },
            Hook::Not(inner) => {
                out.append("not(");
                inner.push_display(out, device);
                out.append(")");
            },
            Hook::All(hooks) => {
                out.append("all(");
                let ghost views = hooks_view(*hooks);
                assert(self@->All_0 =~= views);
                let mut i: usize = 0;
                while i < hooks.len()
                    invariant
                        i <= hooks.len(),
                        *self == Hook::All(*hooks),
                        views == hooks_view(*hooks),
                        ip == device@.registers.ip,
                        out@ == old(out)@ + "all("@ + display_list(views, ip, i as nat),
                    decreases hooks.len() - i,
                {
                    if i > 0 {
                        out.append(", ");
                    }
                    proof {
                        assert(decreases_to!(self => self->All_0));
                    }
                    hooks[i].push_display(out, device);
                    i += 1;
                    assert(out@ =~= old(out)@ + "all("@ + display_list(views, ip, i as nat));
                }
                out.append(")");
            },
        }
    }

    /// Reset the state of a hook.
    pub fn reset(&mut self)
        ensures
            final(self)@ == reset_spec(old(self)@),
        decreases *old(self),
    {
        match self {
            Hook::Unique(seen, last, _) => {
                value_set_clear(seen);
                *last = None;
            },
            Hook::Not(inner) => {
                inner.reset();
            },
            Hook::All(hooks) => {
                let ghost before = *hooks;
                let mut i: usize = 0;
                while i < hooks.len()
                    invariant
                        i <= hooks.len(),
                        hooks.len() == before.len(),
                        *old(self) == Hook::All(before),
                        forall|j: int| 0 <= j < i ==> hooks[j]@ == reset_spec(before[j]@),
                        forall|j: int| i <= j < hooks.len() ==> hooks[j] == before[j],
                    decreases hooks.len() - i,
                {
                    proof {
                        assert(decreases_to!(*old(self) => old(self)->All_0));
                    }
                    hooks[i].reset();
                    i += 1;
                }
                assert(hook_view(Hook::All(*hooks))->All_0 =~= reset_spec(
                    hook_view(Hook::All(before)),
                )->All_0);
            },
            _ => {},
        }
    }

    /// Test if the breakpoint is valid.
    #[verifier::loop_isolation(false)]
    pub fn test(&mut self, device: &mut Device) -> (r: Result<Action, Error>)
        ensures
            (final(self)@, final(device)@.registers, r) == test_spec(
                old(self)@,
                old(device)@.registers,
            ),
            final(device)@ == (DeviceView {
                registers: final(device)@.registers,
                ..old(device)@
            }),
        decreases *old(self),
    {
        match self {
            Hook::Read(reg) => {
                if device.registers.is_read(*reg) {
                    return Ok(Action::Pause);
                }
            },
            Hook::Write(reg) => {
                if device.registers.is_written(*reg) {
                    return Ok(Action::Pause);
                }
            },
            Hook::Line(line) => {
                match device.registers.last_ip() {
                    Some(ip) => {
                        if ip == *line {
                            return Ok(Action::Pause);
                        }
                    },
                    None => {},
                }
            },
            Hook::Op(op, reg, value) => {
                if op.test(device.registers.reg(*reg)?, *value) {
                    return Ok(Action::Pause);
                }
            },
            Hook::Unique(seen, last, register) => {
                let value = device.registers.reg(*register)?;
                let ghost before = value_set_view(*seen);
                if value_set_insert(seen, value) {
                    *last = Some(value);
                    return Ok(Action::Pause);
                }
                assert(before.insert(value) =~= before);
            },
            Hook::Not(inner) => {
                match inner.test(device)? {
                    Action::Nothing => {
                        return Ok(Action::Pause);
                    },
                    Action::Pause => {
                        return Ok(Action::Nothing);
                    },
                }
            },
            Hook::All(hooks) => {
                let ghost before = *hooks;
                let ghost views = hooks_view(before);
                let ghost registers = old(device)@.registers;
                let mut i: usize = 0;
                assert(hook_view(Hook::All(before))->All_0 =~= views);
                while i < hooks.len()
                    invariant
                        i <= hooks.len(),
                        hooks.len() == before.len(),
                        *old(self) == Hook::All(before),
                        views == hooks_view(before),
                        registers == old(device)@.registers,
                        old(self)@ == HookView::All(views),
                        forall|j: int| i <= j < hooks.len() ==> hooks[j] == before[j],
                        test_all_spec(views, registers, i as nat) == (
                            hooks_view(*hooks),
                            device@.registers,
                            Ok::<Action, Error>(Action::Pause),
                        ),
                        device@ == (DeviceView { registers: device@.registers, ..old(device)@ }),
                    decreases hooks.len() - i,
                {
                    proof {
                        assert(decreases_to!(before => before[i as int]));
                    }
                    let ghost current = hooks_view(*hooks);
                    let result = hooks[i].test(device);
                    proof {
                        assert(hooks_view(*hooks) =~= current.update(i as int, hooks[i as int]@));
                        lemma_test_all_stops(views, registers, (i + 1) as nat, views.len());
                        assert(hook_view(Hook::All(*hooks))->All_0 =~= hooks_view(*hooks));
                    }
                    match result? {
                        Action::Nothing => {
                            return Ok(Action::Nothing);
                        },
                        Action::Pause => {},
                    }
                    i += 1;
                }
                assert(hook_view(Hook::All(*hooks))->All_0 =~= hooks_view(*hooks));
                return Ok(Action::Pause);
            },
        }
        Ok(Action::Nothing)
    }
}

} // verus!
