//! Writing a hook and reading it again gives the hook back.
use vstd::prelude::*;
use crate::hook::{display_list, display_text, HookView, Op};
use crate::parser::{
    compare_arguments_spec, expect_close_spec, expect_comma_spec, expect_immediate_spec,
    expect_open_spec, expect_register_spec, expect_string_spec, expect_token_spec, hook_spec,
    immediate_argument_spec, is_lower, kind_spec, more_hooks_spec, name_end, next_token_spec,
    number_end, register_argument_spec, skip_spaces, Kind, ParseErrorView, TokenView,
};
use crate::registers::reg_name_spec;
use crate::text::{
    all_digits, digit_char, digits_of, digits_value, int_text, is_digit, signed_value,
};

verus! {

/// Whether `text` stands in `s` at position `pos`.
pub open spec fn has_at(s: Seq<char>, pos: int, text: Seq<char>) -> bool {
    &&& 0 <= pos
    &&& pos + text.len() <= s.len()
    &&& forall|i: int| 0 <= i < text.len() ==> s[pos + i] == #[trigger] text[i]
}

/// A text made of two parts stands where its first part stands and its
/// second part follows.
pub proof fn lemma_has_at_concat(s: Seq<char>, pos: int, a: Seq<char>, b: Seq<char>)
    requires
        has_at(s, pos, a + b),
    ensures
        has_at(s, pos, a),
        has_at(s, pos + a.len(), b),
{
    assert forall|i: int| 0 <= i < a.len() implies s[pos + i] == #[trigger] a[i] by {
        assert((a + b)[i] == a[i]);
    }
    assert forall|i: int| 0 <= i < b.len() implies s[pos + a.len() + i] == #[trigger] b[i] by {
        assert((a + b)[a.len() + i] == b[i]);
    }
}

/// The digits of a number are digits, at least one, and write that number.
pub proof fn lemma_digits_of(n: nat)
    ensures
        digits_of(n).len() >= 1,
        all_digits(digits_of(n)),
        digits_value(digits_of(n)) == n,
    decreases n,
{
    if n < 10 {
        let s = digits_of(n);
        assert(s.drop_last() =~= Seq::<char>::empty());
        assert(digits_value(s.drop_last()) == 0);
    } else {
        lemma_digits_of(n / 10);
        let s = digits_of(n);
        let before = digits_of(n / 10);
        assert(s.drop_last() =~= before);
        assert(s.last() == digit_char((n % 10) as int));
        assert forall|i: int| 0 <= i < s.len() implies is_digit(#[trigger] s[i]) by {
            if i < before.len() {
                assert(s[i] == before[i]);
            }
        }
    }
}

/// A run of lowercase letters ends where the letters end.
pub proof fn lemma_name_end(s: Seq<char>, pos: int, word: Seq<char>, k: int)
    requires
        has_at(s, pos, word),
        forall|i: int| 0 <= i < word.len() ==> is_lower(#[trigger] word[i]),
        pos + word.len() == s.len() || !is_lower(s[pos + word.len()]),
        0 <= k <= word.len(),
    ensures
        name_end(s, pos + k) == pos + word.len(),
    decreases word.len() - k,
{
    if k < word.len() {
        assert(s[pos + k] == word[k]);
        lemma_name_end(s, pos, word, k + 1);
    }
}

/// A run of digits ends where the digits end.
pub proof fn lemma_number_end(s: Seq<char>, pos: int, digits: Seq<char>, k: int)
    requires
        has_at(s, pos, digits),
        all_digits(digits),
        pos + digits.len() == s.len() || !is_digit(s[pos + digits.len()]),
        0 <= k <= digits.len(),
    ensures
        number_end(s, pos + k) == pos + digits.len(),
    decreases digits.len() - k,
{
    if k < digits.len() {
        assert(s[pos + k] == digits[k]);
        lemma_number_end(s, pos, digits, k + 1);
    }
}

/// A word of lowercase letters, followed by something else, is read as a
/// name.
pub proof fn lemma_word_token(s: Seq<char>, pos: int, word: Seq<char>)
    requires
        has_at(s, pos, word),
        word.len() >= 1,
        forall|i: int| 0 <= i < word.len() ==> is_lower(#[trigger] word[i]),
        pos + word.len() == s.len() || !is_lower(s[pos + word.len()]),
    ensures
        expect_string_spec(s, pos) == (
            Ok::<Seq<char>, ParseErrorView>(word),
            pos + word.len(),
        ),
{
    assert(s[pos + 0] == word[0]);
    assert(skip_spaces(s, pos) == pos);
    lemma_name_end(s, pos, word, 0);
    assert(s.subrange(pos, pos + word.len()) =~= word);
}

/// The digits of a number that fits 64 bits, followed by something else,
/// are read as that number.
pub proof fn lemma_number_token(s: Seq<char>, pos: int, n: nat)
    requires
        has_at(s, pos, digits_of(n)),
        n <= i64::MAX,
        pos + digits_of(n).len() == s.len() || !is_digit(s[pos + digits_of(n).len()]),
    ensures
        expect_immediate_spec(s, pos) == (
            Ok::<i64, ParseErrorView>(n as i64),
            pos + digits_of(n).len(),
        ),
{
    let digits = digits_of(n);
    lemma_digits_of(n);
    assert(s[pos + 0] == digits[0]);
    assert(is_digit(digits[0]));
    assert(skip_spaces(s, pos) == pos);
    lemma_number_end(s, pos, digits, 0);
    assert(s.subrange(pos, pos + digits.len()) =~= digits);
    assert(digits[0] != '-' && digits[0] != '+');
    assert(signed_value(digits) == Some(n as int));
}

/// `(`, `)` and `,` are read as themselves.
pub proof fn lemma_symbol_token(s: Seq<char>, pos: int)
    requires
        0 <= pos < s.len(),
        s[pos] == '(' || s[pos] == ')' || s[pos] == ',',
    ensures
        s[pos] == '(' ==> expect_open_spec(s, pos) == (Ok::<(), ParseErrorView>(()), pos + 1),
        s[pos] == ')' ==> expect_close_spec(s, pos) == (Ok::<(), ParseErrorView>(()), pos + 1),
        s[pos] == ',' ==> expect_comma_spec(s, pos) == (Ok::<(), ParseErrorView>(()), pos + 1),
        expect_token_spec(s, pos).1 == pos + 1,
        s[pos] == ')' ==> expect_token_spec(s, pos).0 == Ok::<TokenView, ParseErrorView>(
            TokenView::Close,
        ),
        s[pos] == ',' ==> expect_token_spec(s, pos).0 == Ok::<TokenView, ParseErrorView>(
            TokenView::Comma,
        ),
{
    assert(skip_spaces(s, pos) == pos);
}

/// Whether register `reg` has a name where register `ip` holds the
/// instruction pointer: it is one of the six registers, or it is `ip`.
pub open spec fn named(reg: usize, ip: usize) -> bool {
    reg < 6 || reg == ip
}

/// The name of a register is read as that register.
pub proof fn lemma_register_token(s: Seq<char>, pos: int, ip: usize, reg: usize)
    requires
        named(reg, ip),
        has_at(s, pos, reg_name_spec(ip, reg)),
        pos + reg_name_spec(ip, reg).len() < s.len(),
        !is_lower(s[pos + reg_name_spec(ip, reg).len()]),
    ensures
        expect_register_spec(s, pos, ip) == (
            Ok::<usize, ParseErrorView>(reg),
            pos + reg_name_spec(ip, reg).len(),
        ),
{
    let name = reg_name_spec(ip, reg);
    lemma_word_token(s, pos, name);
    if reg == ip {
        assert(name =~= seq!['i', 'p']);
        assert(seq!['i', 'p'].len() == 2);
    } else {
        assert(name.len() == 1);
        assert(name =~= seq![name[0]]);
    }
}

/// Whether a hook is one that the hook language can write, where register
/// `ip` holds the instruction pointer: its registers have names, its line
/// numbers and constants are numbers that the language can write, a
/// `unique` in it has seen nothing, and an `all` in it holds a hook.
pub open spec fn writable(hook: HookView, ip: usize) -> bool
    decreases hook,
{
    match hook {
        HookView::Read(reg) => named(reg, ip),
        HookView::Write(reg) => named(reg, ip),
        HookView::Line(line) => line <= i64::MAX,
        HookView::Op(_, reg, value) => named(reg, ip) && value >= 0,
        HookView::Unique(seen, last, reg) => named(reg, ip) && seen == Set::<i64>::empty()
            && last.is_none(),
        HookView::Not(inner) => writable(*inner, ip),
        HookView::All(hooks) => hooks.len() >= 1 && forall|i: int|
            0 <= i < hooks.len() ==> writable(#[trigger] hooks[i], ip),
    }
}

/// `( register )` is read as that register.
pub proof fn lemma_register_argument(s: Seq<char>, pos: int, ip: usize, reg: usize)
    requires
        named(reg, ip),
        has_at(s, pos, seq!['('] + reg_name_spec(ip, reg) + seq![')']),
    ensures
        register_argument_spec(s, pos, ip) == (
            Ok::<usize, ParseErrorView>(reg),
            pos + reg_name_spec(ip, reg).len() + 2,
        ),
{
    let name = reg_name_spec(ip, reg);
    lemma_has_at_concat(s, pos, seq!['('] + name, seq![')']);
    lemma_has_at_concat(s, pos, seq!['('], name);
    assert(s[pos + 0] == seq!['('][0]);
    assert(s[pos + 1 + name.len() + 0] == seq![')'][0]);
    lemma_symbol_token(s, pos);
    lemma_register_token(s, pos + 1, ip, reg);
    lemma_symbol_token(s, pos + 1 + name.len());
}

/// `( number )` is read as that number.
pub proof fn lemma_immediate_argument(s: Seq<char>, pos: int, n: nat)
    requires
        n <= i64::MAX,
        has_at(s, pos, seq!['('] + digits_of(n) + seq![')']),
    ensures
        immediate_argument_spec(s, pos) == (
            Ok::<i64, ParseErrorView>(n as i64),
            pos + digits_of(n).len() + 2,
        ),
{
    let digits = digits_of(n);
    lemma_has_at_concat(s, pos, seq!['('] + digits, seq![')']);
    lemma_has_at_concat(s, pos, seq!['('], digits);
    assert(s[pos + 0] == seq!['('][0]);
    assert(s[pos + 1 + digits.len() + 0] == seq![')'][0]);
    lemma_symbol_token(s, pos);
    lemma_number_token(s, pos + 1, n);
    lemma_symbol_token(s, pos + 1 + digits.len());
}

/// `( register , number )` is read as that register and that number.
pub proof fn lemma_compare_arguments(s: Seq<char>, pos: int, ip: usize, reg: usize, n: nat)
    requires
        named(reg, ip),
        n <= i64::MAX,
        has_at(
            s,
            pos,
            seq!['('] + reg_name_spec(ip, reg) + seq![',', ' '] + digits_of(n) + seq![')'],
        ),
    ensures
        compare_arguments_spec(s, pos, ip) == (
            Ok::<(usize, i64), ParseErrorView>((reg, n as i64)),
            pos + reg_name_spec(ip, reg).len() + digits_of(n).len() + 4,
        ),
{
    let name = reg_name_spec(ip, reg);
    let digits = digits_of(n);
    lemma_has_at_concat(s, pos, seq!['('] + name + seq![',', ' '] + digits, seq![')']);
    lemma_has_at_concat(s, pos, seq!['('] + name + seq![',', ' '], digits);
    lemma_has_at_concat(s, pos, seq!['('] + name, seq![',', ' ']);
    lemma_has_at_concat(s, pos, seq!['('], name);
    let comma = pos + 1 + name.len();
    let number = comma + 2;
    let close = number + digits.len();
    assert(s[pos + 0] == seq!['('][0]);
    assert(s[comma + 0] == seq![',', ' '][0]);
    assert(s[comma + 1] == seq![',', ' '][1]);
    assert(s[close + 0] == seq![')'][0]);
    lemma_symbol_token(s, pos);
    lemma_register_token(s, pos + 1, ip, reg);
    lemma_symbol_token(s, comma);
    lemma_number_token(s, number, n);
    assert(skip_spaces(s, comma + 1) == skip_spaces(s, number));
    assert(next_token_spec(s, comma + 1) == next_token_spec(s, number));
    lemma_symbol_token(s, close);
}

/// The name by which the hook language calls the kind of `hook`.
pub open spec fn kind_word(hook: HookView) -> Seq<char> {
    match hook {
        HookView::Read(_) => seq!['r', 'e', 'a', 'd'],
        HookView::Write(_) => seq!['w', 'r', 'i', 't', 'e'],
        HookView::Line(_) => seq!['l', 'i', 'n', 'e'],
        HookView::Op(Op::Eq, _, _) => seq!['e', 'q'],
        HookView::Op(Op::Gt, _, _) => seq!['g', 't'],
        HookView::Op(Op::Gte, _, _) => seq!['g', 't', 'e'],
        HookView::Op(Op::Lt, _, _) => seq!['l', 't'],
        HookView::Op(Op::Lte, _, _) => seq!['l', 't', 'e'],
        HookView::Unique(_, _, _) => seq!['u', 'n', 'i', 'q', 'u', 'e'],
        HookView::Not(_) => seq!['n', 'o', 't'],
        HookView::All(_) => seq!['a', 'l', 'l'],
    }
}

/// What the hook language writes between the brackets of `hook`, followed
/// by the closing bracket.
pub open spec fn arguments_text(hook: HookView, ip: usize) -> Seq<char> {
    match hook {
        HookView::Read(reg) => reg_name_spec(ip, reg) + seq![')'],
        HookView::Write(reg) => reg_name_spec(ip, reg) + seq![')'],
        HookView::Line(line) => int_text(line as int) + seq![')'],
        HookView::Op(_, reg, value) => reg_name_spec(ip, reg) + seq![',', ' '] + int_text(
            value as int,
        ) + seq![')'],
        HookView::Unique(_, _, reg) => reg_name_spec(ip, reg) + seq![')'],
        HookView::Not(inner) => display_text(*inner, ip) + seq![')'],
        HookView::All(hooks) => display_list(hooks, ip, hooks.len()) + seq![')'],
    }
}

/// A hook is written as the name of its kind, an opening bracket, and its
/// arguments with the closing bracket.
pub proof fn lemma_display_shape(hook: HookView, ip: usize)
    ensures
        display_text(hook, ip) == kind_word(hook) + seq!['('] + arguments_text(hook, ip),
        kind_word(hook).len() >= 1,
        forall|i: int| 0 <= i < kind_word(hook).len() ==> is_lower(#[trigger] kind_word(hook)[i]),
        kind_spec(kind_word(hook)) == Some(
            match hook {
                HookView::Read(_) => Kind::Read,
                HookView::Write(_) => Kind::Write,
                HookView::Line(_) => Kind::Line,
                HookView::Op(op, _, _) => Kind::Compare(op),
                HookView::Unique(_, _, _) => Kind::Unique,
                HookView::Not(_) => Kind::Not,
                HookView::All(_) => Kind::All,
            },
        ),
{
    reveal_strlit("read(");
    reveal_strlit("write(");
    reveal_strlit("line(");
    reveal_strlit("unique(");
    reveal_strlit("not(");
    reveal_strlit("all(");
    reveal_strlit("eq");
    reveal_strlit("gt");
    reveal_strlit("gte");
    reveal_strlit("lt");
    reveal_strlit("lte");
    reveal_strlit("(");
    reveal_strlit(")");
    reveal_strlit(", ");
    let word = kind_word(hook);
    assert(word.len() <= 6);
    assert(display_text(hook, ip) =~= word + seq!['('] + arguments_text(hook, ip));
    match hook {
        HookView::Read(_) => {
            assert(word[0] == 'r');
        },
        HookView::Write(_) => {
            assert(word[0] == 'w');
        },
        HookView::Line(_) => {
            assert(word[0] == 'l' && word[1] == 'i');
        },
        HookView::Op(op, _, _) => {
            assert(word[0] == 'e' || word[0] == 'g' || word[0] == 'l');
            assert(word[1] == 'q' || word[1] == 't');
        },
        HookView::Unique(_, _, _) => {
            assert(word[0] == 'u');
        },
        HookView::Not(_) => {
            assert(word[0] == 'n');
        },
        HookView::All(_) => {
            assert(word[0] == 'a');
        },
    }
}

/// What the hook language writes behind the first `k` hooks of an `all`:
/// each further hook after a comma and a space, and the closing bracket.
pub open spec fn tail_text(hooks: Seq<HookView>, ip: usize, k: int) -> Seq<char>
    decreases hooks.len() - k,
{
    if k >= hooks.len() {
        seq![')']
    } else {
        seq![',', ' '] + display_text(hooks[k], ip) + tail_text(hooks, ip, k + 1)
    }
}

/// The list of an `all` is its first `n` hooks followed by the rest.
pub proof fn lemma_list_tail(hooks: Seq<HookView>, ip: usize, n: int)
    requires
        1 <= n <= hooks.len(),
    ensures
        display_list(hooks, ip, n as nat) + tail_text(hooks, ip, n) == display_list(
            hooks,
            ip,
            hooks.len(),
        ) + seq![')'],
    decreases hooks.len() - n,
{
    if n < hooks.len() {
        reveal_strlit(", ");
        lemma_list_tail(hooks, ip, n + 1);
        assert(", "@ =~= seq![',', ' ']);
        assert(display_list(hooks, ip, (n + 1) as nat) == display_list(hooks, ip, n as nat)
            + seq![',', ' '] + display_text(hooks[n], ip));
        assert(display_list(hooks, ip, n as nat) + tail_text(hooks, ip, n) =~= display_list(
            hooks,
            ip,
            (n + 1) as nat,
        ) + tail_text(hooks, ip, n + 1));
    }
}

/// Reading what the hook language writes for a hook gives the hook back,
/// wherever in a text it stands.
pub proof fn lemma_read_written(hook: HookView, ip: usize, s: Seq<char>, pos: int)
    requires
        writable(hook, ip),
        has_at(s, pos, display_text(hook, ip)),
    ensures
        hook_spec(s, pos, ip) == (
            Ok::<HookView, ParseErrorView>(hook),
            pos + display_text(hook, ip).len(),
        ),
    decreases hook, 0nat,
{
    lemma_display_shape(hook, ip);
    let word = kind_word(hook);
    let arguments = arguments_text(hook, ip);
    lemma_has_at_concat(s, pos, word + seq!['('], arguments);
    lemma_has_at_concat(s, pos, word, seq!['(']);
    let open = pos + word.len();
    assert(s[open + 0] == seq!['('][0]);
    lemma_word_token(s, pos, word);
    let inside = open + 1;
    match hook {
        HookView::Read(reg) => {
            assert(seq!['('] + reg_name_spec(ip, reg) + seq![')'] =~= seq!['('] + arguments);
            lemma_register_argument(s, open, ip, reg);
        },
        HookView::Write(reg) => {
            assert(seq!['('] + reg_name_spec(ip, reg) + seq![')'] =~= seq!['('] + arguments);
            lemma_register_argument(s, open, ip, reg);
        },
        HookView::Unique(_, _, reg) => {
            assert(seq!['('] + reg_name_spec(ip, reg) + seq![')'] =~= seq!['('] + arguments);
            lemma_register_argument(s, open, ip, reg);
        },
        HookView::Line(line) => {
            assert(seq!['('] + digits_of(line as nat) + seq![')'] =~= seq!['('] + arguments);
            lemma_immediate_argument(s, open, line as nat);
        },
        HookView::Op(op, reg, value) => {
            assert(seq!['('] + reg_name_spec(ip, reg) + seq![',', ' '] + digits_of(value as nat)
                + seq![')'] =~= seq!['('] + arguments);
            lemma_compare_arguments(s, open, ip, reg, value as nat);
        },
        HookView::Not(inner) => {
            let text = display_text(*inner, ip);
            lemma_has_at_concat(s, inside, text, seq![')']);
            lemma_symbol_token(s, open);
            lemma_read_written(*inner, ip, s, inside);
            assert(s[inside + text.len() + 0] == seq![')'][0]);
            lemma_symbol_token(s, inside + text.len());
        },
        HookView::All(hooks) => {
            lemma_symbol_token(s, open);
            lemma_list_tail(hooks, ip, 1);
            let first = display_text(hooks[0], ip);
            let tail = tail_text(hooks, ip, 1);
            assert(display_list(hooks, ip, 1) == first);
            lemma_has_at_concat(s, inside, first, tail);
            lemma_read_written(hooks[0], ip, s, inside);
            lemma_more_written(hooks, ip, s, inside + first.len(), 1);
            assert(hooks.take(1) =~= seq![hooks[0]]);
            lemma_tail_len(hooks, ip, 1);
        },
    }
}

/// The rest of an `all` is never empty.
pub proof fn lemma_tail_len(hooks: Seq<HookView>, ip: usize, k: int)
    ensures
        tail_text(hooks, ip, k).len() >= 1,
    decreases hooks.len() - k,
{
    if k < hooks.len() {
        lemma_tail_len(hooks, ip, k + 1);
    }
}

/// Reading what the hook language writes behind the first `k` hooks of an
/// `all` gives all its hooks.
pub proof fn lemma_more_written(hooks: Seq<HookView>, ip: usize, s: Seq<char>, pos: int, k: int)
    requires
        1 <= k <= hooks.len(),
        forall|i: int| 0 <= i < hooks.len() ==> writable(#[trigger] hooks[i], ip),
        has_at(s, pos, tail_text(hooks, ip, k)),
    ensures
        more_hooks_spec(s, pos, ip, hooks.take(k)) == (
            Ok::<Seq<HookView>, ParseErrorView>(hooks),
            pos + tail_text(hooks, ip, k).len(),
        ),
    decreases hooks, hooks.len() - k,
{
    if k >= hooks.len() {
        assert(s[pos + 0] == seq![')'][0]);
        lemma_symbol_token(s, pos);
        assert(hooks.take(k) =~= hooks);
    } else {
        let text = display_text(hooks[k], ip);
        let tail = tail_text(hooks, ip, k + 1);
        lemma_has_at_concat(s, pos, seq![',', ' '] + text, tail);
        lemma_has_at_concat(s, pos, seq![',', ' '], text);
        assert(s[pos + 0] == seq![',', ' '][0]);
        assert(s[pos + 1] == seq![',', ' '][1]);
        lemma_symbol_token(s, pos);
        lemma_read_written(hooks[k], ip, s, pos + 2);
        assert(skip_spaces(s, pos + 1) == skip_spaces(s, pos + 2));
        assert(next_token_spec(s, pos + 1) == next_token_spec(s, pos + 2));
        assert(hook_spec(s, pos + 1, ip) == hook_spec(s, pos + 2, ip));
        lemma_more_written(hooks, ip, s, pos + 2 + text.len(), k + 1);
        assert(hooks.take(k).push(hooks[k]) =~= hooks.take(k + 1));
    }
}

/// Parsing what `display` writes for a hook gives the hook back.
pub proof fn lemma_parse_display(hook: HookView, ip: usize)
    requires
        writable(hook, ip),
    ensures
        hook_spec(display_text(hook, ip), 0, ip).0 == Ok::<HookView, ParseErrorView>(hook),
{
    let text = display_text(hook, ip);
    assert(has_at(text, 0, text));
    lemma_read_written(hook, ip, text, 0);
}

} // verus!
