//! The hook language: its tokens and its grammar.
use vstd::prelude::*;
use crate::device::Device;
use crate::hook::{hook_view, hooks_view, Hook, HookView, Op};
use crate::text::{
    chars_of, int_text, is_digit, parse_i64, parse_i64_spec, push_char, push_i64, string_of,
};

verus! {

/// A token of the hook language.
#[derive(Debug, PartialEq, Eq)]
pub enum Token {
    String(String),
    Immediate(i64),
    Open,
    Close,
    Comma,
}

/// A token as a mathematical value.
pub enum TokenView {
    String(Seq<char>),
    Immediate(i64),
    Open,
    Close,
    Comma,
}

impl View for Token {
    type V = TokenView;

    open spec fn view(&self) -> TokenView {
        match *self {
            Token::String(text) => TokenView::String(text@),
            Token::Immediate(value) => TokenView::Immediate(value),
            Token::Open => TokenView::Open,
            Token::Close => TokenView::Close,
            Token::Comma => TokenView::Comma,
        }
    }
}

/// Why a text is no hook.
#[derive(Debug, PartialEq, Eq)]
pub enum ParseError {
    /// A character that no token starts with.
    UnexpectedCharacter(char),
    /// A number too large for a signed 64-bit integer; its digits are
    /// carried along.
    BadImmediate(String),
    /// The text ended where a token had to follow.
    ExpectedToken,
    /// A name had to follow; the token found instead is carried along.
    ExpectedString(Token),
    /// A number had to follow; the token found instead is carried along.
    ExpectedImmediate(Token),
    /// `(` had to follow; the token found instead is carried along.
    ExpectedOpen(Token),
    /// `)` had to follow; the token found instead is carried along.
    ExpectedClose(Token),
    /// `,` had to follow; the token found instead is carried along.
    ExpectedComma(Token),
    /// `,` or `)` had to follow; the token found instead is carried along.
    ExpectedCommaOrClose(Token),
    /// A name that names no register; the name is carried along.
    NotARegister(String),
    /// A name that names no kind of hook; the name is carried along.
    NoSuchFunction(String),
}

/// A parse error as a mathematical value.
pub enum ParseErrorView {
    UnexpectedCharacter(char),
    BadImmediate(Seq<char>),
    ExpectedToken,
    ExpectedString(TokenView),
    ExpectedImmediate(TokenView),
    ExpectedOpen(TokenView),
    ExpectedClose(TokenView),
    ExpectedComma(TokenView),
    ExpectedCommaOrClose(TokenView),
    NotARegister(Seq<char>),
    NoSuchFunction(Seq<char>),
}

impl View for ParseError {
    type V = ParseErrorView;

    open spec fn view(&self) -> ParseErrorView {
        match *self {
            ParseError::UnexpectedCharacter(c) => ParseErrorView::UnexpectedCharacter(c),
            ParseError::BadImmediate(text) => ParseErrorView::BadImmediate(text@),
            ParseError::ExpectedToken => ParseErrorView::ExpectedToken,
            ParseError::ExpectedString(token) => ParseErrorView::ExpectedString(token@),
            ParseError::ExpectedImmediate(token) => ParseErrorView::ExpectedImmediate(token@),
            ParseError::ExpectedOpen(token) => ParseErrorView::ExpectedOpen(token@),
            ParseError::ExpectedClose(token) => ParseErrorView::ExpectedClose(token@),
            ParseError::ExpectedComma(token) => ParseErrorView::ExpectedComma(token@),
            ParseError::ExpectedCommaOrClose(token) => ParseErrorView::ExpectedCommaOrClose(
                token@,
            ),
            ParseError::NotARegister(text) => ParseErrorView::NotARegister(text@),
            ParseError::NoSuchFunction(text) => ParseErrorView::NoSuchFunction(text@),
        }
    }
}

/// How a token is shown to the user.
pub open spec fn token_text(token: TokenView) -> Seq<char> {
    match token {
        TokenView::String(text) => "String(\""@ + text + "\")"@,
        TokenView::Immediate(value) => "Immediate("@ + int_text(value as int) + ")"@,
        TokenView::Open => "Open"@,
        TokenView::Close => "Close"@,
        TokenView::Comma => "Comma"@,
    }
}

/// What a parse error says to the user.
pub open spec fn parse_error_text(e: ParseErrorView) -> Seq<char> {
    match e {
        ParseErrorView::UnexpectedCharacter(c) => "unexpected character: "@.push(c),
        ParseErrorView::BadImmediate(digits) => "number too large: "@ + digits,
        ParseErrorView::ExpectedToken => "expected token"@,
        ParseErrorView::ExpectedString(token) => "expected string, but got: "@ + token_text(token),
        ParseErrorView::ExpectedImmediate(token) => "expected immediate, but got: "@ + token_text(
            token,
        ),
        ParseErrorView::ExpectedOpen(token) => "expected `(`, but got: "@ + token_text(token),
        ParseErrorView::ExpectedClose(token) => "expected `)`, but got: "@ + token_text(token),
        ParseErrorView::ExpectedComma(token) => "expected `,`, but got: "@ + token_text(token),
        ParseErrorView::ExpectedCommaOrClose(token) => "expected comma or close, but got: "@
            + token_text(token),
        ParseErrorView::NotARegister(name) => "not a register: "@ + name,
        ParseErrorView::NoSuchFunction(name) => "no such function: "@ + name,
    }
}

impl Token {
    /// Appends to `out` how the token is shown to the user.
    pub fn push_text(&self, out: &mut String)
        ensures
            final(out)@ == old(out)@ + token_text(self@),
    {
        match self {
            Token::String(text) => {
                out.append("String(\"");
                out.append(text.as_str());
                out.append("\")");
            },
            Token::Immediate(value) => {
                out.append("Immediate(");
                push_i64(out, *value);
                out.append(")");
            },
            Token::Open => {
                out.append("Open");
            },
            Token::Close => {
                out.append("Close");
            },
            Token::Comma => {
                out.append("Comma");
            },
        }
    }
}

impl ParseError {
    /// What the error says to the user.
    pub fn to_string(&self) -> (r: String)
        ensures
            r@ == parse_error_text(self@),
    {
        let mut out = String::new();
        match self {
            ParseError::UnexpectedCharacter(c) => {
                out.append("unexpected character: ");
                push_char(&mut out, *c);
            },
            ParseError::BadImmediate(digits) => {
                out.append("number too large: ");
                out.append(digits.as_str());
            },
            ParseError::ExpectedToken => {
                out.append("expected token");
            },
            ParseError::ExpectedString(token) => {
                out.append("expected string, but got: ");
                token.push_text(&mut out);
            },
            ParseError::ExpectedImmediate(token) => {
                out.append("expected immediate, but got: ");
                token.push_text(&mut out);
            },
            ParseError::ExpectedOpen(token) => {
                out.append("expected `(`, but got: ");
                token.push_text(&mut out);
            },
            ParseError::ExpectedClose(token) => {
                out.append("expected `)`, but got: ");
                token.push_text(&mut out);
            },
            ParseError::ExpectedComma(token) => {
                out.append("expected `,`, but got: ");
                token.push_text(&mut out);
            },
            ParseError::ExpectedCommaOrClose(token) => {
                out.append("expected comma or close, but got: ");
                token.push_text(&mut out);
            },
            ParseError::NotARegister(name) => {
                out.append("not a register: ");
                out.append(name.as_str());
            },
            ParseError::NoSuchFunction(name) => {
                out.append("no such function: ");
                out.append(name.as_str());
            },
        }
        out
    }
}

/// Whether `c` is a lowercase letter `a` to `z`.
pub open spec fn is_lower(c: char) -> bool {
    'a' <= c <= 'z'
}

/// The first position at or after `pos` that holds no space, or the length
/// of `s` where only spaces follow.
pub open spec fn skip_spaces(s: Seq<char>, pos: int) -> int
    decreases s.len() - pos,
{
    if 0 <= pos < s.len() && s[pos] == ' ' {
        skip_spaces(s, pos + 1)
    } else {
        pos
    }
}

/// The first position at or after `pos` that holds no lowercase letter.
pub open spec fn name_end(s: Seq<char>, pos: int) -> int
    decreases s.len() - pos,
{
    if 0 <= pos < s.len() && is_lower(s[pos]) {
        name_end(s, pos + 1)
    } else {
        pos
    }
}

/// The first position at or after `pos` that holds no digit.
pub open spec fn number_end(s: Seq<char>, pos: int) -> int
    decreases s.len() - pos,
{
    if 0 <= pos < s.len() && is_digit(s[pos]) {
        number_end(s, pos + 1)
    } else {
        pos
    }
}

/// The token that starts at or after position `pos` of `s`, and the position
/// behind it.
///
/// Spaces before the token are passed over. A run of lowercase letters is a
/// name, a run of digits is a number, and `(`, `)` and `,` stand for
/// themselves. `Ok(None)` where only spaces are left. A number that does not
/// fit 64 bits is an error, and the position is behind its digits; any other
/// character is an error, and the position is at that character.
pub open spec fn next_token_spec(s: Seq<char>, pos: int) -> (
    Result<Option<TokenView>, ParseErrorView>,
    int,
) {
    let start = skip_spaces(s, pos);
    if !(0 <= start < s.len()) {
        (Ok(None), start)
    } else {
        let c = s[start];
        if is_lower(c) {
            let end = name_end(s, start);
            (Ok(Some(TokenView::String(s.subrange(start, end)))), end)
        } else if is_digit(c) {
            let end = number_end(s, start);
            let digits = s.subrange(start, end);
            match parse_i64_spec(digits) {
                Some(value) => (Ok(Some(TokenView::Immediate(value))), end),
                None => (Err(ParseErrorView::BadImmediate(digits)), end),
            }
        } else if c == '(' {
            (Ok(Some(TokenView::Open)), start + 1)
        } else if c == ')' {
            (Ok(Some(TokenView::Close)), start + 1)
        } else if c == ',' {
            (Ok(Some(TokenView::Comma)), start + 1)
        } else {
            (Err(ParseErrorView::UnexpectedCharacter(c)), start)
        }
    }
}

/// Skipping spaces never goes back, nor past the end of the text.
pub proof fn lemma_skip_spaces_bounds(s: Seq<char>, pos: int)
    requires
        0 <= pos <= s.len(),
    ensures
        pos <= skip_spaces(s, pos) <= s.len(),
    decreases s.len() - pos,
{
    if pos < s.len() && s[pos] == ' ' {
        lemma_skip_spaces_bounds(s, pos + 1);
    }
}

/// A name ends at or after its start, within the text.
pub proof fn lemma_name_end_bounds(s: Seq<char>, pos: int)
    requires
        0 <= pos <= s.len(),
    ensures
        pos <= name_end(s, pos) <= s.len(),
    decreases s.len() - pos,
{
    if pos < s.len() && is_lower(s[pos]) {
        lemma_name_end_bounds(s, pos + 1);
    }
}

/// A number ends at or after its start, within the text.
pub proof fn lemma_number_end_bounds(s: Seq<char>, pos: int)
    requires
        0 <= pos <= s.len(),
    ensures
        pos <= number_end(s, pos) <= s.len(),
    decreases s.len() - pos,
{
    if pos < s.len() && is_digit(s[pos]) {
        lemma_number_end_bounds(s, pos + 1);
    }
}

/// Reading a token never goes back, and a token that was read has taken at
/// least one character.
pub proof fn lemma_next_token_advances(s: Seq<char>, pos: int)
    requires
        0 <= pos <= s.len(),
    ensures
        pos <= next_token_spec(s, pos).1 <= s.len(),
        next_token_spec(s, pos).0 matches Ok(Some(_)) ==> pos < next_token_spec(s, pos).1,
{
    lemma_skip_spaces_bounds(s, pos);
    let start = skip_spaces(s, pos);
    if start < s.len() {
        lemma_name_end_bounds(s, start + 1);
        lemma_number_end_bounds(s, start + 1);
    }
}

/// The token at or after `pos`, where the text must not end there.
pub open spec fn expect_token_spec(s: Seq<char>, pos: int) -> (Result<TokenView, ParseErrorView>, int) {
    let (token, end) = next_token_spec(s, pos);
    (
        match token {
            Ok(Some(token)) => Ok(token),
            Ok(None) => Err(ParseErrorView::ExpectedToken),
            Err(e) => Err(e),
        },
        end,
    )
}

/// Reads the token at or after `pos`, which must be `(`.
pub open spec fn expect_open_spec(s: Seq<char>, pos: int) -> (Result<(), ParseErrorView>, int) {
    let (token, end) = expect_token_spec(s, pos);
    (
        match token {
            Ok(TokenView::Open) => Ok(()),
            Ok(other) => Err(ParseErrorView::ExpectedOpen(other)),
            Err(e) => Err(e),
        },
        end,
    )
}

/// Reads the token at or after `pos`, which must be `)`.
pub open spec fn expect_close_spec(s: Seq<char>, pos: int) -> (Result<(), ParseErrorView>, int) {
    let (token, end) = expect_token_spec(s, pos);
    (
        match token {
            Ok(TokenView::Close) => Ok(()),
            Ok(other) => Err(ParseErrorView::ExpectedClose(other)),
            Err(e) => Err(e),
        },
        end,
    )
}

/// Reads the token at or after `pos`, which must be `,`.
pub open spec fn expect_comma_spec(s: Seq<char>, pos: int) -> (Result<(), ParseErrorView>, int) {
    let (token, end) = expect_token_spec(s, pos);
    (
        match token {
            Ok(TokenView::Comma) => Ok(()),
            Ok(other) => Err(ParseErrorView::ExpectedComma(other)),
            Err(e) => Err(e),
        },
        end,
    )
}

/// Reads the token at or after `pos`, which must be a name.
pub open spec fn expect_string_spec(s: Seq<char>, pos: int) -> (
    Result<Seq<char>, ParseErrorView>,
    int,
) {
    let (token, end) = expect_token_spec(s, pos);
    (
        match token {
            Ok(TokenView::String(name)) => Ok(name),
            Ok(other) => Err(ParseErrorView::ExpectedString(other)),
            Err(e) => Err(e),
        },
        end,
    )
}

/// Reads the token at or after `pos`, which must be a number.
pub open spec fn expect_immediate_spec(s: Seq<char>, pos: int) -> (
    Result<i64, ParseErrorView>,
    int,
) {
    let (token, end) = expect_token_spec(s, pos);
    (
        match token {
            Ok(TokenView::Immediate(value)) => Ok(value),
            Ok(other) => Err(ParseErrorView::ExpectedImmediate(other)),
            Err(e) => Err(e),
        },
        end,
    )
}

/// The register that `name` names, where register `ip` holds the
/// instruction pointer: `a` to `f` are registers 0 to 5, and `ip` is
/// register `ip`.
pub open spec fn register_spec(name: Seq<char>, ip: usize) -> Option<usize> {
    if name == seq!['a'] {
        Some(0)
    } else if name == seq!['b'] {
        Some(1)
    } else if name == seq!['c'] {
        Some(2)
    } else if name == seq!['d'] {
        Some(3)
    } else if name == seq!['e'] {
        Some(4)
    } else if name == seq!['f'] {
        Some(5)
    } else if name == seq!['i', 'p'] {
        Some(ip)
    } else {
        None
    }
}

/// Reads the token at or after `pos`, which must name a register.
pub open spec fn expect_register_spec(s: Seq<char>, pos: int, ip: usize) -> (
    Result<usize, ParseErrorView>,
    int,
) {
    let (name, end) = expect_string_spec(s, pos);
    (
        match name {
            Ok(name) => match register_spec(name, ip) {
                Some(register) => Ok(register),
                None => Err(ParseErrorView::NotARegister(name)),
            },
            Err(e) => Err(e),
        },
        end,
    )
}

/// The kinds of hook, by the names that the language gives them.
pub enum Kind {
    Line,
    Read,
    Write,
    Unique,
    All,
    Not,
    Compare(Op),
}

/// The kind of hook that `name` names.
pub open spec fn kind_spec(name: Seq<char>) -> Option<Kind> {
    if name == seq!['l', 'i', 'n', 'e'] {
        Some(Kind::Line)
    } else if name == seq!['r', 'e', 'a', 'd'] {
        Some(Kind::Read)
    } else if name == seq!['w', 'r', 'i', 't', 'e'] {
        Some(Kind::Write)
    } else if name == seq!['u', 'n', 'i', 'q', 'u', 'e'] {
        Some(Kind::Unique)
    } else if name == seq!['a', 'l', 'l'] {
        Some(Kind::All)
    } else if name == seq!['n', 'o', 't'] {
        Some(Kind::Not)
    } else if name == seq!['g', 't'] {
        Some(Kind::Compare(Op::Gt))
    } else if name == seq!['l', 't'] {
        Some(Kind::Compare(Op::Lt))
    } else if name == seq!['e', 'q'] {
        Some(Kind::Compare(Op::Eq))
    } else if name == seq!['g', 't', 'e'] {
        Some(Kind::Compare(Op::Gte))
    } else if name == seq!['l', 't', 'e'] {
        Some(Kind::Compare(Op::Lte))
    } else {
        None
    }
}

/// Reads `( register )` from `pos`.
pub open spec fn register_argument_spec(s: Seq<char>, pos: int, ip: usize) -> (
    Result<usize, ParseErrorView>,
    int,
) {
    let (open, pos1) = expect_open_spec(s, pos);
    match open {
        Err(e) => (Err(e), pos1),
        Ok(()) => {
            let (register, pos2) = expect_register_spec(s, pos1, ip);
            match register {
                Err(e) => (Err(e), pos2),
                Ok(register) => {
                    let (close, pos3) = expect_close_spec(s, pos2);
                    match close {
                        Err(e) => (Err(e), pos3),
                        Ok(()) => (Ok(register), pos3),
                    }
                },
            }
        },
    }
}

/// Reads `( number )` from `pos`.
pub open spec fn immediate_argument_spec(s: Seq<char>, pos: int) -> (
    Result<i64, ParseErrorView>,
    int,
) {
    let (open, pos1) = expect_open_spec(s, pos);
    match open {
        Err(e) => (Err(e), pos1),
        Ok(()) => {
            let (value, pos2) = expect_immediate_spec(s, pos1);
            match value {
                Err(e) => (Err(e), pos2),
                Ok(value) => {
                    let (close, pos3) = expect_close_spec(s, pos2);
                    match close {
                        Err(e) => (Err(e), pos3),
                        Ok(()) => (Ok(value), pos3),
                    }
                },
            }
        },
    }
}

/// Reads `( register , number )` from `pos`.
pub open spec fn compare_arguments_spec(s: Seq<char>, pos: int, ip: usize) -> (
    Result<(usize, i64), ParseErrorView>,
    int,
) {
    let (open, pos1) = expect_open_spec(s, pos);
    match open {
        Err(e) => (Err(e), pos1),
        Ok(()) => {
            let (register, pos2) = expect_register_spec(s, pos1, ip);
            match register {
                Err(e) => (Err(e), pos2),
                Ok(register) => {
                    let (comma, pos3) = expect_comma_spec(s, pos2);
                    match comma {
                        Err(e) => (Err(e), pos3),
                        Ok(()) => {
                            let (value, pos4) = expect_immediate_spec(s, pos3);
                            match value {
                                Err(e) => (Err(e), pos4),
                                Ok(value) => {
                                    let (close, pos5) = expect_close_spec(s, pos4);
                                    match close {
                                        Err(e) => (Err(e), pos5),
                                        Ok(()) => (Ok((register, value)), pos5),
                                    }
                                },
                            }
                        },
                    }
                },
            }
        },
    }
}

/// The position `end`, which lies between `start` and the end of `s`
/// wherever a hook was read from `start` to `end`.
pub open spec fn within(s: Seq<char>, start: int, end: int) -> int {
    if end < start {
        start
    } else if end > s.len() {
        s.len() as int
    } else {
        end
    }
}

/// The hook written at or after position `pos` of `s`, and the position
/// behind it, or the first error and the position at which reading stopped.
/// Register `ip` is the one that the name `ip` stands for.
///
/// ```text
/// hook := line ( number ) | read ( register ) | write ( register )
///       | unique ( register ) | not ( hook ) | all ( hook {, hook} )
///       | (eq | lt | lte | gt | gte) ( register , number )
/// ```
pub open spec fn hook_spec(s: Seq<char>, pos: int, ip: usize) -> (
    Result<HookView, ParseErrorView>,
    int,
)
    decreases s.len() - pos, 1nat,
    when 0 <= pos <= s.len()
{
    let (name, pos1) = expect_string_spec(s, pos);
    match name {
        Err(e) => (Err(e), pos1),
        Ok(name) => match kind_spec(name) {
            None => (Err(ParseErrorView::NoSuchFunction(name)), pos1),
            Some(Kind::Line) => {
                let (line, end) = immediate_argument_spec(s, pos1);
                match line {
                    Err(e) => (Err(e), end),
                    Ok(line) => (Ok(HookView::Line(line as usize)), end),
                }
            },
            Some(Kind::Read) => {
                let (register, end) = register_argument_spec(s, pos1, ip);
                match register {
                    Err(e) => (Err(e), end),
                    Ok(register) => (Ok(HookView::Read(register)), end),
                }
            },
            Some(Kind::Write) => {
                let (register, end) = register_argument_spec(s, pos1, ip);
                match register {
                    Err(e) => (Err(e), end),
                    Ok(register) => (Ok(HookView::Write(register)), end),
                }
            },
            Some(Kind::Unique) => {
                let (register, end) = register_argument_spec(s, pos1, ip);
                match register {
                    Err(e) => (Err(e), end),
                    Ok(register) => (Ok(HookView::Unique(Set::empty(), None, register)), end),
                }
            },
            Some(Kind::Compare(op)) => {
                let (arguments, end) = compare_arguments_spec(s, pos1, ip);
                match arguments {
                    Err(e) => (Err(e), end),
                    Ok((register, value)) => (Ok(HookView::Op(op, register, value)), end),
                }
            },
            Some(Kind::Not) => {
                let (open, pos2) = expect_open_spec(s, pos1);
                match open {
                    Err(e) => (Err(e), pos2),
                    Ok(()) => {
                        proof {
                            lemma_next_token_advances(s, pos);
                            lemma_next_token_advances(s, pos1);
                        }
                        let (inner, pos3) = hook_spec(s, pos2, ip);
                        match inner {
                            Err(e) => (Err(e), pos3),
                            Ok(inner) => {
                                let (close, pos4) = expect_close_spec(s, pos3);
                                match close {
                                    Err(e) => (Err(e), pos4),
                                    Ok(()) => (Ok(HookView::Not(Box::new(inner))), pos4),
                                }
                            },
                        }
                    },
                }
            },
            Some(Kind::All) => {
                let (open, pos2) = expect_open_spec(s, pos1);
                match open {
                    Err(e) => (Err(e), pos2),
                    Ok(()) => {
                        proof {
                            lemma_next_token_advances(s, pos);
                            lemma_next_token_advances(s, pos1);
                        }
                        let (first, pos3) = hook_spec(s, pos2, ip);
                        match first {
                            Err(e) => (Err(e), pos3),
                            Ok(first) => {
                                let (hooks, pos4) = more_hooks_spec(
                                    s,
                                    within(s, pos2, pos3),
                                    ip,
                                    seq![first],
                                );
                                match hooks {
                                    Err(e) => (Err(e), pos4),
                                    Ok(hooks) => (Ok(HookView::All(hooks)), pos4),
                                }
                            },
                        }
                    },
                }
            },
        },
    }
}

/// Reads the rest of the hooks of an `all` from `pos`, after the hooks `read`
/// have been read: `)` ends the list, `,` is followed by one more hook.
pub open spec fn more_hooks_spec(s: Seq<char>, pos: int, ip: usize, read: Seq<HookView>) -> (
    Result<Seq<HookView>, ParseErrorView>,
    int,
)
    decreases s.len() - pos, 0nat,
    when 0 <= pos <= s.len()
{
    let (token, pos1) = expect_token_spec(s, pos);
    match token {
        Err(e) => (Err(e), pos1),
        Ok(TokenView::Close) => (Ok(read), pos1),
        Ok(TokenView::Comma) => {
            proof {
                lemma_next_token_advances(s, pos);
            }
            let (hook, pos2) = hook_spec(s, pos1, ip);
            match hook {
                Err(e) => (Err(e), pos2),
                Ok(hook) => more_hooks_spec(s, within(s, pos1, pos2), ip, read.push(hook)),
            }
        },
        Ok(other) => (Err(ParseErrorView::ExpectedCommaOrClose(other)), pos1),
    }
}

impl Token {
    /// The name that the token is.
    fn as_string(self) -> (r: Result<String, ParseError>)
        ensures
            match r {
                Ok(name) => self@ == TokenView::String(name@),
                Err(e) => !(self@ is String) && e@ == ParseErrorView::ExpectedString(self@),
            },
    {
        match self {
            Token::String(string) => Ok(string),
            other => Err(ParseError::ExpectedString(other)),
        }
    }

    /// The number that the token is.
    fn as_immediate(self) -> (r: Result<i64, ParseError>)
        ensures
            match r {
                Ok(value) => self@ == TokenView::Immediate(value),
                Err(e) => !(self@ is Immediate) && e@ == ParseErrorView::ExpectedImmediate(self@),
            },
    {
        match self {
            Token::Immediate(immediate) => Ok(immediate),
            other => Err(ParseError::ExpectedImmediate(other)),
        }
    }

    /// The register that the token names, where register `ip` holds the
    /// instruction pointer.
    fn as_register(self, ip: usize) -> (r: Result<usize, ParseError>)
        ensures
            match r {
                Ok(register) => self@ matches TokenView::String(name) && register_spec(name, ip)
                    == Some(register),
                Err(e) => match self@ {
                    TokenView::String(name) => register_spec(name, ip) is None && e@
                        == ParseErrorView::NotARegister(name),
                    other => e@ == ParseErrorView::ExpectedString(other),
                },
            },
    {
        let name = self.as_string()?;
        match register_of(chars_of(name.as_str()).as_slice(), ip) {
            Some(register) => Ok(register),
            None => Err(ParseError::NotARegister(name)),
        }
    }

    /// Succeeds where the token is `(`.
    fn as_open(self) -> (r: Result<(), ParseError>)
        ensures
            r is Ok <==> self@ is Open,
            r matches Err(e) ==> e@ == ParseErrorView::ExpectedOpen(self@),
    {
        match self {
            Token::Open => Ok(()),
            other => Err(ParseError::ExpectedOpen(other)),
        }
    }

    /// Succeeds where the token is `)`.
    fn as_close(self) -> (r: Result<(), ParseError>)
        ensures
            r is Ok <==> self@ is Close,
            r matches Err(e) ==> e@ == ParseErrorView::ExpectedClose(self@),
    {
        match self {
            Token::Close => Ok(()),
            other => Err(ParseError::ExpectedClose(other)),
        }
    }

    /// Succeeds where the token is `,`.
    fn as_comma(self) -> (r: Result<(), ParseError>)
        ensures
            r is Ok <==> self@ is Comma,
            r matches Err(e) ==> e@ == ParseErrorView::ExpectedComma(self@),
    {
        match self {
            Token::Comma => Ok(()),
            other => Err(ParseError::ExpectedComma(other)),
        }
    }
}

/// The register that `name` names, where register `ip` holds the
/// instruction pointer.
pub fn register_of(name: &[char], ip: usize) -> (r: Option<usize>)
    ensures
        r == register_spec(name@, ip),
{
    if name.len() == 1 {
        assert(name@ =~= seq![name@[0]]);
        let c = name[0];
        if c == 'a' {
            Some(0)
        } else if c == 'b' {
            Some(1)
        } else if c == 'c' {
            Some(2)
        } else if c == 'd' {
            Some(3)
        } else if c == 'e' {
            Some(4)
        } else if c == 'f' {
            Some(5)
        } else {
            None
        }
    } else if name.len() == 2 && name[0] == 'i' && name[1] == 'p' {
        assert(name@ =~= seq!['i', 'p']);
        Some(ip)
    } else {
        None
    }
}

/// Whether `name` is the text `text`.
fn is_text(name: &String, text: &str) -> (r: bool)
    ensures
        r == (name@ == text@),
{
    let other = String::from_str(text);
    *name == other
}

/// The kind of hook that `name` names.
fn kind_of(name: &String) -> (r: Option<Kind>)
    ensures
        r == kind_spec(name@),
{
    proof {
        reveal_strlit("line");
        reveal_strlit("read");
        reveal_strlit("write");
        reveal_strlit("unique");
        reveal_strlit("all");
        reveal_strlit("not");
        reveal_strlit("gt");
        reveal_strlit("lt");
        reveal_strlit("eq");
        reveal_strlit("gte");
        reveal_strlit("lte");
        assert("line"@ =~= seq!['l', 'i', 'n', 'e']);
        assert("read"@ =~= seq!['r', 'e', 'a', 'd']);
        assert("write"@ =~= seq!['w', 'r', 'i', 't', 'e']);
        assert("unique"@ =~= seq!['u', 'n', 'i', 'q', 'u', 'e']);
        assert("all"@ =~= seq!['a', 'l', 'l']);
        assert("not"@ =~= seq!['n', 'o', 't']);
        assert("gt"@ =~= seq!['g', 't']);
        assert("lt"@ =~= seq!['l', 't']);
        assert("eq"@ =~= seq!['e', 'q']);
        assert("gte"@ =~= seq!['g', 't', 'e']);
        assert("lte"@ =~= seq!['l', 't', 'e']);
    }
    if is_text(name, "line") {
        Some(Kind::Line)
    } else if is_text(name, "read") {
        Some(Kind::Read)
    } else if is_text(name, "write") {
        Some(Kind::Write)
    } else if is_text(name, "unique") {
        Some(Kind::Unique)
    } else if is_text(name, "all") {
        Some(Kind::All)
    } else if is_text(name, "not") {
        Some(Kind::Not)
    } else if is_text(name, "gt") {
        Some(Kind::Compare(Op::Gt))
    } else if is_text(name, "lt") {
        Some(Kind::Compare(Op::Lt))
    } else if is_text(name, "eq") {
        Some(Kind::Compare(Op::Eq))
    } else if is_text(name, "gte") {
        Some(Kind::Compare(Op::Gte))
    } else if is_text(name, "lte") {
        Some(Kind::Compare(Op::Lte))
    } else {
        None
    }
}

/// A reader of tokens: a text and a position in it.
pub struct Tokenizer {
    chars: Vec<char>,
    pos: usize,
}

/// A tokenizer at the start of `input`.
pub fn tokenize(input: &str) -> (t: Tokenizer)
    ensures
        t.text() == input@,
        t.position() == 0,
{
    Tokenizer { chars: chars_of(input), pos: 0 }
}

/// A tokenizer at the start of the text made of `chars`.
pub fn tokenize_chars(chars: Vec<char>) -> (t: Tokenizer)
    ensures
        t.text() == chars@,
        t.position() == 0,
{
    Tokenizer { chars, pos: 0 }
}

impl Tokenizer {
    /// The text that is read.
    pub closed spec fn text(&self) -> Seq<char> {
        self.chars@
    }

    /// The position of the next character to read.
    pub closed spec fn position(&self) -> int {
        self.pos as int
    }

    #[verifier::type_invariant]
    spec fn in_range(&self) -> bool {
        self.pos <= self.chars.len()
    }

    /// The next token, or `None` at the end of the text.
    pub fn try_next(&mut self) -> (r: Result<Option<Token>, ParseError>)
        ensures
            final(self).text() == old(self).text(),
            final(self).position() == next_token_spec(old(self).text(), old(self).position()).1,
            match r {
                Ok(Some(token)) => next_token_spec(old(self).text(), old(self).position()).0
                    == Ok::<Option<TokenView>, ParseErrorView>(Some(token@)),
                Ok(None) => next_token_spec(old(self).text(), old(self).position()).0
                    == Ok::<Option<TokenView>, ParseErrorView>(None),
                Err(e) => next_token_spec(old(self).text(), old(self).position()).0
                    == Err::<Option<TokenView>, ParseErrorView>(e@),
            },
    {
        proof {
            use_type_invariant(&*self);
        }
        while self.pos < self.chars.len() && self.chars[self.pos] == ' '
            invariant
                self.pos <= self.chars.len(),
                self.chars == old(self).chars,
                skip_spaces(self.chars@, self.pos as int) == skip_spaces(
                    old(self).chars@,
                    old(self).pos as int,
                ),
            decreases self.chars.len() - self.pos,
        {
            self.pos += 1;
        }
        if self.pos >= self.chars.len() {
            return Ok(None);
        }
        let c = self.chars[self.pos];
        if c >= 'a' && c <= 'z' {
            return Ok(Some(Token::String(self.string())));
        }
        if c >= '0' && c <= '9' {
            return match self.immediate() {
                Ok(value) => Ok(Some(Token::Immediate(value))),
                Err(e) => Err(e),
            };
        }
        let t = if c == '(' {
            Token::Open
        } else if c == ')' {
            Token::Close
        } else if c == ',' {
            Token::Comma
        } else {
            return Err(ParseError::UnexpectedCharacter(c));
        };
        self.pos += 1;
        Ok(Some(t))
    }

    /// The next token; the end of the text is an error.
    pub fn next(&mut self) -> (r: Result<Token, ParseError>)
        ensures
            final(self).text() == old(self).text(),
            final(self).position() == expect_token_spec(old(self).text(), old(self).position()).1,
            old(self).position() <= final(self).position() <= old(self).text().len(),
            r is Ok ==> old(self).position() < final(self).position(),
            match r {
                Ok(token) => expect_token_spec(old(self).text(), old(self).position()).0 == Ok::<
                    TokenView,
                    ParseErrorView,
                >(token@),
                Err(e) => expect_token_spec(old(self).text(), old(self).position()).0 == Err::<
                    TokenView,
                    ParseErrorView,
                >(e@),
            },
    {
        proof {
            use_type_invariant(&*self);
            lemma_next_token_advances(self.text(), self.position());
        }
        match self.try_next() {
            Ok(Some(token)) => Ok(token),
            Ok(None) => Err(ParseError::ExpectedToken),
            Err(e) => Err(e),
        }
    }

    /// Reads the hook at the position. The name `ip` stands for the register
    /// that holds the instruction pointer of `device`.
    pub fn as_hook(&mut self, device: &Device) -> (r: Result<Hook, ParseError>)
        ensures
            final(self).text() == old(self).text(),
            final(self).position() == hook_spec(
                old(self).text(),
                old(self).position(),
                device@.registers.ip,
            ).1,
            old(self).position() <= final(self).position() <= old(self).text().len(),
            match r {
                Ok(hook) => hook_spec(
                    old(self).text(),
                    old(self).position(),
                    device@.registers.ip,
                ).0 == Ok::<HookView, ParseErrorView>(hook@),
                Err(e) => hook_spec(
                    old(self).text(),
                    old(self).position(),
                    device@.registers.ip,
                ).0 == Err::<HookView, ParseErrorView>(e@),
            },
        decreases old(self).text().len() - old(self).position(), 1nat,
    {
        proof {
            use_type_invariant(&*self);
        }
        let ip = device.registers.ip_index();
        let name = self.next()?.as_string()?;
        let kind = match kind_of(&name) {
            Some(kind) => kind,
            None => {
                return Err(ParseError::NoSuchFunction(name));
            },
        };
        match kind {
            Kind::Line => {
                let line = self.immediate_argument()?;
                Ok(
                    Hook::Line(
                        #[verifier::truncate]
                        (line as usize),
                    ),
                )
            },
            Kind::Read => {
                let reg = self.register_argument(ip)?;
                Ok(Hook::Read(reg))
            },
            Kind::Write => {
                let reg = self.register_argument(ip)?;
                Ok(Hook::Write(reg))
            },
            Kind::Unique => {
                let reg = self.register_argument(ip)?;
                Ok(Hook::unique(reg))
            },
            Kind::Compare(op) => {
                let (reg, immediate) = self.compare_arguments(ip)?;
                Ok(Hook::Op(op, reg, immediate))
            },
            Kind::Not => {
                self.next()?.as_open()?;
                let inner = self.as_hook(device)?;
                self.next()?.as_close()?;
                Ok(Hook::Not(Box::new(inner)))
            },
            Kind::All => {
                self.next()?.as_open()?;
                let mut hooks: Vec<Hook> = Vec::new();
                let first = self.as_hook(device)?;
                hooks.push(first);
                assert(hooks_view(hooks) =~= seq![first@]);
                let hooks = self.more_hooks(device, hooks)?;
                assert(hook_view(Hook::All(hooks))->All_0 =~= hooks_view(hooks));
                Ok(Hook::All(hooks))
            },
        }
    }

    /// Reads the rest of the hooks of an `all`, after `hooks` have been read.
    fn more_hooks(&mut self, device: &Device, hooks: Vec<Hook>) -> (r: Result<
        Vec<Hook>,
        ParseError,
    >)
        ensures
            final(self).text() == old(self).text(),
            final(self).position() == more_hooks_spec(
                old(self).text(),
                old(self).position(),
                device@.registers.ip,
                hooks_view(hooks),
            ).1,
            old(self).position() <= final(self).position() <= old(self).text().len(),
            match r {
                Ok(all) => more_hooks_spec(
                    old(self).text(),
                    old(self).position(),
                    device@.registers.ip,
                    hooks_view(hooks),
                ).0 == Ok::<Seq<HookView>, ParseErrorView>(hooks_view(all)),
                Err(e) => more_hooks_spec(
                    old(self).text(),
                    old(self).position(),
                    device@.registers.ip,
                    hooks_view(hooks),
                ).0 == Err::<Seq<HookView>, ParseErrorView>(e@),
            },
        decreases old(self).text().len() - old(self).position(), 0nat,
    {
        proof {
            use_type_invariant(&*self);
        }
        let mut hooks = hooks;
        let ghost before = hooks_view(hooks);
        match self.next()? {
            Token::Comma => {
                let hook = self.as_hook(device)?;
                hooks.push(hook);
                assert(hooks_view(hooks) =~= before.push(hook@));
                self.more_hooks(device, hooks)
            },
            Token::Close => Ok(hooks),
            other => Err(ParseError::ExpectedCommaOrClose(other)),
        }
    }

    /// Reads `( register )`.
    fn register_argument(&mut self, ip: usize) -> (r: Result<usize, ParseError>)
        ensures
            final(self).text() == old(self).text(),
            final(self).position() == register_argument_spec(
                old(self).text(),
                old(self).position(),
                ip,
            ).1,
            old(self).position() <= final(self).position() <= old(self).text().len(),
            match r {
                Ok(register) => register_argument_spec(
                    old(self).text(),
                    old(self).position(),
                    ip,
                ).0 == Ok::<usize, ParseErrorView>(register),
                Err(e) => register_argument_spec(old(self).text(), old(self).position(), ip).0
                    == Err::<usize, ParseErrorView>(e@),
            },
    {
        self.next()?.as_open()?;
        let reg = self.next()?.as_register(ip)?;
        self.next()?.as_close()?;
        Ok(reg)
    }

    /// Reads `( number )`.
    fn immediate_argument(&mut self) -> (r: Result<i64, ParseError>)
        ensures
            final(self).text() == old(self).text(),
            final(self).position() == immediate_argument_spec(
                old(self).text(),
                old(self).position(),
            ).1,
            old(self).position() <= final(self).position() <= old(self).text().len(),
            match r {
                Ok(value) => immediate_argument_spec(old(self).text(), old(self).position()).0
                    == Ok::<i64, ParseErrorView>(value),
                Err(e) => immediate_argument_spec(old(self).text(), old(self).position()).0
                    == Err::<i64, ParseErrorView>(e@),
            },
    {
        self.next()?.as_open()?;
        let value = self.next()?.as_immediate()?;
        self.next()?.as_close()?;
        Ok(value)
    }

    /// Reads `( register , number )`.
    fn compare_arguments(&mut self, ip: usize) -> (r: Result<(usize, i64), ParseError>)
        ensures
            final(self).text() == old(self).text(),
            final(self).position() == compare_arguments_spec(
                old(self).text(),
                old(self).position(),
                ip,
            ).1,
            old(self).position() <= final(self).position() <= old(self).text().len(),
            match r {
                Ok(arguments) => compare_arguments_spec(
                    old(self).text(),
                    old(self).position(),
                    ip,
                ).0 == Ok::<(usize, i64), ParseErrorView>(arguments),
                Err(e) => compare_arguments_spec(old(self).text(), old(self).position(), ip).0
                    == Err::<(usize, i64), ParseErrorView>(e@),
            },
    {
        self.next()?.as_open()?;
        let reg = self.next()?.as_register(ip)?;
        self.next()?.as_comma()?;
        let immediate = self.next()?.as_immediate()?;
        self.next()?.as_close()?;
        Ok((reg, immediate))
    }

    /// Reads the run of lowercase letters at the position.
    pub fn string(&mut self) -> (r: String)
        ensures
            final(self).text() == old(self).text(),
            final(self).position() == name_end(old(self).text(), old(self).position()),
            old(self).position() <= final(self).position() <= old(self).text().len(),
            r@ == old(self).text().subrange(old(self).position(), final(self).position()),
    {
        proof {
            use_type_invariant(&*self);
        }
        let mut buffer = String::new();
        let ghost start = self.pos;
        while self.pos < self.chars.len() && self.chars[self.pos] >= 'a' && self.chars[self.pos]
            <= 'z'
            invariant
                start <= self.pos <= self.chars.len(),
                start == old(self).pos,
                self.chars == old(self).chars,
                name_end(self.chars@, self.pos as int) == name_end(
                    old(self).chars@,
                    old(self).pos as int,
                ),
                buffer@ == self.chars@.subrange(start as int, self.pos as int),
            decreases self.chars.len() - self.pos,
        {
            push_char(&mut buffer, self.chars[self.pos]);
            self.pos += 1;
        }
        buffer
    }

    /// Reads the run of digits at the position as a number.
    pub fn immediate(&mut self) -> (r: Result<i64, ParseError>)
        ensures
            final(self).text() == old(self).text(),
            final(self).position() == number_end(old(self).text(), old(self).position()),
            old(self).position() <= final(self).position() <= old(self).text().len(),
            match r {
                Ok(value) => parse_i64_spec(
                    old(self).text().subrange(old(self).position(), final(self).position()),
                ) == Some(value),
                Err(e) => parse_i64_spec(
                    old(self).text().subrange(old(self).position(), final(self).position()),
                ) is None && e@ == ParseErrorView::BadImmediate(
                    old(self).text().subrange(old(self).position(), final(self).position()),
                ),
            },
    {
        proof {
            use_type_invariant(&*self);
        }
        let mut buffer: Vec<char> = Vec::new();
        let ghost start = self.pos;
        while self.pos < self.chars.len() && self.chars[self.pos] >= '0' && self.chars[self.pos]
            <= '9'
            invariant
                start <= self.pos <= self.chars.len(),
                start == old(self).pos,
                self.chars == old(self).chars,
                number_end(self.chars@, self.pos as int) == number_end(
                    old(self).chars@,
                    old(self).pos as int,
                ),
                buffer@ == self.chars@.subrange(start as int, self.pos as int),
            decreases self.chars.len() - self.pos,
        {
            buffer.push(self.chars[self.pos]);
            self.pos += 1;
        }
        match parse_i64(buffer.as_slice()) {
            Some(value) => Ok(value),
            None => Err(ParseError::BadImmediate(string_of(buffer.as_slice()))),
        }
    }
}

/// Reads a hook from `input`. The name `ip` stands for the register that
/// holds the instruction pointer of `device`. What follows the hook in
/// `input` is not looked at.
pub fn parse(input: &str, device: &Device) -> (r: Result<Hook, ParseError>)
    ensures
        match r {
            Ok(hook) => hook_spec(input@, 0, device@.registers.ip).0 == Ok::<
                HookView,
                ParseErrorView,
            >(hook@),
            Err(e) => hook_spec(input@, 0, device@.registers.ip).0 == Err::<
                HookView,
                ParseErrorView,
            >(e@),
        },
{
    let mut tokenizer = tokenize(input);
    tokenizer.as_hook(device)
}

/// Reads a hook from the text made of `input`, as `parse` does.
pub fn parse_chars(input: Vec<char>, device: &Device) -> (r: Result<Hook, ParseError>)
    ensures
        match r {
            Ok(hook) => hook_spec(input@, 0, device@.registers.ip).0 == Ok::<
                HookView,
                ParseErrorView,
            >(hook@),
            Err(e) => hook_spec(input@, 0, device@.registers.ip).0 == Err::<
                HookView,
                ParseErrorView,
            >(e@),
        },
{
    let mut tokenizer = tokenize_chars(input);
    tokenizer.as_hook(device)
}

} // verus!
