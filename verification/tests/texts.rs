use elfdb::device::{read_line, Device, Line};
use elfdb::error::Error;
use elfdb::events::{push_event, Event, Key};
use elfdb::hook::{Action, Hook, Op};
use elfdb::instruction::Instruction;
use elfdb::op_code::OpCode;
use elfdb::parser::{parse, parse_chars, tokenize, ParseError, Token};
use elfdb::registers::Registers;
use elfdb::text::{
    chars_of, digit_of, find, is_word, parse_i64, parse_usize, push_chars, push_digits,
    push_i64, push_padded, push_usize, slice, split, string_of,
};
use elfdb::AsReg;

fn chars(s: &str) -> Vec<char> {
    s.chars().collect()
}

fn loaded(lines: &[&str]) -> Device {
    let mut device = Device::default();
    device.load(lines).expect("program loads");
    device
}

#[test]
fn chars_and_strings() {
    assert_eq!(chars_of("héllo"), vec!['h', 'é', 'l', 'l', 'o']);
    assert_eq!(chars_of(""), Vec::<char>::new());
    assert_eq!(string_of(&['a', 'b']), "ab");
    assert_eq!(string_of(&[]), "");
    let mut s = "x".to_string();
    push_chars(&mut s, &['y', 'z']);
    assert_eq!(s, "xyz");
    assert!(is_word(&chars("help"), "help"));
    assert!(!is_word(&chars("help"), "hel"));
    assert!(!is_word(&chars("help"), "hell"));
    assert!(is_word(&[], ""));
    assert_eq!(find(&chars("ab cd e"), ' '), 2);
    assert_eq!(find(&chars("abc"), ' '), 3);
    assert_eq!(find(&chars(" abc"), ' '), 0);
    assert_eq!(slice(&chars("hello"), 1, 3), chars("el"));
    assert_eq!(slice(&chars("hello"), 5, 5), chars(""));
}

#[test]
fn signed_integers_are_read_as_the_standard_library_reads_them() {
    let cases = [
        "0", "7", "-7", "+7", "007", "-0", "+0", "9223372036854775807", "-9223372036854775808",
        "9223372036854775808", "-9223372036854775809", "99999999999999999999999", "", "+", "-",
        "--1", "+-1", "1 ", " 1", "1a", "a", "1_000", "٣", "0x10",
    ];
    for case in cases {
        assert_eq!(parse_i64(&chars(case)), case.parse::<i64>().ok(), "{}", case);
    }
    assert_eq!(parse_i64(&chars("-9223372036854775808")), Some(i64::MIN));
    assert_eq!(parse_i64(&chars("9223372036854775807")), Some(i64::MAX));
    assert_eq!(parse_i64(&chars("9223372036854775808")), None);
}

#[test]
fn unsigned_integers_are_read_as_the_standard_library_reads_them() {
    let cases = [
        "0", "5", "+5", "-5", "-0", "18446744073709551615", "18446744073709551616", "", "+",
        "12x", " 3", "0003",
    ];
    for case in cases {
        assert_eq!(parse_usize(&chars(case)), case.parse::<usize>().ok(), "{}", case);
    }
    assert_eq!(digit_of('7'), Some(7));
    assert_eq!(digit_of('a'), None);
}

#[test]
fn integers_are_written_in_decimal() {
    for v in [0i64, 5, 10, 99, 100, -1, -10, 1234567890, i64::MAX, i64::MIN] {
        let mut out = "v=".to_string();
        push_i64(&mut out, v);
        assert_eq!(out, format!("v={}", v));
    }
    for v in [0usize, 9, 10, 65535, usize::MAX] {
        let mut out = String::new();
        push_usize(&mut out, v);
        assert_eq!(out, format!("{}", v));
    }
    let mut out = String::new();
    push_digits(&mut out, u64::MAX);
    assert_eq!(out, "18446744073709551615");
    let mut out = "[".to_string();
    push_padded(&mut out, "a", 2);
    push_padded(&mut out, "ip", 2);
    push_padded(&mut out, "abc", 2);
    push_padded(&mut out, "", 3);
    assert_eq!(out, "[a ipabc   ");
}

#[test]
fn split_gives_every_piece() {
    let pieces = |s: &str| -> Vec<String> {
        split(&chars(s), ' ').iter().map(|p| p.iter().collect()).collect()
    };
    for case in ["", "a", "a b", "a  b", " a", "a ", "  ", "addr 1 2 3"] {
        let expected: Vec<String> = case.split(" ").map(|p| p.to_string()).collect();
        assert_eq!(pieces(case), expected, "{:?}", case);
    }
}

#[test]
fn values_that_name_registers() {
    assert_eq!(3usize.as_reg(), 3);
    assert_eq!(4i32.as_reg(), 4);
    assert_eq!(5i64.as_reg(), 5);
    assert_eq!((-1i64).as_reg(), usize::MAX);
    assert_eq!((-1i32).as_reg(), usize::MAX);
}

#[test]
fn register_names() {
    let device = loaded(&["#ip 2"]);
    let names: Vec<String> =
        (0usize..8).map(|reg| device.registers.name(reg).to_string()).collect();
    assert_eq!(names, vec!["a", "b", "ip", "d", "e", "f", "?", "?"]);
    assert_eq!(device.registers.name(2i64).to_string(), "ip");
    assert_eq!(device.registers.name(-1i64).to_string(), "?");
}

#[test]
fn registers_reset_and_clear() {
    let mut registers = Registers::default();
    registers.set_ip_index(4);
    registers.set_last_ip(Some(9));
    *registers.reg_mut(1usize).unwrap() = 5;
    *registers.ip_mut().unwrap() = 17;
    assert_eq!(registers.reg(1usize), Ok(5));
    assert_eq!(registers.ip(), Ok(17));
    assert!(registers.is_read(1usize));
    assert!(registers.is_written(1usize));
    assert!(!registers.is_written(4usize));
    registers.clear();
    assert!(!registers.is_read(1usize));
    assert!(!registers.is_written(1usize));
    assert_eq!(registers.iter(), vec![0, 5, 0, 0, 17, 0]);
    assert_eq!(registers.last_ip(), Some(9));
    registers.reg(2usize).unwrap();
    registers.reset();
    assert!(!registers.is_read(2usize));
    assert_eq!(registers.iter(), vec![0; 6]);
    assert_eq!(registers.last_ip(), None);
    assert_eq!(registers.ip_index(), 4);
    registers.set_ip_index(6);
    assert_eq!(registers.ip(), Err(Error::BadIpRegister(6)));
    assert!(registers.ip_mut().is_err());
    *registers.reg_mut(0usize).unwrap() = -1;
    registers.set_ip_index(0);
    assert_eq!(registers.ip(), Ok(usize::MAX));
}

#[test]
fn every_opcode_computes_its_value() {
    let run = |op: OpCode, a: i64, b: i64| -> i64 {
        let mut r = Registers::default();
        *r.reg_mut(0usize).unwrap() = 6;
        *r.reg_mut(1usize).unwrap() = 3;
        op.apply(&mut r, &[a, b], 2).unwrap();
        r.iter()[2]
    };
    assert_eq!(run(OpCode::Addr, 0, 1), 9);
    assert_eq!(run(OpCode::Addi, 0, 10), 16);
    assert_eq!(run(OpCode::Mulr, 0, 1), 18);
    assert_eq!(run(OpCode::Muli, 0, -2), -12);
    assert_eq!(run(OpCode::Banr, 0, 1), 2);
    assert_eq!(run(OpCode::Bani, 0, 12), 4);
    assert_eq!(run(OpCode::Borr, 0, 1), 7);
    assert_eq!(run(OpCode::Bori, 0, 8), 14);
    assert_eq!(run(OpCode::Setr, 1, 99), 3);
    assert_eq!(run(OpCode::Seti, 42, 99), 42);
    assert_eq!(run(OpCode::Gtir, 4, 1), 1);
    assert_eq!(run(OpCode::Gtir, 3, 1), 0);
    assert_eq!(run(OpCode::Gtri, 0, 5), 1);
    assert_eq!(run(OpCode::Gtri, 0, 6), 0);
    assert_eq!(run(OpCode::Gtrr, 0, 1), 1);
    assert_eq!(run(OpCode::Gtrr, 1, 0), 0);
    assert_eq!(run(OpCode::Eqir, 3, 1), 1);
    assert_eq!(run(OpCode::Eqir, 6, 1), 0);
    assert_eq!(run(OpCode::Eqri, 0, 6), 1);
    assert_eq!(run(OpCode::Eqri, 0, 3), 0);
    assert_eq!(run(OpCode::Eqrr, 0, 0), 1);
    assert_eq!(run(OpCode::Eqrr, 0, 1), 0);
}

#[test]
fn sums_and_products_wrap() {
    let mut r = Registers::default();
    *r.reg_mut(0usize).unwrap() = i64::MAX;
    OpCode::Addi.apply(&mut r, &[0, 1], 1).unwrap();
    assert_eq!(r.iter()[1], i64::MIN);
    OpCode::Muli.apply(&mut r, &[0, 2], 2).unwrap();
    assert_eq!(r.iter()[2], -2);
}

#[test]
fn apply_records_reads_before_it_fails() {
    let mut r = Registers::default();
    assert_eq!(OpCode::Addr.apply(&mut r, &[1, 7], 2), Err(Error::BadRegister(7)));
    assert!(r.is_read(1usize));
    assert!(r.is_read(7usize));
    assert!(!r.is_written(2usize));
    let mut r = Registers::default();
    assert_eq!(OpCode::Addr.apply(&mut r, &[8, 1], 2), Err(Error::BadRegister(8)));
    assert!(r.is_read(8usize));
    assert!(!r.is_read(1usize));
    let mut r = Registers::default();
    assert_eq!(OpCode::Seti.apply(&mut r, &[8, 9], 6), Err(Error::BadRegister(6)));
    assert!(r.is_written(6usize));
    assert!(!r.is_read(8usize));
    assert_eq!(r.iter(), vec![0; 6]);
}

#[test]
fn infix_symbols() {
    assert_eq!(OpCode::Addr.infix(), "+");
    assert_eq!(OpCode::Muli.infix(), "*");
    assert_eq!(OpCode::Banr.infix(), "&");
    assert_eq!(OpCode::Bori.infix(), "|");
    assert_eq!(OpCode::Setr.infix(), "?");
    assert_eq!(OpCode::Gtir.infix(), ">");
    assert_eq!(OpCode::Eqrr.infix(), "==");
    assert_eq!(OpCode::decode_chars(&chars("eqri")), Some(OpCode::Eqri));
}

#[test]
fn instructions_are_written_both_ways() {
    let device = loaded(&["#ip 3"]);
    let show = |line: &str| -> (String, String) {
        let inst = Instruction::decode(line).unwrap();
        (inst.display().to_string(), inst.human_display(&device.registers).to_string())
    };
    assert_eq!(show("addr 0 1 2"), ("addr 0 1 2".to_string(), "c  = a + b".to_string()));
    assert_eq!(show("addi 3 -5 3"), ("addi 3 -5 3".to_string(), "ip = ip + -5".to_string()));
    assert_eq!(show("mulr 4 5 0"), ("mulr 4 5 0".to_string(), "a  = e * f".to_string()));
    assert_eq!(show("bani 1 255 1"), ("bani 1 255 1".to_string(), "b  = b & 255".to_string()));
    assert_eq!(show("bori 1 8 9"), ("bori 1 8 9".to_string(), "?  = b | 8".to_string()));
    assert_eq!(show("setr 2 7 5"), ("setr 2 7 5".to_string(), "f  = c".to_string()));
    assert_eq!(show("seti 2 7 5"), ("seti 2 7 5".to_string(), "f  = 2".to_string()));
    assert_eq!(show("gtir 9 1 0"), ("gtir 9 1 0".to_string(), "a  = 9 > b".to_string()));
    assert_eq!(show("gtri 1 9 0"), ("gtri 1 9 0".to_string(), "a  = b > 9".to_string()));
    assert_eq!(show("eqir 9 1 0"), ("eqir 9 1 0".to_string(), "a  = 9 == b".to_string()));
    assert_eq!(show("eqrr 0 1 0"), ("eqrr 0 1 0".to_string(), "a  = a == b".to_string()));
}

#[test]
fn program_lines() {
    assert_eq!(read_line(&chars("#ip 3")), Ok(Line::Directive(3)));
    assert_eq!(read_line(&chars("#ip +3 rest")), Ok(Line::Directive(3)));
    assert_eq!(read_line(&chars("#ipx 2")), Ok(Line::Directive(2)));
    assert_eq!(read_line(&chars("#ip")), Err(Error::MissingIpArgument));
    assert_eq!(read_line(&chars("#ip  3")), Err(Error::BadIpArgument("".to_string())));
    assert_eq!(read_line(&chars("#ip 9")), Err(Error::BadIpArgument("9".to_string())));
    assert_eq!(
        read_line(&chars("seti 1 2 3")),
        Ok(Line::Instruction((OpCode::Seti, 1, 2, 3)))
    );
    assert_eq!(read_line(&chars("# ip 3")), Err(Error::BadInstruction("# ip 3".to_string())));
}

#[test]
fn load_keeps_the_ip_register_without_a_directive() {
    let mut device = loaded(&["#ip 4", "seti 1 0 0"]);
    device.step().unwrap();
    device.load(&["seti 2 0 0", "seti 3 0 0"]).unwrap();
    assert_eq!(device.registers.ip_index(), 4);
    assert_eq!(device.instructions.len(), 2);
    assert_eq!(device.count, 0);
    assert_eq!(device.registers.last_ip(), None);
    assert_eq!(device.registers.iter(), vec![0; 6]);
    device.load(&["#ip 1", "seti 2 0 0", "#ip 2"]).unwrap();
    assert_eq!(device.registers.ip_index(), 2);
}

#[test]
fn halted_machine_ignores_steps() {
    let mut device = loaded(&["#ip 0", "seti 5 0 1"]);
    device.clear();
    device.step().unwrap();
    device.clear();
    device.step().unwrap();
    assert!(device.halted);
    assert_eq!(device.count, 2);
    for _ in 0..3 {
        device.clear();
        assert_eq!(device.step(), Ok(()));
        assert!(device.halted);
        assert_eq!(device.count, 2);
        assert_eq!(device.registers.iter(), vec![1, 5, 0, 0, 0, 0]);
        assert_eq!(device.registers.last_ip(), Some(0));
        for reg in 0usize..6 {
            assert!(!device.registers.is_read(reg));
            assert!(!device.registers.is_written(reg));
        }
    }
    *device.registers.reg_mut(0usize).unwrap() = 0;
    device.clear();
    device.step().unwrap();
    assert_eq!(device.count, 2);
    device.reset();
    assert!(!device.halted);
    device.step().unwrap();
    assert_eq!(device.count, 1);
}

#[test]
fn step_follows_a_jump() {
    let mut device = loaded(&["#ip 1", "seti 1 0 1", "seti 9 0 0", "addi 0 1 0"]);
    device.clear();
    device.step().unwrap();
    assert_eq!(device.registers.last_ip(), Some(0));
    assert_eq!(device.registers.iter()[1], 2);
    device.clear();
    device.step().unwrap();
    assert_eq!(device.registers.last_ip(), Some(2));
    assert_eq!(device.registers.iter(), vec![1, 3, 0, 0, 0, 0]);
    assert!(device.unique.contains(&0) && device.unique.contains(&2));
    assert!(!device.unique.contains(&1));
    assert_eq!(device.unique.len(), 2);
    let mut device = loaded(&["seti 0 0 1"]);
    device.registers.set_ip_index(6);
    assert_eq!(device.step(), Err(Error::BadIpRegister(6)));
    assert_eq!(device.count, 0);
}

#[test]
fn comparisons() {
    assert!(Op::Eq.test(3, 3) && !Op::Eq.test(3, 4));
    assert!(Op::Lt.test(3, 4) && !Op::Lt.test(3, 3));
    assert!(Op::Lte.test(3, 3) && !Op::Lte.test(4, 3));
    assert!(Op::Gt.test(4, 3) && !Op::Gt.test(3, 3));
    assert!(Op::Gte.test(3, 3) && !Op::Gte.test(2, 3));
    assert_eq!(
        [Op::Eq.name(), Op::Lt.name(), Op::Lte.name(), Op::Gt.name(), Op::Gte.name()],
        ["eq", "lt", "lte", "gt", "gte"]
    );
}

#[test]
fn hooks_look_at_the_machine() {
    let mut device = loaded(&["#ip 5", "addr 0 1 2"]);
    device.clear();
    device.step().unwrap();
    assert_eq!(Hook::Read(0).test(&mut device), Ok(Action::Pause));
    assert_eq!(Hook::Read(2).test(&mut device), Ok(Action::Nothing));
    assert_eq!(Hook::Write(2).test(&mut device), Ok(Action::Pause));
    assert_eq!(Hook::Write(0).test(&mut device), Ok(Action::Nothing));
    assert_eq!(Hook::Line(0).test(&mut device), Ok(Action::Pause));
    assert_eq!(Hook::Line(1).test(&mut device), Ok(Action::Nothing));
    assert_eq!(Hook::Not(Box::new(Hook::Line(1))).test(&mut device), Ok(Action::Pause));
    assert_eq!(Hook::Not(Box::new(Hook::Line(0))).test(&mut device), Ok(Action::Nothing));
    assert_eq!(Hook::Op(Op::Eq, 5, 1).test(&mut device), Ok(Action::Pause));
    assert_eq!(Hook::Op(Op::Gt, 3, 0).test(&mut device), Ok(Action::Nothing));
    assert!(device.registers.is_read(3usize));
    assert_eq!(Hook::Read(3).test(&mut device), Ok(Action::Pause));
    assert_eq!(Hook::Op(Op::Eq, 6, 0).test(&mut device), Err(Error::BadRegister(6)));
    assert_eq!(Hook::unique(7).test(&mut device), Err(Error::BadRegister(7)));
    assert_eq!(Hook::All(vec![]).test(&mut device), Ok(Action::Pause));
}

#[test]
fn all_stops_at_the_first_hook_that_does_not_pause() {
    let mut device = loaded(&["#ip 5", "seti 4 0 0"]);
    device.step().unwrap();
    let mut hook = Hook::All(vec![Hook::Line(3), Hook::unique(0)]);
    assert_eq!(hook.test(&mut device), Ok(Action::Nothing));
    assert_eq!(hook, Hook::All(vec![Hook::Line(3), Hook::unique(0)]));
    let mut hook = Hook::All(vec![Hook::Line(0), Hook::unique(0), Hook::Line(0)]);
    assert_eq!(hook.test(&mut device), Ok(Action::Pause));
    assert_eq!(hook.test(&mut device), Ok(Action::Nothing));
    assert_eq!(hook.inspect().to_string(), "all(line(), unique(seen: 1, last: Some(4)), line())");
}

#[test]
fn reset_makes_unique_forget() {
    let mut device = loaded(&["#ip 5"]);
    let mut hook = Hook::All(vec![Hook::unique(0), Hook::Not(Box::new(Hook::unique(1)))]);
    assert_eq!(hook.test(&mut device), Ok(Action::Nothing));
    assert_eq!(hook.test(&mut device), Ok(Action::Nothing));
    assert_eq!(
        hook.inspect().to_string(),
        "all(unique(seen: 1, last: Some(0)), not(unique(seen: 1, last: Some(0))))"
    );
    hook.reset();
    assert_eq!(hook, Hook::All(vec![Hook::unique(0), Hook::Not(Box::new(Hook::unique(1)))]));
    let mut hook = Hook::unique(0);
    let mut paused = Vec::new();
    for value in [3, 3, -1, 3, 8, -1] {
        *device.registers.reg_mut(0usize).unwrap() = value;
        paused.push(hook.test(&mut device) == Ok(Action::Pause));
    }
    assert_eq!(paused, vec![true, false, true, false, true, false]);
    assert_eq!(hook.inspect().to_string(), "unique(seen: 3, last: Some(8))");
    hook.reset();
    assert_eq!(hook, Hook::unique(0));
    assert_eq!(hook.test(&mut device), Ok(Action::Pause));
}

#[test]
fn written_hooks_are_read_back() {
    let device = loaded(&["#ip 4"]);
    let hooks = vec![
        Hook::Read(0),
        Hook::Write(4),
        Hook::Line(0),
        Hook::Line(9223372036854775807),
        Hook::Op(Op::Lte, 5, 0),
        Hook::Op(Op::Gt, 4, 100),
        Hook::unique(3),
        Hook::Not(Box::new(Hook::Not(Box::new(Hook::Read(1))))),
        Hook::All(vec![Hook::Line(28)]),
        Hook::All(vec![
            Hook::Line(28),
            Hook::Not(Box::new(Hook::Read(0))),
            Hook::All(vec![Hook::Op(Op::Eq, 2, 5), Hook::unique(4)]),
        ]),
    ];
    for hook in hooks {
        let text = hook.display(&device).to_string();
        assert_eq!(parse(&text, &device), Ok(hook), "{}", text);
    }
    let hook = parse("  all( line( 28 ) ,not(read(a)),gte(ip,3) )", &device).unwrap();
    assert_eq!(hook.display(&device).to_string(), "all(line(28), not(read(a)), gte(ip, 3))");
    assert_eq!(Hook::Read(7).display(&device).to_string(), "read(?)");
    assert_eq!(Hook::Op(Op::Eq, 0, -5).display(&device).to_string(), "eq(a, -5)");
    assert_eq!(parse_chars(chars("write(f) trailing"), &device), Ok(Hook::Write(5)));
}

#[test]
fn tokens_one_by_one() {
    let mut tokenizer = tokenize("ab (12,  x)7");
    assert_eq!(tokenizer.next(), Ok(Token::String("ab".to_string())));
    assert_eq!(tokenizer.try_next(), Ok(Some(Token::Open)));
    assert_eq!(tokenizer.try_next(), Ok(Some(Token::Immediate(12))));
    assert_eq!(tokenizer.next(), Ok(Token::Comma));
    assert_eq!(tokenizer.string(), "");
    assert_eq!(tokenizer.next(), Ok(Token::String("x".to_string())));
    assert_eq!(tokenizer.next(), Ok(Token::Close));
    assert_eq!(tokenizer.immediate(), Ok(7));
    assert_eq!(tokenizer.try_next(), Ok(None));
    assert_eq!(tokenizer.next(), Err(ParseError::ExpectedToken));
    let mut tokenizer = tokenize(" A");
    assert_eq!(tokenizer.try_next(), Err(ParseError::UnexpectedCharacter('A')));
    assert_eq!(tokenizer.try_next(), Err(ParseError::UnexpectedCharacter('A')));
}

#[test]
fn errors_say_what_went_wrong() {
    assert_eq!(Error::BadRegister(7).to_string(), "no such register: 7");
    assert_eq!(Error::BadIpRegister(6).to_string(), "no ip register: 6");
    assert_eq!(Error::BadInstruction("x y".to_string()).to_string(), "bad instruction: x y");
    assert_eq!(Error::MissingIpArgument.to_string(), "expected argument to `#ip`");
    assert_eq!(Error::BadIpArgument("z".to_string()).to_string(), "bad argument to `#ip`: z");
    assert_eq!(Error::Io("gone".to_string()).to_string(), "gone");
    assert_eq!(ParseError::UnexpectedCharacter('%').to_string(), "unexpected character: %");
    assert_eq!(ParseError::BadImmediate("99".to_string()).to_string(), "number too large: 99");
    assert_eq!(ParseError::ExpectedToken.to_string(), "expected token");
    assert_eq!(
        ParseError::ExpectedString(Token::Immediate(-4)).to_string(),
        "expected string, but got: Immediate(-4)"
    );
    assert_eq!(
        ParseError::ExpectedImmediate(Token::String("ab".to_string())).to_string(),
        "expected immediate, but got: String(\"ab\")"
    );
    assert_eq!(ParseError::ExpectedString(Token::Open).to_string(), "expected string, but got: Open");
    assert_eq!(ParseError::ExpectedString(Token::Close).to_string(), "expected string, but got: Close");
    assert_eq!(ParseError::ExpectedString(Token::Comma).to_string(), "expected string, but got: Comma");
    assert_eq!(
        ParseError::ExpectedOpen(Token::Close).to_string(),
        "expected `(`, but got: Close"
    );
    assert_eq!(
        ParseError::ExpectedClose(Token::Open).to_string(),
        "expected `)`, but got: Open"
    );
    assert_eq!(
        ParseError::ExpectedComma(Token::Immediate(3)).to_string(),
        "expected `,`, but got: Immediate(3)"
    );
    assert_eq!(
        ParseError::ExpectedCommaOrClose(Token::Open).to_string(),
        "expected comma or close, but got: Open"
    );
    assert_eq!(ParseError::NotARegister("g".to_string()).to_string(), "not a register: g");
    assert_eq!(ParseError::NoSuchFunction("h".to_string()).to_string(), "no such function: h");
}

#[test]
fn events_have_names() {
    let name = |key: Key| -> String {
        let mut out = String::new();
        push_event(&mut out, Event::Input(key));
        out
    };
    assert_eq!(name(Key::Backspace), "Input(Backspace)");
    assert_eq!(name(Key::PageDown), "Input(PageDown)");
    assert_eq!(name(Key::F(12)), "Input(F(12))");
    assert_eq!(name(Key::Char('x')), "Input(Char(x))");
    assert_eq!(name(Key::Ctrl('c')), "Input(Ctrl(c))");
    assert_eq!(name(Key::Esc), "Input(Esc)");
}
