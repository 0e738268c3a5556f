use elfdb::device::Device;
use elfdb::error::Error;
use elfdb::hook::{Action, Hook, Op};
use elfdb::instruction::Instruction;
use elfdb::op_code::OpCode;
use elfdb::parser::{parse, ParseError, Token};
use elfdb::registers::Registers;

fn loaded(lines: &[&str]) -> Device {
    let mut device = Device::default();
    device.load(lines).expect("program loads");
    device
}

fn step(device: &mut Device) {
    device.clear();
    device.step().expect("step succeeds");
}

#[test]
fn test_parse() {
    let device = Device::default();
    parse("all(line(28), line(40))", &device).expect("not parse");
}

#[test]
fn set_and_increment() {
    let mut device = loaded(&["#ip 0", "seti 5 0 0"]);
    step(&mut device);
    assert_eq!(device.registers.iter(), vec![6, 0, 0, 0, 0, 0]);
    assert_eq!(device.registers.last_ip(), Some(0));
    assert_eq!(device.count, 1);
    assert_eq!(device.unique.len(), 1);
    assert!(device.unique.contains(&0));
    assert!(!device.halted);
    step(&mut device);
    assert!(device.halted);
    assert_eq!(device.count, 2);
}

#[test]
fn addi_with_ip_bound_to_last_register() {
    let mut device = loaded(&["#ip 5", "seti 3 0 0", "addi 0 1 0"]);
    step(&mut device);
    step(&mut device);
    let cells = device.registers.iter();
    assert_eq!(cells[0], 4);
    assert_eq!(cells[5], 2);
    assert_eq!(device.registers.last_ip(), Some(1));
    assert!(!device.halted);
    step(&mut device);
    assert!(device.halted);
}

#[test]
fn read_and_write_tracking() {
    let mut device = loaded(&["#ip 5", "addr 0 1 2"]);
    *device.registers.reg_mut(0usize).unwrap() = 10;
    *device.registers.reg_mut(1usize).unwrap() = 7;
    step(&mut device);
    assert_eq!(device.registers.iter()[2], 17);
    assert!(device.registers.is_read(0usize));
    assert!(device.registers.is_read(1usize));
    assert!(device.registers.is_written(2usize));
    assert!(!device.registers.is_read(3usize));
    assert!(!device.registers.is_written(0usize));
}

#[test]
fn line_hook_pauses_after_second_step() {
    let mut device = loaded(&["#ip 5", "seti 3 0 0", "addi 0 1 0"]);
    let mut hook = parse("line(1)", &device).unwrap();
    assert_eq!(hook.test(&mut device), Ok(Action::Nothing));
    step(&mut device);
    assert_eq!(hook.test(&mut device), Ok(Action::Nothing));
    step(&mut device);
    assert_eq!(hook.test(&mut device), Ok(Action::Pause));
    step(&mut device);
    assert!(device.halted);
}

#[test]
fn unique_hook_pauses_once_per_value() {
    let mut device = loaded(&[
        "#ip 5",
        "seti 0 0 0",
        "seti 1 0 0",
        "seti 2 0 0",
        "seti 1 0 0",
        "seti 0 0 0",
    ]);
    let mut hook = parse("unique(a)", &device).unwrap();
    let mut seen = Vec::new();
    for _ in 0..5 {
        step(&mut device);
        seen.push(hook.test(&mut device).unwrap());
    }
    assert_eq!(
        seen,
        vec![Action::Pause, Action::Pause, Action::Pause, Action::Nothing, Action::Nothing]
    );
}

#[test]
fn parse_builds_the_tree() {
    let device = Device::default();
    assert_eq!(
        parse("all(line(28), not(read(a)))", &device),
        Ok(Hook::All(vec![Hook::Line(28), Hook::Not(Box::new(Hook::Read(0)))]))
    );
    let device = loaded(&["#ip 4"]);
    assert_eq!(parse("gt(ip, 100)", &device), Ok(Hook::Op(Op::Gt, 4, 100)));
}

#[test]
fn parse_errors() {
    let device = Device::default();
    assert_eq!(parse("", &device), Err(ParseError::ExpectedToken));
    assert_eq!(parse("foo(a)", &device), Err(ParseError::NoSuchFunction("foo".to_string())));
    assert_eq!(
        parse("read a", &device),
        Err(ParseError::ExpectedOpen(Token::String("a".to_string())))
    );
    assert_eq!(parse("read(a", &device), Err(ParseError::ExpectedToken));
    assert_eq!(parse("read(a,", &device), Err(ParseError::ExpectedClose(Token::Comma)));
    assert_eq!(parse("read(g)", &device), Err(ParseError::NotARegister("g".to_string())));
    assert_eq!(parse("read(1)", &device), Err(ParseError::ExpectedString(Token::Immediate(1))));
    assert_eq!(parse("line(a)", &device), Err(ParseError::ExpectedImmediate(Token::String("a".to_string()))));
    assert_eq!(parse("eq(a 1)", &device), Err(ParseError::ExpectedComma(Token::Immediate(1))));
    assert_eq!(
        parse("all(line(1) line(2))", &device),
        Err(ParseError::ExpectedCommaOrClose(Token::String("line".to_string())))
    );
    assert_eq!(parse("all()", &device), Err(ParseError::ExpectedString(Token::Close)));
    assert_eq!(parse("line(-1)", &device), Err(ParseError::UnexpectedCharacter('-')));
    assert_eq!(
        parse("line(9223372036854775808)", &device),
        Err(ParseError::BadImmediate("9223372036854775808".to_string()))
    );
    assert_eq!(parse("line(9223372036854775807)", &device), Ok(Hook::Line(9223372036854775807)));
}

#[test]
fn decode_round_trip_for_every_opcode() {
    let all = [
        OpCode::Addr, OpCode::Addi, OpCode::Mulr, OpCode::Muli, OpCode::Banr, OpCode::Bani,
        OpCode::Borr, OpCode::Bori, OpCode::Setr, OpCode::Seti, OpCode::Gtir, OpCode::Gtri,
        OpCode::Gtrr, OpCode::Eqir, OpCode::Eqri, OpCode::Eqrr,
    ];
    for op in all {
        assert_eq!(OpCode::decode(op.name()), Some(op));
    }
    assert_eq!(OpCode::decode("ADDR"), None);
    assert_eq!(OpCode::decode("add"), None);
    assert_eq!(OpCode::decode("addrr"), None);
    assert_eq!(OpCode::decode(""), None);
}

#[test]
fn instruction_decode() {
    let inst = Instruction::decode("addi 0 -1 3").unwrap();
    assert_eq!(inst.op_code, OpCode::Addi);
    assert_eq!(inst.inputs, [0, -1]);
    assert_eq!(inst.output, 3);
    assert!(Instruction::decode("addi 0 1").is_none());
    assert!(Instruction::decode("nope 0 1 2").is_none());
    assert!(Instruction::decode("").is_none());
    assert!(Instruction::decode("seti 5 x 7 8").is_none());
    assert!(Instruction::decode("seti  5 7 8").is_none());
    assert!(Instruction::decode(" seti 5 7 8").is_none());
    assert!(Instruction::decode("seti 5 7 8.0").is_none());
    let inst = Instruction::decode("seti +5 -7 8 and more").unwrap();
    assert_eq!(inst.op_code, OpCode::Seti);
    assert_eq!(inst.inputs, [5, -7]);
    assert_eq!(inst.output, 8);
}

#[test]
fn load_errors() {
    let mut device = Device::default();
    assert_eq!(device.load(&["#ip"]), Err(Error::MissingIpArgument));
    assert_eq!(device.load(&["#ip x"]), Err(Error::BadIpArgument("x".to_string())));
    assert_eq!(device.load(&["#ip 6"]), Err(Error::BadIpArgument("6".to_string())));
    assert_eq!(
        device.load(&["seti 1 2 3", "bogus"]),
        Err(Error::BadInstruction("bogus".to_string()))
    );
    assert_eq!(device.instructions.len(), 1);
    assert_eq!(device.load(&[""]), Err(Error::BadInstruction("".to_string())));
}

#[test]
fn bad_register_is_an_error() {
    let mut device = loaded(&["#ip 5", "setr 6 0 0"]);
    device.clear();
    assert_eq!(device.step(), Err(Error::BadRegister(6)));
    assert!(device.registers.is_read(6usize));
    let mut registers = Registers::default();
    assert_eq!(registers.reg(-1i64), Err(Error::BadRegister(-1i64 as usize)));
    assert!(registers.reg_mut(6usize).is_err());
    assert!(registers.is_written(6usize));
}
