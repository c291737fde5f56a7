use led_matrix::machine::{Machine, MachineError};

#[test]
fn new_machine_reset_state() {
    let m = Machine::new(&[1, 2, 3]);
    assert_eq!(m.regs().len(), 16);
    assert!(m.regs().iter().all(|r| *r == 0));
    assert_eq!(m.memory().len(), 4096);
    assert_eq!(&m.memory()[0..3], &[1, 2, 3]);
    assert!(m.memory()[3..].iter().all(|b| *b == 0));
}

#[test]
fn set_reg_in_and_out_of_range() {
    let mut m = Machine::new(&[]);
    assert!(m.set_reg(3, 77).is_ok());
    assert_eq!(m.regs()[3], 77);
    let e = m.set_reg(16, 1);
    assert!(matches!(e, Err(MachineError::InvalidRegister(16))));
    assert_eq!(m.regs()[3], 77);
}

#[test]
fn move_is_conditional_on_third_register() {
    let mut m = Machine::new(&[]);
    m.set_reg(2, 123).unwrap();
    m.set_reg(3, 0).unwrap();
    assert_eq!(m.move_(1, 2, 3), Ok(false));
    assert_eq!(m.regs()[1], 0); // condition register was zero
    m.set_reg(3, 1).unwrap();
    assert_eq!(m.move_(1, 2, 3), Ok(false));
    assert_eq!(m.regs()[1], 123);
    assert!(matches!(m.move_(16, 2, 3), Err(MachineError::OutOfBounds)));
}

#[test]
fn store_writes_little_endian() {
    let mut m = Machine::new(&[]);
    m.set_reg(1, 100).unwrap();
    m.set_reg(2, 0xDEAD_BEEF).unwrap();
    assert_eq!(m.store(1, 2), Ok(false));
    assert_eq!(&m.memory()[100..104], &[0xEF, 0xBE, 0xAD, 0xDE]);
    m.set_reg(1, 4093).unwrap();
    assert!(matches!(m.store(1, 2), Err(MachineError::MemoryOutOfBoundsStore)));
    assert!(matches!(m.store(16, 2), Err(MachineError::OutOfBounds)));
}

#[test]
fn load_reads_little_endian() {
    let mut m = Machine::new(&[0, 0, 0, 0, 0x78, 0x56, 0x34, 0x12]);
    m.set_reg(2, 4).unwrap();
    assert_eq!(m.load(1, 2), Ok(false));
    assert_eq!(m.regs()[1], 0x1234_5678);
    m.set_reg(2, 4093).unwrap();
    assert!(matches!(m.load(1, 2), Err(MachineError::MemoryOutOfBoundsLoad)));
    assert!(matches!(m.load(16, 2), Err(MachineError::RegisterOutOfBounds)));
}

#[test]
fn store_then_load_roundtrip() {
    let mut m = Machine::new(&[]);
    m.set_reg(1, 2000).unwrap();
    m.set_reg(2, 0xCAFE_F00D).unwrap();
    m.store(1, 2).unwrap();
    m.set_reg(3, 2000).unwrap();
    m.load(4, 3).unwrap();
    assert_eq!(m.regs()[4], 0xCAFE_F00D);
}

#[test]
fn load_imm_sign_extends() {
    let mut m = Machine::new(&[]);
    assert_eq!(m.load_imm(1, 0x34, 0x12), Ok(false));
    assert_eq!(m.regs()[1], 0x1234);
    assert_eq!(m.load_imm(1, 0x00, 0x80), Ok(false));
    assert_eq!(m.regs()[1], 0xFFFF_8000);
    assert_eq!(m.load_imm(1, 0xFF, 0xFF), Ok(false));
    assert_eq!(m.regs()[1], 0xFFFF_FFFF);
    assert!(matches!(m.load_imm(16, 0, 0), Err(MachineError::OutOfBounds)));
}

#[test]
fn sub_wraps_around() {
    let mut m = Machine::new(&[]);
    m.set_reg(2, 5).unwrap();
    m.set_reg(3, 3).unwrap();
    assert_eq!(m.sub(1, 2, 3), Ok(false));
    assert_eq!(m.regs()[1], 2);
    assert_eq!(m.sub(1, 3, 2), Ok(false));
    assert_eq!(m.regs()[1], 0xFFFF_FFFE);
    assert!(matches!(m.sub(1, 2, 16), Err(MachineError::OutOfBounds)));
}

#[test]
fn out_encodes_low_byte_as_utf8() {
    let mut m = Machine::new(&[]);
    let mut sink: Vec<u8> = Vec::new();
    m.set_reg(1, 65).unwrap();
    assert_eq!(m.out(&mut sink, 1), Ok(false));
    assert_eq!(sink, vec![65]);
    m.set_reg(1, 0x100 + 0xE9).unwrap(); // only the low byte matters
    assert_eq!(m.out(&mut sink, 1), Ok(false));
    assert_eq!(sink, vec![65, 0xC3, 0xA9]);
    assert!(matches!(m.out(&mut sink, 16), Err(MachineError::OutOfBounds)));
    assert_eq!(sink.len(), 3);
}

#[test]
fn out_number_renders_signed_decimal() {
    let mut m = Machine::new(&[]);
    let mut sink: Vec<u8> = Vec::new();
    m.set_reg(1, 0).unwrap();
    m.out_number(&mut sink, 1).unwrap();
    m.set_reg(1, 12345).unwrap();
    m.out_number(&mut sink, 1).unwrap();
    m.set_reg(1, (-42i32) as u32).unwrap();
    m.out_number(&mut sink, 1).unwrap();
    m.set_reg(1, i32::MIN as u32).unwrap();
    m.out_number(&mut sink, 1).unwrap();
    m.set_reg(1, i32::MAX as u32).unwrap();
    m.out_number(&mut sink, 1).unwrap();
    assert_eq!(String::from_utf8(sink).unwrap(), "012345-42-21474836482147483647");
}

#[test]
fn step_advances_ip_then_executes() {
    // load_imm r1, 72; out r1; exit
    let mut m = Machine::new(&[4, 1, 72, 0, 6, 1, 7]);
    let mut sink: Vec<u8> = Vec::new();
    assert_eq!(m.step_on(&mut sink), Ok(false));
    assert_eq!(m.regs()[0], 4);
    assert_eq!(m.regs()[1], 72);
    assert_eq!(m.step_on(&mut sink), Ok(false));
    assert_eq!(m.regs()[0], 6);
    assert_eq!(sink, vec![72]);
    assert_eq!(m.step_on(&mut sink), Ok(true));
    assert_eq!(m.regs()[0], 7);
}

#[test]
fn step_errors() {
    let mut sink: Vec<u8> = Vec::new();
    let mut m = Machine::new(&[0]);
    assert!(matches!(m.step_on(&mut sink), Err(MachineError::WrongInstruction)));
    assert_eq!(m.regs()[0], 0); // an invalid opcode has size 0
    let mut m2 = Machine::new(&[]);
    m2.set_reg(0, 5000).unwrap();
    assert!(matches!(m2.step_on(&mut sink), Err(MachineError::MemoryOutOfBoundsStepOn)));
}

#[test]
fn run_prints_and_terminates() {
    // load_imm r1, 'H'; out r1; load_imm r1, 'i'; out r1; exit
    let mut m = Machine::new(&[4, 1, b'H', 0, 6, 1, 4, 1, b'i', 0, 6, 1, 7]);
    let mut sink: Vec<u8> = Vec::new();
    assert_eq!(m.run_on(&mut sink, 1000), Ok(true));
    assert_eq!(String::from_utf8(sink).unwrap(), "Hi");
}

#[test]
fn run_stops_on_error() {
    // load_imm r1, 5; then an invalid opcode.
    let mut m = Machine::new(&[4, 1, 5, 0, 99]);
    let mut sink: Vec<u8> = Vec::new();
    assert!(matches!(m.run_on(&mut sink, 1000), Err(MachineError::WrongInstruction)));
}

#[test]
fn run_out_of_fuel_on_infinite_loop() {
    // load_imm r0, 0: resets the instruction pointer to 0 forever.
    let mut m = Machine::new(&[4, 0, 0, 0]);
    let mut sink: Vec<u8> = Vec::new();
    assert_eq!(m.run_on(&mut sink, 10), Ok(false));
    assert_eq!(m.regs()[0], 0);
}
