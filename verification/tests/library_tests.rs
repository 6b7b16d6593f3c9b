//! Scenarios for the laws and error paths of the library.
use nvm_core::error::{NVMError, NVMErrorKind};
use nvm_core::isa::err::ISAErrorKind;
use nvm_core::isa::instruction::Instruction;
use nvm_core::isa::opcode::OperationCode;
use nvm_core::isa::operand::{Operand, OperandKind};
use nvm_core::isa::register::Register;
use nvm_core::loader::err::LoaderErrorKind;
use nvm_core::loader::NVMLoader;
use nvm_core::text::{decimal_string, str_greater};
use nvm_core::vm::err::{VMError, VMErrorKind};
use nvm_core::vm::memory::NVMMemory;
use nvm_core::vm::register_file::RegisterFile;
use nvm_core::vm::{FloatArith, FloatComparison, FloatQuery, NVM};
use nvm_core::NVM_VERSION;

// The host's IEEE 754 arithmetic on the bits held in registers.
fn host_fpu(q: FloatQuery) -> u64 {
    match q {
        FloatQuery::Arith(op, lhs, rhs) => {
            let (a, b) = (f64::from_bits(lhs), f64::from_bits(rhs));
            let r = match op {
                FloatArith::Add => a + b,
                FloatArith::Sub => a - b,
                FloatArith::Mul => a * b,
                FloatArith::Div => a / b,
                FloatArith::Rem => a % b,
            };
            r.to_bits()
        }
        FloatQuery::Compare(op, lhs, rhs) => {
            let (a, b) = (f64::from_bits(lhs), f64::from_bits(rhs));
            let holds = match op {
                FloatComparison::Eq => a == b,
                FloatComparison::Ne => a != b,
                FloatComparison::Lt => a < b,
                FloatComparison::Le => a <= b,
                FloatComparison::Gt => a > b,
                FloatComparison::Ge => a >= b,
            };
            holds as u64
        }
    }
}

// A unit that always answers the same, to tell a consulted unit apart.
fn fixed_fpu(q: FloatQuery) -> u64 {
    match q {
        FloatQuery::Arith(..) => 7,
        FloatQuery::Compare(..) => 1,
    }
}

fn reg(r: u8) -> Operand {
    Operand {
        kind: OperandKind::Register(Register(r)),
    }
}

fn imm(v: u64) -> Operand {
    Operand {
        kind: OperandKind::Immediate(v),
    }
}

fn ins(opcode: OperationCode, a: Option<Operand>, b: Option<Operand>, c: Option<Operand>) -> Instruction {
    Instruction {
        opcode,
        operand1: a,
        operand2: b,
        operand3: c,
    }
}

fn nb(major: u16, minor: u16, patch: u16, data: &[u8]) -> Vec<u8> {
    let mut bytes = b"NVMBC".to_vec();
    bytes.extend_from_slice(&major.to_le_bytes());
    bytes.extend_from_slice(&minor.to_le_bytes());
    bytes.extend_from_slice(&patch.to_le_bytes());
    bytes.extend_from_slice(data);
    bytes
}

fn same_state(a: &NVM, b: &NVM) -> bool {
    (0..255u8).all(|r| a.registers.get(Register(r)) == b.registers.get(Register(r)))
        && a.memory.len() == b.memory.len()
        && (0..a.memory.len()).all(|i| a.memory.load_u8(i) == b.memory.load_u8(i))
        && a.call_stack == b.call_stack
}

// ====== Loader ======

#[test]
fn version_check_orders_as_numbers() {
    let accepted = [(0, 0, 0), (0, 0, 99), (0, 0, 65535), (0, 1, 0)];
    for (a, b, c) in accepted {
        assert!(NVMLoader::new(nb(a, b, c, &[])).transpile().is_ok(), "{a}.{b}.{c}");
    }
    let rejected = [(0, 1, 1), (0, 1, 10), (0, 2, 0), (0, 10, 0), (0, 19, 0), (1, 0, 0), (10, 0, 0)];
    for (a, b, c) in rejected {
        assert!(NVMLoader::new(nb(a, b, c, &[])).transpile().is_err(), "{a}.{b}.{c}");
    }
}

#[test]
fn unsupported_version_names_both_versions() {
    let err = NVMLoader::new(nb(0, 12, 3, &[])).transpile().unwrap_err();
    match &err.kind {
        LoaderErrorKind::UnsupportedVersion { file_version, vm_version } => {
            assert_eq!(file_version, "0.12.3");
            assert_eq!(vm_version, NVM_VERSION);
        }
        other => panic!("unexpected {other:?}"),
    }
    assert_eq!(
        err.to_string(),
        "the file requires NVM version 0.12.3 or newer, but the VM version is 0.1.0"
    );
}

#[test]
fn short_file_reason() {
    let err = NVMLoader::new(vec![1, 2, 3]).transpile().unwrap_err();
    assert_eq!(
        err.to_string(),
        "the file is not in NVM Bytecode format: the file must be at least 11 bytes in size"
    );
}

#[test]
fn wrong_magic_reason() {
    let mut data = nb(0, 1, 0, &[]);
    data[4] = b'D';
    let err = NVMLoader::new(data).transpile().unwrap_err();
    assert_eq!(
        err.to_string(),
        "the file is not in NVM Bytecode format: incorrect magic section"
    );
}

#[test]
fn end_of_file_counts() {
    // MOVE r0, r? : the second register byte is missing.
    let err = NVMLoader::new(nb(0, 1, 0, &[0x02, 0x02, 0x00, 0x00, 0x00])).transpile().unwrap_err();
    assert!(matches!(
        err.kind,
        LoaderErrorKind::UnexpectedEndOfFile { needed: 6, remaining: 5 }
    ));
    assert_eq!(
        err.to_string(),
        "unexpected end of file: needed 6 more bytes, but only 5 remain"
    );
    // Only the opcode byte.
    let err = NVMLoader::new(nb(0, 1, 0, &[0x02])).transpile().unwrap_err();
    assert!(matches!(
        err.kind,
        LoaderErrorKind::UnexpectedEndOfFile { needed: 2, remaining: 1 }
    ));
    // The operand count promises an operand whose tag is missing.
    let err = NVMLoader::new(nb(0, 1, 0, &[0x00, 0x01])).transpile().unwrap_err();
    assert!(matches!(
        err.kind,
        LoaderErrorKind::UnexpectedEndOfFile { needed: 1, remaining: 0 }
    ));
    // A truncated immediate followed by a missing tag.
    let err = NVMLoader::new(nb(0, 1, 0, &[0x0B, 0x03, 0x01, 0xAA])).transpile().unwrap_err();
    assert!(matches!(
        err.kind,
        LoaderErrorKind::UnexpectedEndOfFile { needed: 1, remaining: 0 }
    ));
}

#[test]
fn unknown_opcode_and_tag_messages() {
    let err = NVMLoader::new(nb(0, 1, 0, &[60, 0])).transpile().unwrap_err();
    assert_eq!(err.to_string(), "unknown opcode byte: 60");
    let err = NVMLoader::new(nb(0, 1, 0, &[0x02, 0x01, 0x07])).transpile().unwrap_err();
    assert_eq!(err.to_string(), "unknown operand tag: 7");
}

#[test]
fn first_fault_wins() {
    // A good NOP, then an unknown opcode, then garbage.
    let err = NVMLoader::new(nb(0, 1, 0, &[0x00, 0x00, 0x99, 0x00, 0xFF])).transpile().unwrap_err();
    assert!(matches!(err.kind, LoaderErrorKind::UnknownOpcode { byte: 0x99 }));
}

#[test]
fn loaded_program_runs_on_both_executors() {
    // MOVE R0, 6; IMUL R1, R0, 7; STORE8 0, R1; EXIT
    let mut data = vec![0x02, 0x02, 0x00, 0x00, 0x01];
    data.extend_from_slice(&6u64.to_le_bytes());
    data.extend_from_slice(&[0x0D, 0x03, 0x00, 0x01, 0x00, 0x00, 0x01]);
    data.extend_from_slice(&7u64.to_le_bytes());
    data.extend_from_slice(&[0x07, 0x02, 0x01]);
    data.extend_from_slice(&0u64.to_le_bytes());
    data.extend_from_slice(&[0x00, 0x01]);
    data.extend_from_slice(&[0x01, 0x00]);
    let program = NVMLoader::new(nb(0, 1, 0, &data)).transpile().unwrap();
    assert_eq!(program.len(), 4);
    assert_eq!(program[1].to_string(), "IMUL R1, R0, 7");

    let mut a = NVM::from_program_and_memory(program.clone(), NVMMemory::new(4));
    a.run(&host_fpu).unwrap();
    let mut b = NVM::from_program_and_memory(program, NVMMemory::new(4));
    b.match_execute(&host_fpu).unwrap();
    assert_eq!(a.registers.get(Register(1)), 42);
    assert_eq!(a.memory.load_u8(0), Some(42));
    assert!(same_state(&a, &b));
}

// ====== Instruction set ======

#[test]
fn opcode_bytes_round_trip() {
    for b in 0..=255u8 {
        match OperationCode::try_from_byte(b) {
            Ok(op) => {
                assert!(b < 53);
                assert_eq!(op.to_byte(), b);
            }
            Err(e) => {
                assert!(b >= 53);
                assert_eq!(e.to_string(), format!("unknown operation code: '{b}'"));
            }
        }
    }
}

#[test]
fn opcode_mnemonics_parse_ignoring_case() {
    for b in 0..53u8 {
        let op = OperationCode::try_from_byte(b).unwrap();
        let name = op.mnemonic();
        assert_eq!(OperationCode::parse(name).unwrap().to_byte(), b);
        assert_eq!(OperationCode::parse(&name.to_lowercase()).unwrap().to_byte(), b);
    }
    let err = OperationCode::parse("frobnicate").unwrap_err();
    assert!(matches!(&err.kind, ISAErrorKind::UnknownOperationCode(t) if t == "frobnicate"));
}

#[test]
fn instruction_listing() {
    let i = ins(OperationCode::MOVE, Some(imm(0)), Some(reg(0)), None);
    assert_eq!(i.to_string(), "MOVE 0, R0");
    let i = ins(OperationCode::RET, None, None, None);
    assert_eq!(i.to_string(), "RET");
    let i = ins(OperationCode::STORE64, Some(reg(3)), Some(imm(18446744073709551615)), None);
    assert_eq!(i.to_string(), "STORE64 R3, 18446744073709551615");
}

#[test]
fn decode_errors() {
    assert!(matches!(
        Instruction::decode(&[0x02]).unwrap_err().kind,
        ISAErrorKind::UnexpectedEndOfData { expected: 2, found: 1 }
    ));
    assert!(matches!(
        Instruction::decode(&[0x02, 0x04]).unwrap_err().kind,
        ISAErrorKind::InvalidOperandCount { count: 4 }
    ));
    assert!(matches!(
        Instruction::decode(&[0x02, 0x01, 0x05]).unwrap_err().kind,
        ISAErrorKind::UnknownOperandTag { byte: 5 }
    ));
    let e = Instruction::decode(&[0x02, 0x01, 0x01, 0x00]).unwrap_err();
    assert_eq!(
        e.to_string(),
        "unexpected end of data: expected at least 11 bytes, but only 4 were provided"
    );
    let e = Instruction::decode(&[0x40, 0x00]).unwrap_err();
    assert_eq!(e.to_string(), "unknown operation code: '64'");
}

#[test]
fn operand_expectations() {
    assert_eq!(imm(5).expect_immediate().unwrap(), 5);
    assert_eq!(reg(9).expect_register().unwrap().0, 9);
    let e = imm(5).expect_register().unwrap_err();
    assert_eq!(e.to_string(), "expected type register, but got value type");
    let e = reg(1).expect_immediate().unwrap_err();
    assert_eq!(e.to_string(), "expected type value, but got register type");
    assert_eq!(OperandKind::Immediate(1).kind(), "value");
    assert_eq!(OperandKind::Register(Register(1)).kind(), "register");
}

#[test]
fn text_helpers() {
    assert_eq!(decimal_string(0), "0");
    assert_eq!(decimal_string(1234567890), "1234567890");
    assert!(str_greater("0.2.0", "0.1.0"));
    assert!(!str_greater("0.1.0", "0.1.0"));
    assert!(str_greater("0.10.0", "0.1.0"));
    assert!(!str_greater("0.0.9", "0.1.0"));
}

// ====== Memory and registers ======

#[test]
fn memory_store_then_load() {
    let mut m = NVMMemory::new(16);
    assert_eq!(m.store_u64(3, 0x0102_0304_0506_0708), Some(()));
    assert_eq!(m.load_u64(3), Some(0x0102_0304_0506_0708));
    assert_eq!(m.load_u8(3), Some(0x08));
    assert_eq!(m.load_u8(10), Some(0x01));
    assert_eq!(m.load_u8(2), Some(0));
    assert_eq!(m.load_u8(11), Some(0));
    assert_eq!(m.store_u16(14, 0xBEEF), Some(()));
    assert_eq!(m.load_u16(14), Some(0xBEEF));
    assert_eq!(m.store_u32(0, 0xDEAD_BEEF), Some(()));
    assert_eq!(m.load_u32(0), Some(0xDEAD_BEEF));
    assert_eq!(m.store_i8(5, -2), Some(()));
    assert_eq!(m.load_i8(5), Some(-2));
    assert_eq!(m.load_u8(5), Some(0xFE));
    assert_eq!(m.store_i16(6, -300), Some(()));
    assert_eq!(m.load_i16(6), Some(-300));
    assert_eq!(m.store_i32(8, i32::MIN), Some(()));
    assert_eq!(m.load_i32(8), Some(i32::MIN));
    assert_eq!(m.store_i64(8, -1), Some(()));
    assert_eq!(m.load_i64(8), Some(-1));
    assert_eq!(m.len(), 16);
}

#[test]
fn memory_out_of_range_is_refused() {
    let mut m = NVMMemory::new(8);
    assert_eq!(m.store_u64(1, 5), None);
    assert_eq!(m.store_u16(7, 5), None);
    assert_eq!(m.store_u8(8, 5), None);
    assert_eq!(m.store_u32(usize::MAX, 5), None);
    for i in 0..8 {
        assert_eq!(m.load_u8(i), Some(0));
    }
    assert_eq!(m.load_u64(1), None);
    assert_eq!(m.load_u32(5), None);
    assert_eq!(m.load_u16(usize::MAX), None);
    assert_eq!(m.load_u8(8), None);
}

#[test]
fn registers_set_then_get() {
    let mut r = RegisterFile::new();
    r.set(Register(7), 99);
    r.set(Register(254), 1);
    assert_eq!(r.get(Register(7)), 99);
    assert_eq!(r.get(Register(254)), 1);
    assert_eq!(r.get(Register(8)), 0);
    let mut values = [0u64; 255];
    values[3] = 33;
    let r = RegisterFile::from_registers(values);
    assert_eq!(r.get(Register(3)), 33);
    assert_eq!(RegisterFile::default().get(Register(3)), 0);
}

// ====== Execution ======

#[test]
fn signed_arithmetic_wraps() {
    let program = vec![
        ins(OperationCode::SDIV, Some(reg(0)), Some(imm(i64::MIN as u64)), Some(imm(-1i64 as u64))),
        ins(OperationCode::SREM, Some(reg(1)), Some(imm(i64::MIN as u64)), Some(imm(-1i64 as u64))),
        ins(OperationCode::SDIV, Some(reg(2)), Some(imm(-7i64 as u64)), Some(imm(2))),
        ins(OperationCode::SREM, Some(reg(3)), Some(imm(-7i64 as u64)), Some(imm(2))),
        ins(OperationCode::INEG, Some(reg(4)), Some(imm(5)), None),
        ins(OperationCode::SAR, Some(reg(5)), Some(imm(-16i64 as u64)), Some(imm(2))),
        ins(OperationCode::SLT, Some(reg(6)), Some(imm(-1i64 as u64)), Some(imm(0))),
        ins(OperationCode::ULT, Some(reg(7)), Some(imm(-1i64 as u64)), Some(imm(0))),
        ins(OperationCode::UREM, Some(reg(8)), Some(imm(17)), Some(imm(5))),
        ins(OperationCode::UDIV, Some(reg(9)), Some(imm(17)), Some(imm(5))),
    ];
    for exec in 0..2 {
        let mut vm = NVM::new(0);
        vm.program = program.clone();
        if exec == 0 {
            vm.run(&host_fpu).unwrap();
        } else {
            vm.match_execute(&host_fpu).unwrap();
        }
        assert_eq!(vm.registers.get(Register(0)), i64::MIN as u64);
        assert_eq!(vm.registers.get(Register(1)), 0);
        assert_eq!(vm.registers.get(Register(2)) as i64, -3);
        assert_eq!(vm.registers.get(Register(3)) as i64, -1);
        assert_eq!(vm.registers.get(Register(4)) as i64, -5);
        assert_eq!(vm.registers.get(Register(5)) as i64, -4);
        assert_eq!(vm.registers.get(Register(6)), 1);
        assert_eq!(vm.registers.get(Register(7)), 0);
        assert_eq!(vm.registers.get(Register(8)), 2);
        assert_eq!(vm.registers.get(Register(9)), 3);
    }
}

#[test]
fn fneg_flips_the_sign_bit() {
    let mut vm = NVM::new(0);
    vm.program = vec![
        ins(OperationCode::FNEG, Some(reg(0)), Some(imm(1.5f64.to_bits())), None),
        ins(OperationCode::FNEG, Some(reg(1)), Some(imm(0.0f64.to_bits())), None),
    ];
    // The unit is not consulted for FNEG.
    vm.run(&fixed_fpu).unwrap();
    assert_eq!(f64::from_bits(vm.registers.get(Register(0))), -1.5);
    assert_eq!(vm.registers.get(Register(1)), (-0.0f64).to_bits());
}

#[test]
fn float_unit_answers_are_used() {
    let mut vm = NVM::new(0);
    vm.program = vec![
        ins(OperationCode::FMUL, Some(reg(0)), Some(imm(1)), Some(imm(2))),
        ins(OperationCode::FLT, Some(reg(1)), Some(imm(1)), Some(imm(2))),
    ];
    vm.match_execute(&fixed_fpu).unwrap();
    assert_eq!(vm.registers.get(Register(0)), 7);
    assert_eq!(vm.registers.get(Register(1)), 1);
}

#[test]
fn encoding_checks_before_running() {
    // The direct-threaded executor refuses the whole program: nothing runs.
    let program = vec![
        ins(OperationCode::MOVE, Some(reg(0)), Some(imm(1)), None),
        ins(OperationCode::JMP, None, None, None),
    ];
    let mut vm = NVM::new(0);
    vm.program = program.clone();
    let err = vm.run(&host_fpu).unwrap_err();
    assert!(matches!(err.kind, VMErrorKind::IncorrectNumberOfOperands { expected: 1, got: 0 }));
    assert_eq!(vm.registers.get(Register(0)), 0);
    // The decoding executor checks on reaching: the first MOVE has run.
    let mut vm = NVM::new(0);
    vm.program = program;
    let err = vm.match_execute(&host_fpu).unwrap_err();
    assert!(matches!(err.kind, VMErrorKind::IncorrectNumberOfOperands { expected: 1, got: 0 }));
    assert_eq!(vm.registers.get(Register(0)), 1);
    assert_eq!(err.to_string(), "expected 1 operands, but got 0 operands");
}

#[test]
fn jump_past_the_end_stops() {
    for exec in 0..2 {
        let mut vm = NVM::new(0);
        vm.program = vec![
            ins(OperationCode::JMP, Some(imm(1000)), None, None),
            ins(OperationCode::MOVE, Some(reg(0)), Some(imm(1)), None),
        ];
        if exec == 0 {
            vm.run(&host_fpu).unwrap();
        } else {
            vm.match_execute(&host_fpu).unwrap();
        }
        assert_eq!(vm.registers.get(Register(0)), 0);
    }
}

#[test]
fn call_and_ret_with_the_decoding_executor() {
    let mut vm = NVM::new(0);
    vm.program = vec![
        ins(OperationCode::MOVE, Some(reg(0)), Some(imm(21)), None),
        ins(OperationCode::CALL, Some(imm(4)), None, None),
        ins(OperationCode::IADD, Some(reg(0)), Some(reg(0)), Some(reg(0))),
        ins(OperationCode::EXIT, None, None, None),
        ins(OperationCode::IADD, Some(reg(0)), Some(reg(0)), Some(reg(0))),
        ins(OperationCode::RET, None, None, None),
    ];
    vm.match_execute(&host_fpu).unwrap();
    assert_eq!(vm.registers.get(Register(0)), 84);
    assert!(vm.call_stack.is_empty());
}

#[test]
fn executors_agree_on_a_loop() {
    // R0 counts to 10 in a loop, storing each value at address R0.
    let program = vec![
        ins(OperationCode::IADD, Some(reg(0)), Some(reg(0)), Some(imm(1))),
        ins(OperationCode::STORE8, Some(reg(0)), Some(reg(0)), None),
        ins(OperationCode::ULT, Some(reg(1)), Some(reg(0)), Some(imm(10))),
        ins(OperationCode::JNZ, Some(reg(1)), Some(imm(0)), None),
        ins(OperationCode::LOAD16, Some(reg(2)), Some(imm(9)), None),
    ];
    let mut a = NVM::from_program_and_memory(program.clone(), NVMMemory::new(11));
    a.run(&host_fpu).unwrap();
    let mut b = NVM::from_program_and_memory(program.clone(), NVMMemory::new(11));
    b.match_execute(&host_fpu).unwrap();
    let mut c = NVM::from_program_and_memory(program, NVMMemory::new(11));
    c.direct_threading_execute(&host_fpu).unwrap();
    assert_eq!(a.registers.get(Register(0)), 10);
    assert_eq!(a.registers.get(Register(2)), 0x0A09);
    assert!(same_state(&a, &b));
    assert!(same_state(&a, &c));
}

#[test]
fn invalid_address_message() {
    let mut vm = NVM::new(4);
    vm.program = vec![ins(OperationCode::STORE32, Some(imm(2)), Some(imm(1)), None)];
    let err = vm.run(&host_fpu).unwrap_err();
    assert!(matches!(err.kind, VMErrorKind::InvalidAddress { got: 2, memory_length: 4 }));
    assert_eq!(
        err.to_string(),
        "memory access out of bounds: address 2 is outside memory (size: 4 bytes)"
    );
    assert_eq!(vm.memory.load_u8(2), Some(0));
}

#[test]
fn other_vm_messages() {
    assert_eq!(VMError::new(VMErrorKind::DivisionByZero).to_string(), "division by zero");
    assert_eq!(VMError::new(VMErrorKind::EmptyCallStack).to_string(), "empty call stack");
}

// ====== Reports ======

#[test]
fn report_without_colours() {
    let kind = NVMErrorKind::VMError(VMError::new(VMErrorKind::IncorrectTypeOfOperand {
        expected: OperandKind::Register(Register(0)),
        got: OperandKind::Immediate(0),
    }));
    let instr = ins(OperationCode::MOVE, Some(imm(0)), Some(reg(0)), None);
    let e = NVMError::new(kind, Some(instr), false);
    assert_eq!(
        e.report_text(),
        "Error: expected type register, but got value type.\n\n-->  MOVE 0, R0\n     ^^^^^^^^^^\n"
    );
}

#[test]
fn report_with_colours_and_no_instruction() {
    let kind = NVMErrorKind::VMError(VMError::new(VMErrorKind::EmptyCallStack));
    let e = NVMError::new(kind, None, true);
    assert_eq!(
        e.report_text(),
        "\x1b[1;31mError\x1b[0m: \x1b[1mempty call stack\x1b[0m.\n\n"
    );
}

#[test]
fn report_of_an_io_error() {
    let io = std::io::Error::new(std::io::ErrorKind::Other, "disk gone");
    let e = NVMError::new(NVMErrorKind::IoError(io), None, false);
    assert_eq!(e.report_text(), "Error: disk gone.\n\n");
}

#[test]
fn report_of_a_loader_error() {
    let err = NVMLoader::new(vec![]).transpile().unwrap_err();
    let e = NVMError::new(NVMErrorKind::LoaderError(err), None, false);
    assert_eq!(
        e.report_text(),
        "Error: the file is not in NVM Bytecode format: the file must be at least 11 bytes in size.\n\n"
    );
}

#[test]
fn the_unit_is_asked_the_instruction_questions_in_order() {
    let program = vec![
        ins(OperationCode::FSUB, Some(reg(0)), Some(imm(5)), Some(imm(2))),
        ins(OperationCode::FGE, Some(reg(1)), Some(reg(0)), Some(imm(9))),
        ins(OperationCode::FNEG, Some(reg(2)), Some(imm(3)), None),
    ];
    for exec in 0..2 {
        let asked = std::cell::RefCell::new(Vec::new());
        let unit = |q: FloatQuery| {
            asked.borrow_mut().push(q);
            match q {
                FloatQuery::Arith(..) => 40,
                FloatQuery::Compare(..) => 0,
            }
        };
        let mut vm = NVM::new(0);
        vm.program = program.clone();
        if exec == 0 {
            vm.run(&unit).unwrap();
        } else {
            vm.match_execute(&unit).unwrap();
        }
        let asked = asked.into_inner();
        assert_eq!(asked.len(), 2);
        assert!(matches!(asked[0], FloatQuery::Arith(FloatArith::Sub, 5, 2)));
        assert!(matches!(asked[1], FloatQuery::Compare(FloatComparison::Ge, 40, 9)));
        assert_eq!(vm.registers.get(Register(0)), 40);
        assert_eq!(vm.registers.get(Register(1)), 0);
    }
}

#[test]
fn encoding_errors_are_reported_for_any_program() {
    // R255 and a misplaced operand in the program do not stop the encoding
    // error from being reported.
    let mut vm = NVM::new(0);
    vm.program = vec![
        ins(OperationCode::MOVE, Some(reg(255)), Some(imm(1)), None),
        ins(OperationCode::JMP, None, Some(imm(0)), None),
        ins(OperationCode::IADD, Some(reg(0)), Some(imm(1)), None),
    ];
    let err = vm.run(&host_fpu).unwrap_err();
    assert!(matches!(err.kind, VMErrorKind::IncorrectNumberOfOperands { expected: 3, got: 2 }));
}

#[test]
fn unreached_missing_register_does_not_matter() {
    let program = vec![
        ins(OperationCode::MOVE, Some(reg(0)), Some(imm(5)), None),
        ins(OperationCode::EXIT, None, None, None),
        ins(OperationCode::MOVE, Some(reg(255)), Some(imm(1)), None),
    ];
    let mut a = NVM::new(0);
    a.program = program.clone();
    a.run(&host_fpu).unwrap();
    let mut b = NVM::new(0);
    b.program = program;
    b.match_execute(&host_fpu).unwrap();
    assert_eq!(a.registers.get(Register(0)), 5);
    assert!(same_state(&a, &b));
}

// The bytes of an instruction in a bytecode file.
fn instruction_bytes(i: &Instruction) -> Vec<u8> {
    let operands: Vec<Operand> = [i.operand1, i.operand2, i.operand3].into_iter().flatten().collect();
    let mut bytes = vec![i.opcode.to_byte(), operands.len() as u8];
    for o in operands {
        match o.kind {
            OperandKind::Register(r) => bytes.extend_from_slice(&[0x00, r.0]),
            OperandKind::Immediate(v) => {
                bytes.push(0x01);
                bytes.extend_from_slice(&v.to_le_bytes());
            }
        }
    }
    bytes
}

#[test]
fn loading_reads_back_written_programs() {
    let program = vec![
        ins(OperationCode::MOVE, Some(reg(0)), Some(imm(u64::MAX)), None),
        ins(OperationCode::IADD, Some(reg(1)), Some(reg(0)), Some(imm(7))),
        ins(OperationCode::JNZ, Some(reg(1)), Some(imm(0)), None),
        ins(OperationCode::RET, None, None, None),
    ];
    let mut stream = Vec::new();
    for i in &program {
        stream.extend_from_slice(&instruction_bytes(i));
    }
    let loaded = NVMLoader::new(nb(0, 1, 0, &stream)).transpile().unwrap();
    assert_eq!(loaded.len(), program.len());
    for (a, b) in loaded.iter().zip(program.iter()) {
        assert_eq!(a.to_string(), b.to_string());
    }
    // Concatenated streams load as concatenated programs.
    let first = instruction_bytes(&program[0]);
    let second = instruction_bytes(&program[3]);
    let mut both = first.clone();
    both.extend_from_slice(&second);
    let loaded = NVMLoader::new(nb(0, 1, 0, &both)).transpile().unwrap();
    assert_eq!(loaded.len(), 2);
    assert_eq!(loaded[0].to_string(), "MOVE R0, 18446744073709551615");
    assert_eq!(loaded[1].to_string(), "RET");
}

#[test]
fn failing_instruction_has_no_effect() {
    for exec in 0..2 {
        let mut vm = NVM::new(0);
        vm.program = vec![
            ins(OperationCode::MOVE, Some(reg(0)), Some(imm(7)), None),
            ins(OperationCode::SDIV, Some(reg(0)), Some(imm(10)), Some(imm(0))),
        ];
        let err = if exec == 0 {
            vm.run(&host_fpu).unwrap_err()
        } else {
            vm.match_execute(&host_fpu).unwrap_err()
        };
        assert!(matches!(err.kind, VMErrorKind::DivisionByZero));
        assert_eq!(vm.registers.get(Register(0)), 7);
    }
}

#[test]
fn memory_index_by_register() {
    let mut m = NVMMemory::new(4);
    m.store_u8(2, 9).unwrap();
    assert_eq!(m.index(Register(2)), 9);
}

#[test]
fn operand_after_a_missing_one() {
    // MOVE R0, _, 5: the direct-threaded executor reads the missing source as
    // 0; the decoding executor refuses the operand layout when it reaches it.
    let program = vec![ins(OperationCode::MOVE, Some(reg(0)), None, Some(imm(5)))];
    let mut a = NVM::new(0);
    a.registers.set(Register(0), 9);
    a.program = program.clone();
    a.run(&host_fpu).unwrap();
    assert_eq!(a.registers.get(Register(0)), 0);
    let mut b = NVM::new(0);
    b.program = program;
    let err = b.match_execute(&host_fpu).unwrap_err();
    assert!(matches!(err.kind, VMErrorKind::IncorrectNumberOfOperands { expected: 2, got: 2 }));
}

#[test]
fn mnemonics_parse_with_from_str() {
    let op: OperationCode = "iAdD".parse().unwrap();
    assert_eq!(op.to_byte(), 11);
    assert!("nope".parse::<OperationCode>().is_err());
}

#[test]
fn call_to_the_next_instruction_still_pushes_and_returns() {
    let mut vm = NVM::new(0);
    vm.program = vec![
        ins(OperationCode::CALL, Some(imm(1)), None, None),
        ins(OperationCode::IADD, Some(reg(0)), Some(reg(0)), Some(imm(1))),
        ins(OperationCode::JZ, Some(reg(1)), Some(imm(4)), None),
        ins(OperationCode::EXIT, None, None, None),
        ins(OperationCode::MOVE, Some(reg(1)), Some(imm(1)), None),
        ins(OperationCode::RET, None, None, None),
    ];
    // CALL 1 runs IADD, then JZ jumps to 4, MOVE, RET back to 1: IADD again,
    // JZ not taken (R1 = 1), EXIT.
    vm.match_execute(&host_fpu).unwrap();
    assert_eq!(vm.registers.get(Register(0)), 2);
    assert!(vm.call_stack.is_empty());
}
