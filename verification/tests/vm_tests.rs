//! Instruction semantics: bitwise, comparison and floating-point operations.
use nvm_core::isa::instruction::Instruction;
use nvm_core::isa::opcode::OperationCode;
use nvm_core::isa::operand::{Operand, OperandKind};
use nvm_core::isa::register::Register;
use nvm_core::vm::err::{VMError, VMErrorKind};
use nvm_core::vm::{FloatArith, FloatComparison, FloatQuery, NVM};

// The host's IEEE 754 arithmetic on the bits held in registers.
fn host_fpu(q: FloatQuery) -> u64 {
    match q {
        FloatQuery::Arith(op, lhs, rhs) => {
            let (a, b) = (f64::from_bits(lhs), f64::from_bits(rhs));
            let r = match op {
                FloatArith::Add => a + b,
                FloatArith::Sub => a - b,
                FloatArith::Mul => a * b,
                FloatArith::Div => a / b,
                FloatArith::Rem => a % b,
            };
            r.to_bits()
        }
        FloatQuery::Compare(op, lhs, rhs) => {
            let (a, b) = (f64::from_bits(lhs), f64::from_bits(rhs));
            let holds = match op {
                FloatComparison::Eq => a == b,
                FloatComparison::Ne => a != b,
                FloatComparison::Lt => a < b,
                FloatComparison::Le => a <= b,
                FloatComparison::Gt => a > b,
                FloatComparison::Ge => a >= b,
            };
            holds as u64
        }
    }
}

// A register operand.
fn reg(r: u8) -> Operand {
    Operand {
        kind: OperandKind::Register(Register(r)),
    }
}

// An immediate operand.
fn imm(v: u64) -> Operand {
    Operand {
        kind: OperandKind::Immediate(v),
    }
}

// Runs the program with the direct-threaded executor on a prepared machine.
fn run_on(mut vm: NVM, program: Vec<Instruction>) -> NVM {
    vm.program = program;
    vm.run(&host_fpu).expect("execution failed");
    vm
}

// Runs the program on a new machine and returns the result.
fn run_with_result(program: Vec<Instruction>) -> Result<NVM, VMError> {
    let mut vm = NVM::new(0);
    vm.program = program;
    vm.run(&host_fpu)?;
    Ok(vm)
}

// `R0 = a op b` with the direct-threaded executor.
fn get_result(opcode: OperationCode, a: u64, b: u64) -> u64 {
    let mut nvm = NVM::new(0);
    nvm.program = vec![Instruction {
        opcode,
        operand1: Some(reg(0)),
        operand2: Some(imm(a)),
        operand3: Some(imm(b)),
    }];
    nvm.run(&host_fpu).expect("execution failed");
    nvm.registers.get(Register(0))
}

// `R0 = a op b` with the decoding executor.
fn get_int(opcode: OperationCode, a: u64, b: u64) -> u64 {
    let mut nvm = NVM::new(0);
    nvm.program = vec![Instruction {
        opcode,
        operand1: Some(reg(0)),
        operand2: Some(imm(a)),
        operand3: Some(imm(b)),
    }];
    nvm.match_execute(&host_fpu).expect("execution failed");
    nvm.registers.get(Register(0))
}

// An immediate holding the bits of a floating-point value.
fn imm_f(value: f64) -> Operand {
    Operand {
        kind: OperandKind::Immediate(value.to_bits()),
    }
}

#[test]
fn nothing_after_exit() {
    let vm = NVM::new(0);

    let vm = run_on(
        vm,
        vec![
            Instruction {
                opcode: OperationCode::MOVE,
                operand1: Some(reg(0)),
                operand2: Some(imm(67)),
                operand3: None,
            },
            Instruction {
                opcode: OperationCode::EXIT,
                operand1: None,
                operand2: None,
                operand3: None,
            },
            Instruction {
                opcode: OperationCode::IADD,
                operand1: Some(reg(0)),
                operand2: Some(reg(0)),
                operand3: Some(imm(1)),
            },
        ],
    );

    assert_eq!(vm.registers.get(Register(0)), 67);
}

#[test]
fn shl_basic() {
    assert_eq!(get_result(OperationCode::SHL, 1, 4), 16);
}

#[test]
fn shl_by_zero() {
    assert_eq!(get_result(OperationCode::SHL, 0x1234, 0), 0x1234);
}

#[test]
fn shl_zero() {
    assert_eq!(get_result(OperationCode::SHL, 0, 10), 0);
}

#[test]
fn shl_to_msb() {
    assert_eq!(get_result(OperationCode::SHL, 1, 63), 1u64 << 63);
}

#[test]
fn shl_wrap_around() {
    assert_eq!(get_result(OperationCode::SHL, 1, 64), 1);
}

#[test]
fn shl_wrap_large() {
    assert_eq!(get_result(OperationCode::SHL, 1, 128), 1);
}

#[test]
fn shl_lose_bits() {
    assert_eq!(
        get_result(OperationCode::SHL, 0xFFFF_FFFF_FFFF_FFFF, 4),
        0xFFFF_FFFF_FFFF_FFF0
    );
}

#[test]
fn shl_max_shift_255() {
    assert_eq!(get_result(OperationCode::SHL, 1, 255), 1 << 63);
}

#[test]
fn shl_registers() {
    let mut nvm = NVM::new(0);
    nvm.registers.set(Register(1), 3);
    nvm.registers.set(Register(2), 5);

    nvm.program = vec![Instruction {
        opcode: OperationCode::SHL,
        operand1: Some(reg(0)),
        operand2: Some(reg(1)),
        operand3: Some(reg(2)),
    }];

    nvm.run(&host_fpu).expect("execution failed");
    assert_eq!(nvm.registers.get(Register(0)), 96);
}

#[test]
fn shl_shift_by_register() {
    let mut nvm = NVM::new(0);
    nvm.registers.set(Register(0), 1);
    nvm.registers.set(Register(1), 63);

    nvm.program = vec![Instruction {
        opcode: OperationCode::SHL,
        operand1: Some(reg(2)),
        operand2: Some(reg(0)),
        operand3: Some(reg(1)),
    }];

    nvm.run(&host_fpu).expect("execution failed");
    assert_eq!(
        nvm.registers.get(Register(2)),
        1u64 << 63
    );
}

#[test]
fn shr_basic() {
    assert_eq!(get_result(OperationCode::SHR, 16, 4), 1);
}

#[test]
fn shr_by_zero() {
    assert_eq!(get_result(OperationCode::SHR, 0x1234, 0), 0x1234);
}

#[test]
fn shr_zero() {
    assert_eq!(get_result(OperationCode::SHR, 0, 10), 0);
}

#[test]
fn shr_logical_not_arithmetic() {
    assert_eq!(get_result(OperationCode::SHR, 0x8000_0000_0000_0000, 63), 1);
}

#[test]
fn shr_lsb_to_zero() {
    assert_eq!(get_result(OperationCode::SHR, 1, 1), 0);
}

#[test]
fn shr_wrap_around() {
    assert_eq!(get_result(OperationCode::SHR, 1, 64), 1);
}

#[test]
fn shr_wrap_large() {
    assert_eq!(get_result(OperationCode::SHR, 1, 128), 1);
}

#[test]
fn shr_lose_low_bits() {
    assert_eq!(
        get_result(OperationCode::SHR, 0xFFFF_FFFF_FFFF_FFFF, 4),
        0x0FFF_FFFF_FFFF_FFFF
    );
}

#[test]
fn shr_high_bit_becomes_zero() {
    assert_eq!(
        get_result(OperationCode::SHR, 0x8000_0000_0000_0000, 1),
        0x4000_0000_0000_0000
    );
}

#[test]
fn shr_registers() {
    let mut nvm = NVM::new(0);
    nvm.registers.set(Register(1), 256);
    nvm.registers.set(Register(2), 8);

    nvm.program = vec![Instruction {
        opcode: OperationCode::SHR,
        operand1: Some(reg(0)),
        operand2: Some(reg(1)),
        operand3: Some(reg(2)),
    }];

    nvm.run(&host_fpu).expect("execution failed");
    assert_eq!(nvm.registers.get(Register(0)), 1);
}

#[test]
fn bitwise_chain_and_or_xor() {
    let mut nvm = NVM::new(0);
    nvm.registers.set(Register(1), 0xFF00);
    nvm.registers.set(Register(2), 0x0FF0);

    nvm.program = vec![
        Instruction {
            opcode: OperationCode::AND,
            operand1: Some(reg(0)),
            operand2: Some(reg(1)),
            operand3: Some(reg(2)),
        },
        Instruction {
            opcode: OperationCode::OR,
            operand1: Some(reg(0)),
            operand2: Some(reg(0)),
            operand3: Some(imm(0x00FF)),
        },
        Instruction {
            opcode: OperationCode::XOR,
            operand1: Some(reg(0)),
            operand2: Some(reg(0)),
            operand3: Some(imm(0xFFFF)),
        },
    ];

    nvm.run(&host_fpu).expect("execution failed");
    assert_eq!(nvm.registers.get(Register(0)), 0x0FFF ^ 0xFFFF);
}

#[test]
fn bitwise_not_then_and() {
    let mut nvm = NVM::new(0);
    nvm.registers.set(Register(1), 0xFFFF_0000_FFFF_0000);

    nvm.program = vec![
        Instruction {
            opcode: OperationCode::NOT,
            operand1: Some(reg(0)),
            operand2: Some(reg(1)),
            operand3: None,
        },
        Instruction {
            opcode: OperationCode::AND,
            operand1: Some(reg(2)),
            operand2: Some(reg(0)),
            operand3: Some(reg(1)),
        },
    ];

    nvm.run(&host_fpu).expect("execution failed");
    assert_eq!(nvm.registers.get(Register(2)), 0);
}

#[test]
fn bitwise_shift_chain() {
    let mut nvm = NVM::new(0);
    nvm.registers.set(Register(1), 1);

    nvm.program = vec![
        Instruction {
            opcode: OperationCode::SHL,
            operand1: Some(reg(0)),
            operand2: Some(reg(1)),
            operand3: Some(imm(4)),
        },
        Instruction {
            opcode: OperationCode::SAR,
            operand1: Some(reg(0)),
            operand2: Some(reg(0)),
            operand3: Some(imm(2)),
        },
        Instruction {
            opcode: OperationCode::SHR,
            operand1: Some(reg(0)),
            operand2: Some(reg(0)),
            operand3: Some(imm(1)),
        },
    ];

    nvm.run(&host_fpu).expect("execution failed");
    assert_eq!(nvm.registers.get(Register(0)), 2);
}

#[test]
fn bitwise_wrong_operand_count_on_three_op() {
    let err = match run_with_result(vec![Instruction {
        opcode: OperationCode::AND,
        operand1: Some(reg(0)),
        operand2: Some(reg(1)),
        operand3: None,
    }]) {
        Err(err) => err,
        Ok(_) => panic!("expected execution error"),
    };

    assert!(matches!(
        err.kind,
        VMErrorKind::IncorrectNumberOfOperands {
            expected: 3,
            got: 2
        }
    ));
}

#[test]
fn bitwise_immediate_destination_error() {
    let err = match run_with_result(vec![Instruction {
        opcode: OperationCode::XOR,
        operand1: Some(imm(0)),
        operand2: Some(imm(1)),
        operand3: Some(imm(2)),
    }]) {
        Err(err) => err,
        Ok(_) => panic!("expected execution error"),
    };

    assert!(matches!(
        err.kind,
        VMErrorKind::IncorrectTypeOfOperand { .. }
    ));
}

#[test]
fn bitwise_sar_negative_then_not() {
    let mut nvm = NVM::new(0);

    nvm.program = vec![
        Instruction {
            opcode: OperationCode::SAR,
            operand1: Some(reg(0)),
            operand2: Some(imm(0x8000_0000_0000_0000)),
            operand3: Some(imm(63)),
        },
        Instruction {
            opcode: OperationCode::NOT,
            operand1: Some(reg(1)),
            operand2: Some(reg(0)),
            operand3: None,
        },
    ];

    nvm.run(&host_fpu).expect("execution failed");
    assert_eq!(nvm.registers.get(Register(0)), u64::MAX);
    assert_eq!(nvm.registers.get(Register(1)), 0);
}

#[test]
fn bitwise_xor_triple() {
    let mut nvm = NVM::new(0);
    nvm.registers.set(Register(1), 0xAAAA_AAAA_AAAA_AAAA);
    nvm.registers.set(Register(2), 0xBBBB_BBBB_BBBB_BBBB);
    nvm.registers.set(Register(3), 0xCCCC_CCCC_CCCC_CCCC);

    nvm.program = vec![
        Instruction {
            opcode: OperationCode::XOR,
            operand1: Some(reg(0)),
            operand2: Some(reg(1)),
            operand3: Some(reg(2)),
        },
        Instruction {
            opcode: OperationCode::XOR,
            operand1: Some(reg(0)),
            operand2: Some(reg(0)),
            operand3: Some(reg(3)),
        },
        Instruction {
            opcode: OperationCode::XOR,
            operand1: Some(reg(0)),
            operand2: Some(reg(0)),
            operand3: Some(reg(1)),
        },
        Instruction {
            opcode: OperationCode::XOR,
            operand1: Some(reg(0)),
            operand2: Some(reg(0)),
            operand3: Some(reg(2)),
        },
    ];

    nvm.run(&host_fpu).expect("execution failed");
    assert_eq!(nvm.registers.get(Register(0)), 0xCCCC_CCCC_CCCC_CCCC);
}

#[test]
fn ieq_equal_values() {
    assert_eq!(get_int(OperationCode::IEQ, 42, 42), 1);
}

#[test]
fn ieq_not_equal() {
    assert_eq!(get_int(OperationCode::IEQ, 42, 43), 0);
}

#[test]
fn ieq_zero_and_zero() {
    assert_eq!(get_int(OperationCode::IEQ, 0, 0), 1);
}

#[test]
fn ieq_large_equal() {
    assert_eq!(get_int(OperationCode::IEQ, u64::MAX, u64::MAX), 1);
}

#[test]
fn ieq_register_sources() {
    let mut nvm = NVM::new(0);
    nvm.registers.set(Register(1), 100);
    nvm.registers.set(Register(2), 100);
    nvm.program = vec![Instruction {
        opcode: OperationCode::IEQ,
        operand1: Some(reg(0)),
        operand2: Some(reg(1)),
        operand3: Some(reg(2)),
    }];
    nvm.run(&host_fpu).expect("execution failed");
    assert_eq!(nvm.registers.get(Register(0)), 1);
}

#[test]
fn ine_not_equal() {
    assert_eq!(get_int(OperationCode::INE, 10, 20), 1);
}

#[test]
fn ine_equal() {
    assert_eq!(get_int(OperationCode::INE, 10, 10), 0);
}

#[test]
fn ine_zero_and_max() {
    assert_eq!(get_int(OperationCode::INE, 0, u64::MAX), 1);
}

#[test]
fn compare_wrong_operand_count() {
    let err = match run_with_result(vec![Instruction {
        opcode: OperationCode::IEQ,
        operand1: Some(reg(0)),
        operand2: Some(reg(1)),
        operand3: None,
    }]) {
        Err(err) => err,
        Ok(_) => panic!("expected execution error"),
    };

    assert!(matches!(
        err.kind,
        VMErrorKind::IncorrectNumberOfOperands {
            expected: 3,
            got: 2
        }
    ));
}

#[test]
fn compare_immediate_destination() {
    let err = match run_with_result(vec![Instruction {
        opcode: OperationCode::SLT,
        operand1: Some(imm(0)),
        operand2: Some(imm(1)),
        operand3: Some(imm(2)),
    }]) {
        Err(err) => err,
        Ok(_) => panic!("expected execution error"),
    };

    assert!(matches!(
        err.kind,
        VMErrorKind::IncorrectTypeOfOperand { .. }
    ));
}

#[test]
fn compare_chain_ieq_slt_uge() {
    let mut nvm = NVM::new(0);
    nvm.registers.set(Register(1), 10);
    nvm.registers.set(Register(2), 20);

    nvm.program = vec![
        Instruction {
            opcode: OperationCode::IEQ,
            operand1: Some(reg(0)),
            operand2: Some(reg(1)),
            operand3: Some(reg(2)),
        },
        Instruction {
            opcode: OperationCode::SLT,
            operand1: Some(reg(3)),
            operand2: Some(reg(1)),
            operand3: Some(reg(2)),
        },
        Instruction {
            opcode: OperationCode::UGE,
            operand1: Some(reg(4)),
            operand2: Some(reg(2)),
            operand3: Some(reg(1)),
        },
    ];

    nvm.run(&host_fpu).expect("execution failed");
    assert_eq!(nvm.registers.get(Register(0)), 0);
    assert_eq!(nvm.registers.get(Register(3)), 1);
    assert_eq!(nvm.registers.get(Register(4)), 1);
}

#[test]
fn compare_float_chain() {
    let mut nvm = NVM::new(0);
    let a = 1.5f64;
    let b = 2.5f64;

    nvm.registers.set(Register(1), a.to_bits());
    nvm.registers.set(Register(2), b.to_bits());

    nvm.program = vec![
        Instruction {
            opcode: OperationCode::FEQ,
            operand1: Some(reg(0)),
            operand2: Some(reg(1)),
            operand3: Some(reg(2)),
        },
        Instruction {
            opcode: OperationCode::FLT,
            operand1: Some(reg(3)),
            operand2: Some(reg(1)),
            operand3: Some(reg(2)),
        },
        Instruction {
            opcode: OperationCode::FGT,
            operand1: Some(reg(4)),
            operand2: Some(reg(2)),
            operand3: Some(reg(1)),
        },
    ];

    nvm.run(&host_fpu).expect("execution failed");
    assert_eq!(nvm.registers.get(Register(0)), 0);
    assert_eq!(nvm.registers.get(Register(3)), 1);
    assert_eq!(nvm.registers.get(Register(4)), 1);
}

#[test]
fn compare_mixed_int_and_float() {
    let mut nvm = NVM::new(0);

    nvm.program = vec![
        Instruction {
            opcode: OperationCode::IEQ,
            operand1: Some(reg(0)),
            operand2: Some(imm(0)),
            operand3: Some(imm(0)),
        },
        Instruction {
            opcode: OperationCode::FEQ,
            operand1: Some(reg(1)),
            operand2: Some(imm(f64::NAN.to_bits())),
            operand3: Some(imm(f64::NAN.to_bits())),
        },
    ];

    nvm.run(&host_fpu).expect("execution failed");
    assert_eq!(nvm.registers.get(Register(0)), 1);
    assert_eq!(nvm.registers.get(Register(1)), 0);
}

#[test]
fn float_arithmetic_sequence() {
    let mut vm = NVM::new(0);

    vm.program = vec![
        Instruction {
            opcode: OperationCode::FADD,
            operand1: Some(reg(0)),
            operand2: Some(imm_f(1.5)),
            operand3: Some(imm_f(2.5)),
        },
        Instruction {
            opcode: OperationCode::FMUL,
            operand1: Some(reg(1)),
            operand2: Some(reg(0)),
            operand3: Some(imm_f(2.0)),
        },
        Instruction {
            opcode: OperationCode::FSUB,
            operand1: Some(reg(2)),
            operand2: Some(reg(1)),
            operand3: Some(imm_f(1.0)),
        },
        Instruction {
            opcode: OperationCode::FDIV,
            operand1: Some(reg(3)),
            operand2: Some(reg(2)),
            operand3: Some(imm_f(2.0)),
        },
        Instruction {
            opcode: OperationCode::FREM,
            operand1: Some(reg(4)),
            operand2: Some(reg(2)),
            operand3: Some(imm_f(2.5)),
        },
    ];

    vm.run(&host_fpu).expect("execution failed");

    assert_eq!(f64::from_bits(vm.registers.get(Register(0))), 4.0);
    assert_eq!(f64::from_bits(vm.registers.get(Register(1))), 8.0);
    assert_eq!(f64::from_bits(vm.registers.get(Register(2))), 7.0);
    assert_eq!(f64::from_bits(vm.registers.get(Register(3))), 3.5);
    assert_eq!(f64::from_bits(vm.registers.get(Register(4))), 2.0);
}
