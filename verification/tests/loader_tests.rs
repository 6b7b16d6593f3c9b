//! The loader: header checks, version check and instruction parsing.
use nvm_core::isa::instruction::Instruction;
use nvm_core::isa::opcode::OperationCode;
use nvm_core::loader::err::{LoaderError, LoaderErrorKind};
use nvm_core::loader::NVMLoader;

// A minimal valid `.nb` file with version 0.1.0.
fn make_nb(data: &[u8]) -> Vec<u8> {
    let mut bytes = b"NVMBC".to_vec();
    bytes.extend_from_slice(&0u16.to_le_bytes()); // major = 0
    bytes.extend_from_slice(&1u16.to_le_bytes()); // minor = 1
    bytes.extend_from_slice(&0u16.to_le_bytes()); // patch = 0
    bytes.extend_from_slice(data);
    bytes
}

// A `.nb` file with an arbitrary version.
fn make_nb_with_version(major: u16, minor: u16, patch: u16, data: &[u8]) -> Vec<u8> {
    let mut bytes = b"NVMBC".to_vec();
    bytes.extend_from_slice(&major.to_le_bytes());
    bytes.extend_from_slice(&minor.to_le_bytes());
    bytes.extend_from_slice(&patch.to_le_bytes());
    bytes.extend_from_slice(data);
    bytes
}

// Runs the loader and returns the result.
fn run_loader(data: Vec<u8>) -> Result<Vec<Instruction>, LoaderError> {
    NVMLoader::new(data).transpile()
}

// The bytes of `NOP` (opcode 0, no operands).
fn nop_bytes() -> Vec<u8> {
    vec![0x00, 0x00]
}

// The bytes of `EXIT` (opcode 1, no operands).
fn exit_bytes() -> Vec<u8> {
    vec![0x01, 0x00]
}

// The bytes of `MOVE` with two registers.
fn move_reg_reg(dst: u8, src: u8) -> Vec<u8> {
    vec![0x02, 0x02, 0x00, dst, 0x00, src]
}

// The bytes of `MOVE` with a register and an immediate.
fn move_reg_imm(dst: u8, val: u64) -> Vec<u8> {
    let mut bytes = vec![0x02, 0x02, 0x00, dst, 0x01];
    bytes.extend_from_slice(&val.to_le_bytes());
    bytes
}

#[test]
fn valid_magic_accepts() {
    let result = run_loader(make_nb(&nop_bytes()));
    assert!(result.is_ok());
}

#[test]
fn empty_file_rejected() {
    let err = match run_loader(vec![]) {
        Err(e) => e,
        Ok(_) => panic!("expected loader error"),
    };

    assert!(matches!(
        err.kind,
        LoaderErrorKind::FileIsNotInNVMBytecodeFormat { .. }
    ));
}

#[test]
fn too_short_for_magic_rejected() {
    let err = match run_loader(b"NV".to_vec()) {
        Err(e) => e,
        Ok(_) => panic!("expected loader error"),
    };

    assert!(matches!(
        err.kind,
        LoaderErrorKind::FileIsNotInNVMBytecodeFormat { .. }
    ));
}

#[test]
fn wrong_magic_rejected() {
    let mut data = b"XXXXX".to_vec();
    data.extend_from_slice(&0u16.to_le_bytes());
    data.extend_from_slice(&1u16.to_le_bytes());
    data.extend_from_slice(&0u16.to_le_bytes());

    let err = match run_loader(data) {
        Err(e) => e,
        Ok(_) => panic!("expected loader error"),
    };

    assert!(matches!(
        err.kind,
        LoaderErrorKind::FileIsNotInNVMBytecodeFormat { .. }
    ));
}

#[test]
fn lowercase_magic_rejected() {
    let mut data = b"nvmbc".to_vec();
    data.extend_from_slice(&0u16.to_le_bytes());
    data.extend_from_slice(&1u16.to_le_bytes());
    data.extend_from_slice(&0u16.to_le_bytes());

    let err = match run_loader(data) {
        Err(e) => e,
        Ok(_) => panic!("expected loader error"),
    };

    assert!(matches!(
        err.kind,
        LoaderErrorKind::FileIsNotInNVMBytecodeFormat { .. }
    ));
}

#[test]
fn partial_magic_rejected() {
    let mut data = b"NVM".to_vec();
    data.extend_from_slice(&0u16.to_le_bytes());
    data.extend_from_slice(&1u16.to_le_bytes());
    data.extend_from_slice(&0u16.to_le_bytes());

    let err = match run_loader(data) {
        Err(e) => e,
        Ok(_) => panic!("expected loader error"),
    };

    assert!(matches!(
        err.kind,
        LoaderErrorKind::FileIsNotInNVMBytecodeFormat { .. }
    ));
}

#[test]
fn magic_with_trailing_bytes_after_magic_ok() {
    let result = run_loader(make_nb(&[]));
    assert!(result.is_ok());
    assert!(result.unwrap().is_empty());
}

#[test]
fn magic_with_extra_bytes_before_instruction_stream_ok() {
    let result = run_loader(make_nb(&nop_bytes()));
    assert!(result.is_ok());
}

#[test]
fn magic_exactly_five_bytes_with_version_rejected() {
    // 5 bytes of magic + 5 bytes of version = 10 in total.
    let mut data = b"NVMBC".to_vec();
    data.extend_from_slice(&0u16.to_le_bytes());
    data.extend_from_slice(&1u16.to_le_bytes());
    data.push(0x00); // only one byte of the version's patch part

    let err = match run_loader(data) {
        Err(e) => e,
        Ok(_) => panic!("expected loader error"),
    };

    assert!(matches!(
        err.kind,
        LoaderErrorKind::FileIsNotInNVMBytecodeFormat { .. }
    ));
}

#[test]
fn current_version_parses_ok() {
    let result = run_loader(make_nb_with_version(0, 1, 0, &nop_bytes()));
    assert!(result.is_ok());
}

#[test]
fn older_version_works() {
    let result = run_loader(make_nb_with_version(0, 0, 0, &nop_bytes()));
    assert!(result.is_ok());
}

#[test]
fn older_patch_version_works() {
    let result = run_loader(make_nb_with_version(0, 0, 5, &nop_bytes()));
    assert!(result.is_ok());
}

#[test]
fn newer_major_version_fails() {
    let err = match run_loader(make_nb_with_version(1, 0, 0, &nop_bytes())) {
        Err(e) => e,
        Ok(_) => panic!("expected loader error"),
    };

    assert!(matches!(
        err.kind,
        LoaderErrorKind::UnsupportedVersion { .. }
    ));
}

#[test]
fn newer_minor_version_fails() {
    let err = match run_loader(make_nb_with_version(0, 2, 0, &nop_bytes())) {
        Err(e) => e,
        Ok(_) => panic!("expected loader error"),
    };

    assert!(matches!(
        err.kind,
        LoaderErrorKind::UnsupportedVersion { .. }
    ));
}

#[test]
fn newer_patch_version_fails() {
    let err = match run_loader(make_nb_with_version(0, 1, 3, &nop_bytes())) {
        Err(e) => e,
        Ok(_) => panic!("expected loader error"),
    };

    assert!(matches!(
        err.kind,
        LoaderErrorKind::UnsupportedVersion { .. }
    ));
}


#[test]
fn major_version_zero_with_high_minor_patch_works() {
    let result = run_loader(make_nb_with_version(0, 0, 0, &nop_bytes()));
    assert!(result.is_ok());
}

#[test]
fn version_string_format_is_correct() {
    let result = run_loader(make_nb_with_version(0, 0, 0, &[]));
    assert!(result.is_ok());
}

#[test]
fn version_with_large_numbers_in_file_fails() {
    // "99.99.99" > "0.1.0" as strings -> version error.
    let err = match run_loader(make_nb_with_version(99, 99, 99, &nop_bytes())) {
        Err(e) => e,
        Ok(_) => panic!("expected loader error"),
    };

    assert!(matches!(
        err.kind,
        LoaderErrorKind::UnsupportedVersion { .. }
    ));
}

#[test]
fn version_parsed_correctly_from_bytes() {
    let data = make_nb_with_version(0, 0, 0, &[]);
    // major = 0x00 0x00, minor = 0x00 0x00, patch = 0x00 0x00
    assert_eq!(&data[5..7], &[0x00, 0x00]);
    assert_eq!(&data[7..9], &[0x00, 0x00]);
    assert_eq!(&data[9..11], &[0x00, 0x00]);
}

#[test]
fn empty_instruction_stream_returns_empty_vec() {
    let instructions = run_loader(make_nb(&[])).expect("expected successful parse");
    assert!(instructions.is_empty());
}

#[test]
fn single_nop_instruction() {
    let instructions = run_loader(make_nb(&nop_bytes())).expect("expected successful parse");

    assert_eq!(instructions.len(), 1);
    assert!(matches!(instructions[0].opcode, OperationCode::NOP));
    assert_eq!(instructions[0].operand_count(), 0);
}

#[test]
fn single_exit_instruction() {
    let instructions = run_loader(make_nb(&exit_bytes())).expect("expected successful parse");

    assert_eq!(instructions.len(), 1);
    assert!(matches!(instructions[0].opcode, OperationCode::EXIT));
    assert_eq!(instructions[0].operand_count(), 0);
}

#[test]
fn move_with_two_registers() {
    let instructions = run_loader(make_nb(&move_reg_reg(0, 1))).expect("expected successful parse");

    assert_eq!(instructions.len(), 1);
    let instr = &instructions[0];
    assert!(matches!(instr.opcode, OperationCode::MOVE));

    let r0 = instr.operand1.unwrap().expect_register().unwrap();
    let r1 = instr.operand2.unwrap().expect_register().unwrap();
    assert_eq!(r0.0, 0);
    assert_eq!(r1.0, 1);
}

#[test]
fn move_with_register_and_immediate() {
    let instructions =
        run_loader(make_nb(&move_reg_imm(2, 42))).expect("expected successful parse");

    assert_eq!(instructions.len(), 1);
    let instr = &instructions[0];
    assert!(matches!(instr.opcode, OperationCode::MOVE));

    let dst = instr.operand1.unwrap().expect_register().unwrap();
    let val = instr.operand2.unwrap().expect_immediate().unwrap();
    assert_eq!(dst.0, 2);
    assert_eq!(val, 42);
}

#[test]
fn iadd_with_three_register_operands() {
    // IADD r0, r1, r2
    // opcode=11 (0x0B), operand_count=3
    // reg tag=0x00 + reg=0x00, reg tag=0x00 + reg=0x01, reg tag=0x00 + reg=0x02
    let bytes = vec![0x0B, 0x03, 0x00, 0x00, 0x00, 0x01, 0x00, 0x02];

    let instructions = run_loader(make_nb(&bytes)).expect("expected successful parse");

    assert_eq!(instructions.len(), 1);
    let instr = &instructions[0];
    assert!(matches!(instr.opcode, OperationCode::IADD));
    assert_eq!(instr.operand_count(), 3);

    assert_eq!(instr.operand1.unwrap().expect_register().unwrap().0, 0);
    assert_eq!(instr.operand2.unwrap().expect_register().unwrap().0, 1);
    assert_eq!(instr.operand3.unwrap().expect_register().unwrap().0, 2);
}

#[test]
fn iadd_with_mixed_operands() {
    // IADD r0, r1, 100
    // opcode=11, operand_count=3
    // reg 0x00, reg 0x01, imm 100
    let mut bytes = vec![0x0B, 0x03, 0x00, 0x00, 0x00, 0x01, 0x01];
    bytes.extend_from_slice(&100u64.to_le_bytes());

    let instructions = run_loader(make_nb(&bytes)).expect("expected successful parse");

    assert_eq!(instructions.len(), 1);
    let instr = &instructions[0];
    assert!(matches!(instr.opcode, OperationCode::IADD));

    assert_eq!(instr.operand1.unwrap().expect_register().unwrap().0, 0);
    assert_eq!(instr.operand2.unwrap().expect_register().unwrap().0, 1);
    assert_eq!(instr.operand3.unwrap().expect_immediate().unwrap(), 100);
}

#[test]
fn multiple_instructions_parsed_correctly() {
    // NOP, EXIT, MOVE r0, r1
    let mut bytes = vec![];
    bytes.extend_from_slice(&nop_bytes());
    bytes.extend_from_slice(&exit_bytes());
    bytes.extend_from_slice(&move_reg_reg(0, 1));

    let instructions = run_loader(make_nb(&bytes)).expect("expected successful parse");

    assert_eq!(instructions.len(), 3);

    assert!(matches!(instructions[0].opcode, OperationCode::NOP));
    assert!(matches!(instructions[1].opcode, OperationCode::EXIT));
    assert!(matches!(instructions[2].opcode, OperationCode::MOVE));
    assert_eq!(instructions[2].operand_count(), 2);
}

#[test]
fn ret_instruction() {
    // RET = opcode 52 (0x34), no operands
    let bytes = vec![0x34, 0x00];

    let instructions = run_loader(make_nb(&bytes)).expect("expected successful parse");

    assert_eq!(instructions.len(), 1);
    assert!(matches!(instructions[0].opcode, OperationCode::RET));
}

#[test]
fn jmp_with_immediate_offset() {
    // JMP 3 — opcode=48 (0x30), operand_count=1, imm=3
    let mut bytes = vec![0x30, 0x01, 0x01];
    bytes.extend_from_slice(&3u64.to_le_bytes());

    let instructions = run_loader(make_nb(&bytes)).expect("expected successful parse");

    assert_eq!(instructions.len(), 1);
    assert!(matches!(instructions[0].opcode, OperationCode::JMP));
    assert_eq!(
        instructions[0]
            .operand1
            .unwrap()
            .expect_immediate()
            .unwrap(),
        3
    );
}

#[test]
fn jmp_with_register_offset() {
    // JMP r5 — opcode=48, operand_count=1, reg tag=0x00 + reg=5
    let bytes = vec![0x30, 0x01, 0x00, 0x05];

    let instructions = run_loader(make_nb(&bytes)).expect("expected successful parse");

    assert_eq!(instructions.len(), 1);
    assert!(matches!(instructions[0].opcode, OperationCode::JMP));
    assert_eq!(
        instructions[0]
            .operand1
            .unwrap()
            .expect_register()
            .unwrap()
            .0,
        5
    );
}

#[test]
fn instruction_index_is_preserved_in_order() {
    let mut bytes = vec![];
    bytes.extend_from_slice(&nop_bytes()); // #0
    bytes.extend_from_slice(&exit_bytes()); // #1
    bytes.extend_from_slice(&nop_bytes()); // #2
    bytes.extend_from_slice(&exit_bytes()); // #3
    bytes.extend_from_slice(&nop_bytes()); // #4

    let instructions = run_loader(make_nb(&bytes)).expect("expected successful parse");

    assert_eq!(instructions.len(), 5);
    assert!(matches!(instructions[2].opcode, OperationCode::NOP));
    assert!(matches!(instructions[3].opcode, OperationCode::EXIT));
}

#[test]
fn large_immediate_value() {
    // MOVE r0, 0xDEAD_BEEF_CAFE_BABE
    let bytes = move_reg_imm(0, 0xDEAD_BEEF_CAFE_BABE);

    let instructions = run_loader(make_nb(&bytes)).expect("expected successful parse");
    assert_eq!(instructions.len(), 1);

    let val = instructions[0]
        .operand2
        .unwrap()
        .expect_immediate()
        .unwrap();
    assert_eq!(val, 0xDEAD_BEEF_CAFE_BABE);
}

#[test]
fn instruction_stream_ignores_trailing_data_until_next_opcode() {
    // One instruction right after another, with no gap.
    let mut bytes = vec![];
    bytes.extend_from_slice(&move_reg_imm(0, 7));
    bytes.extend_from_slice(&move_reg_imm(1, 8));

    let instructions = run_loader(make_nb(&bytes)).expect("expected successful parse");
    assert_eq!(instructions.len(), 2);

    assert_eq!(
        instructions[0]
            .operand1
            .unwrap()
            .expect_register()
            .unwrap()
            .0,
        0
    );
    assert_eq!(
        instructions[1]
            .operand1
            .unwrap()
            .expect_register()
            .unwrap()
            .0,
        1
    );
}

#[test]
fn file_under_11_bytes_returns_format_error() {
    for size in 0..=10 {
        let data = vec![0u8; size];
        let err = match run_loader(data) {
            Err(e) => e,
            Ok(_) => panic!("expected loader error for size {size}"),
        };

        assert!(
            matches!(
                err.kind,
                LoaderErrorKind::FileIsNotInNVMBytecodeFormat { .. }
            ),
            "size {size}: expected FileIsNotInNVMBytecodeFormat, got {:?}",
            err.kind,
        );
    }
}

#[test]
fn unknown_opcode_returns_error() {
    // RET = 52 (0x34). Any opcode > 52 is unknown.
    let bytes = vec![53, 0x00]; // opcode 53 > RET

    let err = match run_loader(make_nb(&bytes)) {
        Err(e) => e,
        Ok(_) => panic!("expected loader error"),
    };

    assert!(matches!(
        err.kind,
        LoaderErrorKind::UnknownOpcode { byte: 53 }
    ));
}

#[test]
fn opcode_255_returns_unknown_opcode() {
    let bytes = vec![0xFF, 0x00];

    let err = match run_loader(make_nb(&bytes)) {
        Err(e) => e,
        Ok(_) => panic!("expected loader error"),
    };

    assert!(matches!(
        err.kind,
        LoaderErrorKind::UnknownOpcode { byte: 0xFF }
    ));
}

#[test]
fn unknown_operand_tag_returns_error() {
    // MOVE with operand tag 0xFF instead of 0x00 or 0x01.
    let bytes = vec![0x02, 0x01, 0xFF, 0x00];

    let err = match run_loader(make_nb(&bytes)) {
        Err(e) => e,
        Ok(_) => panic!("expected loader error"),
    };

    assert!(matches!(
        err.kind,
        LoaderErrorKind::UnknownOperandTag { byte: 0xFF }
    ));
}

#[test]
fn operand_tag_0x02_returns_error() {
    let bytes = vec![0x02, 0x01, 0x02, 0x00];

    let err = match run_loader(make_nb(&bytes)) {
        Err(e) => e,
        Ok(_) => panic!("expected loader error"),
    };

    assert!(matches!(
        err.kind,
        LoaderErrorKind::UnknownOperandTag { byte: 0x02 }
    ));
}

#[test]
fn truncated_instruction_header_returns_unexpected_eof() {
    // There is only an opcode, no operand_count.
    let bytes = vec![0x02];

    let err = match run_loader(make_nb(&bytes)) {
        Err(e) => e,
        Ok(_) => panic!("expected loader error"),
    };

    assert!(matches!(
        err.kind,
        LoaderErrorKind::UnexpectedEndOfFile { .. }
    ));
}

#[test]
fn truncated_register_operand_returns_unexpected_eof() {
    // MOVE r0, ? — there is a tag 0x00, but no register byte.
    let bytes = vec![0x02, 0x02, 0x00, 0x00, 0x00];

    let err = match run_loader(make_nb(&bytes)) {
        Err(e) => e,
        Ok(_) => panic!("expected loader error"),
    };

    assert!(matches!(
        err.kind,
        LoaderErrorKind::UnexpectedEndOfFile { .. }
    ));
}

#[test]
fn truncated_immediate_operand_returns_unexpected_eof() {
    // MOVE r0, imm — there is a tag 0x01, but only 3 bytes instead of 8.
    let bytes = vec![0x02, 0x02, 0x00, 0x00, 0x01, 0xAA, 0xBB, 0xCC];

    let err = match run_loader(make_nb(&bytes)) {
        Err(e) => e,
        Ok(_) => panic!("expected loader error"),
    };

    assert!(matches!(
        err.kind,
        LoaderErrorKind::UnexpectedEndOfFile { .. }
    ));
}

#[test]
fn truncated_after_opcode_with_operand_count_only() {
    // There is an opcode and operand_count = 2, but not a single operand.
    let bytes = vec![0x02, 0x02];

    let err = match run_loader(make_nb(&bytes)) {
        Err(e) => e,
        Ok(_) => panic!("expected loader error"),
    };

    assert!(matches!(
        err.kind,
        LoaderErrorKind::UnexpectedEndOfFile { .. }
    ));
}

#[test]
fn operand_count_4_returns_unknown_opcode() {
    // operand_count > 3 is treated as an unknown opcode.
    let bytes = vec![0x00, 0x04];

    let err = match run_loader(make_nb(&bytes)) {
        Err(e) => e,
        Ok(_) => panic!("expected loader error"),
    };

    assert!(matches!(err.kind, LoaderErrorKind::UnknownOpcode { .. }));
}

#[test]
fn operand_count_255_returns_unknown_opcode() {
    let bytes = vec![0x02, 0xFF];

    let err = match run_loader(make_nb(&bytes)) {
        Err(e) => e,
        Ok(_) => panic!("expected loader error"),
    };

    assert!(matches!(err.kind, LoaderErrorKind::UnknownOpcode { .. }));
}

#[test]
fn negative_error_reason_contains_description() {
    let err = match run_loader(vec![0, 1, 2, 3, 4, 5, 6, 7, 8, 9]) {
        Err(e) => e,
        Ok(_) => panic!("expected loader error"),
    };

    let msg = err.to_string();
    assert!(msg.contains("not in NVM Bytecode format"));
}

#[test]
fn truncated_file_with_only_magic() {
    // 5 magic + 4 bytes of version (9 in total).
    let mut data = b"NVMBC".to_vec();
    data.extend_from_slice(&[0x00, 0x00, 0x00, 0x00]);

    let err = match run_loader(data) {
        Err(e) => e,
        Ok(_) => panic!("expected loader error"),
    };

    assert!(matches!(
        err.kind,
        LoaderErrorKind::FileIsNotInNVMBytecodeFormat { .. }
    ));
}

#[test]
fn empty_instruction_with_operand_count_1_and_no_data() {
    // opcode=0x00 (NOP), operand_count=1, but not a single operand byte.
    let bytes = vec![0x00, 0x01];

    let err = match run_loader(make_nb(&bytes)) {
        Err(e) => e,
        Ok(_) => panic!("expected loader error"),
    };

    assert!(matches!(
        err.kind,
        LoaderErrorKind::UnexpectedEndOfFile { .. }
    ));
}

#[test]
fn exactly_11_bytes_no_instructions() {
    let data = make_nb(&[]);
    assert_eq!(data.len(), 11);

    let instructions = run_loader(data).expect("expected successful parse");
    assert!(instructions.is_empty());
}

#[test]
fn only_instruction_without_padding() {
    let data = make_nb(&nop_bytes());
    assert_eq!(data.len(), 11 + 2);

    let instructions = run_loader(data).expect("expected successful parse");
    assert_eq!(instructions.len(), 1);
}

#[test]
fn three_zero_operand_instructions() {
    let mut bytes = vec![];
    bytes.extend_from_slice(&nop_bytes());
    bytes.extend_from_slice(&nop_bytes());
    bytes.extend_from_slice(&nop_bytes());

    let instructions = run_loader(make_nb(&bytes)).expect("expected successful parse");
    assert_eq!(instructions.len(), 3);
}

#[test]
fn nop_followed_by_exit() {
    let mut bytes = vec![];
    bytes.extend_from_slice(&nop_bytes());
    bytes.extend_from_slice(&exit_bytes());

    let instructions = run_loader(make_nb(&bytes)).expect("expected successful parse");
    assert_eq!(instructions.len(), 2);

    assert!(matches!(instructions[0].opcode, OperationCode::NOP));
    assert!(matches!(instructions[1].opcode, OperationCode::EXIT));
}

#[test]
fn three_register_operands_maximum() {
    // IADD r0, r1, r2 — three register operands.
    let bytes = vec![0x0B, 0x03, 0x00, 0x00, 0x00, 0x01, 0x00, 0x02];

    let instructions = run_loader(make_nb(&bytes)).expect("expected successful parse");
    assert_eq!(instructions.len(), 1);
    assert_eq!(instructions[0].operand_count(), 3);
}

#[test]
fn three_immediate_operands_maximum() {
    // An instruction with three immediates; IADD is used
    // IADD imm0, imm1, imm2 — the bytecode level allows it.
    let mut bytes = vec![0x0B, 0x03];
    // imm0 = 1
    bytes.push(0x01);
    bytes.extend_from_slice(&1u64.to_le_bytes());
    // imm1 = 2
    bytes.push(0x01);
    bytes.extend_from_slice(&2u64.to_le_bytes());
    // imm2 = 3
    bytes.push(0x01);
    bytes.extend_from_slice(&3u64.to_le_bytes());

    let instructions = run_loader(make_nb(&bytes)).expect("expected successful parse");
    assert_eq!(instructions.len(), 1);

    assert_eq!(
        instructions[0]
            .operand1
            .unwrap()
            .expect_immediate()
            .unwrap(),
        1
    );
    assert_eq!(
        instructions[0]
            .operand2
            .unwrap()
            .expect_immediate()
            .unwrap(),
        2
    );
    assert_eq!(
        instructions[0]
            .operand3
            .unwrap()
            .expect_immediate()
            .unwrap(),
        3
    );
}

#[test]
fn immediate_max_u64_value() {
    // MOVE r0, u64::MAX
    let bytes = move_reg_imm(0, u64::MAX);

    let instructions = run_loader(make_nb(&bytes)).expect("expected successful parse");
    let val = instructions[0]
        .operand2
        .unwrap()
        .expect_immediate()
        .unwrap();
    assert_eq!(val, u64::MAX);
}

#[test]
fn immediate_zero_value() {
    let bytes = move_reg_imm(0, 0);

    let instructions = run_loader(make_nb(&bytes)).expect("expected successful parse");
    let val = instructions[0]
        .operand2
        .unwrap()
        .expect_immediate()
        .unwrap();
    assert_eq!(val, 0);
}

#[test]
fn register_number_zero() {
    let bytes = move_reg_reg(0, 0);

    let instructions = run_loader(make_nb(&bytes)).expect("expected successful parse");
    let dst = instructions[0].operand1.unwrap().expect_register().unwrap();
    let src = instructions[0].operand2.unwrap().expect_register().unwrap();
    assert_eq!(dst.0, 0);
    assert_eq!(src.0, 0);
}

#[test]
fn register_number_255() {
    let bytes = move_reg_reg(255, 254);

    let instructions = run_loader(make_nb(&bytes)).expect("expected successful parse");
    let dst = instructions[0].operand1.unwrap().expect_register().unwrap();
    let src = instructions[0].operand2.unwrap().expect_register().unwrap();
    assert_eq!(dst.0, 255);
    assert_eq!(src.0, 254);
}

#[test]
fn all_valid_opcodes_up_to_ret() {
    // Every opcode from 0 to 52 parses without error.
    for opcode in 0..=52u8 {
        let bytes = vec![opcode, 0x00]; // no operands
        let result = run_loader(make_nb(&bytes));
        assert!(result.is_ok(), "opcode {opcode} should be valid");
    }
}

#[test]
fn first_opcode_after_ret_fails() {
    // opcode 53 is the first invalid one.
    let bytes = vec![53, 0x00];
    let result = run_loader(make_nb(&bytes));
    assert!(result.is_err());
}

#[test]
fn instruction_at_max_file_size_without_truncation() {
    // 256 NOP instructions (512 bytes).
    let mut bytes = vec![];
    for _ in 0..256 {
        bytes.extend_from_slice(&nop_bytes());
    }

    let instructions = run_loader(make_nb(&bytes)).expect("expected successful parse");
    assert_eq!(instructions.len(), 256);
}

#[test]
fn single_byte_operand_tag_missing_body() {
    // MOVE with an incomplete register: the tag 0x00 is there, the register byte is not.
    let bytes = vec![0x02, 0x01, 0x00];

    let err = match run_loader(make_nb(&bytes)) {
        Err(e) => e,
        Ok(_) => panic!("expected loader error"),
    };

    assert!(matches!(
        err.kind,
        LoaderErrorKind::UnexpectedEndOfFile { .. }
    ));
}

#[test]
fn mixed_register_and_immediate_operands() {
    // STORE8 r0, imm(255) — two operands: a register and an immediate.
    let mut bytes = vec![0x07, 0x02, 0x00, 0x05, 0x01];
    bytes.extend_from_slice(&255u64.to_le_bytes());

    let instructions = run_loader(make_nb(&bytes)).expect("expected successful parse");
    assert_eq!(instructions.len(), 1);
    assert!(matches!(instructions[0].opcode, OperationCode::STORE8));

    assert_eq!(
        instructions[0]
            .operand1
            .unwrap()
            .expect_register()
            .unwrap()
            .0,
        5
    );
    assert_eq!(
        instructions[0]
            .operand2
            .unwrap()
            .expect_immediate()
            .unwrap(),
        255
    );
}

#[test]
fn call_with_immediate_offset() {
    // CALL 10 — opcode=51 (0x33), operand_count=1, imm=10
    let mut bytes = vec![0x33, 0x01, 0x01];
    bytes.extend_from_slice(&10u64.to_le_bytes());

    let instructions = run_loader(make_nb(&bytes)).expect("expected successful parse");
    assert_eq!(instructions.len(), 1);
    assert!(matches!(instructions[0].opcode, OperationCode::CALL));
    assert_eq!(
        instructions[0]
            .operand1
            .unwrap()
            .expect_immediate()
            .unwrap(),
        10
    );
}

#[test]
fn not_instruction_with_register() {
    // NOT r7 — opcode=28 (0x1C), operand_count=1, reg=7
    let bytes = vec![0x1C, 0x01, 0x00, 0x07];

    let instructions = run_loader(make_nb(&bytes)).expect("expected successful parse");
    assert_eq!(instructions.len(), 1);
    assert!(matches!(instructions[0].opcode, OperationCode::NOT));
    assert_eq!(
        instructions[0]
            .operand1
            .unwrap()
            .expect_register()
            .unwrap()
            .0,
        7
    );
}
