use brawllib::wiird::{
    decode_op, wiird_codes, AddAddress, GeckoOperation, IfTest, JumpFlag, OpStep, WiiRDCode,
};

#[test]
fn write32_single_code() {
    // 04 row followed by an end-of-program row
    let data = [
        0x04, 0x00, 0x01, 0x00, 0xAA, 0xBB, 0xCC, 0xDD, 0xF0, 0x00, 0x00, 0x00, 0x00, 0x00, 0x00,
        0x00,
    ];
    let block = wiird_codes(&data);
    assert_eq!(block.codes.len(), 1);
    assert_eq!(
        block.codes[0],
        WiiRDCode::WriteAndFill32 {
            use_base_address: true,
            address: 0x0000_0100,
            value: 0xAABB_CCDD,
        }
    );
}

#[test]
fn masked_if_with_endif() {
    let data = [
        0x28, 0x00, 0x00, 0x10, 0x00, 0xFF, 0x00, 0x0A, // if (masked equal)
        0x04, 0x00, 0x01, 0x00, 0x00, 0x00, 0x00, 0x01, // write32 value 1
        0xE0, 0x00, 0x00, 0x00, 0x00, 0x00, 0x00, 0x00, // endif (infinite)
        0xF0, 0x00, 0x00, 0x00, 0x00, 0x00, 0x00, 0x00, // end of program
    ];
    let block = wiird_codes(&data);
    assert_eq!(block.codes.len(), 2);
    match &block.codes[0] {
        WiiRDCode::IfStatement {
            test,
            then_branch,
            else_branch,
            insert_endif,
            reset_base_address_high,
            reset_pointer_address_high,
        } => {
            assert_eq!(
                *test,
                IfTest::IsEqualMask {
                    use_base_address: true,
                    address: 0x10,
                    lhs_mask: 0x00FF,
                    rhs_value: 0x000A,
                }
            );
            assert_eq!(then_branch.codes.len(), 1);
            assert_eq!(
                then_branch.codes[0],
                WiiRDCode::WriteAndFill32 {
                    use_base_address: true,
                    address: 0x0000_0100,
                    value: 1,
                }
            );
            assert!(else_branch.is_none());
            assert!(!insert_endif);
            assert_eq!(*reset_base_address_high, 0);
            assert_eq!(*reset_pointer_address_high, 0);
        }
        other => panic!("expected an IfStatement, got {:?}", other),
    }
    assert_eq!(
        block.codes[1],
        WiiRDCode::ResetAddressHigh {
            reset_base_address_high: 0,
            reset_pointer_address_high: 0,
        }
    );
}

#[test]
fn string_write_pads_to_eight() {
    let data = [
        0x06, 0x00, 0x00, 0x00, 0x00, 0x00, 0x00, 0x03, // string write, 3 bytes
        0x41, 0x42, 0x43, 0x00, 0x00, 0x00, 0x00, 0x00, // payload "ABC" padded
        0xF0, 0x00, 0x00, 0x00, 0x00, 0x00, 0x00, 0x00, // end of program at offset 16
    ];
    // the opcode itself covers 16 bytes: 8-byte header + padded payload
    match decode_op(&data, 0) {
        Some((OpStep::Code(WiiRDCode::StringWrite { use_base_address, address, values }), len)) => {
            assert!(use_base_address);
            assert_eq!(address, 0);
            assert_eq!(values, vec![0x41, 0x42, 0x43]);
            assert_eq!(len, 16);
        }
        other => panic!("expected a StringWrite, got {:?}", other),
    }
    let block = wiird_codes(&data);
    assert_eq!(block.codes.len(), 1);
    assert_eq!(
        block.codes[0],
        WiiRDCode::StringWrite {
            use_base_address: true,
            address: 0,
            values: vec![0x41, 0x42, 0x43],
        }
    );
}

#[test]
fn serial_write_fields() {
    let data = [
        0x08, 0x12, 0x34, 0x56, 0x00, 0x00, 0x00, 0x07, // first row
        0x02, 0x05, 0x00, 0x10, 0x00, 0x00, 0x00, 0x03, // second row
    ];
    let block = wiird_codes(&data);
    assert_eq!(block.codes.len(), 1);
    assert_eq!(
        block.codes[0],
        WiiRDCode::SerialWrite {
            use_base_address: true,
            address: 0x0012_3456,
            initial_value: 7,
            value_size: 0x02,
            count: 0x0205 + 1,
            address_increment: 0x0010,
            value_increment: 3,
        }
    );
}

#[test]
fn empty_input_gives_empty_block() {
    let block = wiird_codes(&[]);
    assert!(block.codes.is_empty());
}

#[test]
fn truncated_row_gives_empty_block() {
    let block = wiird_codes(&[0x04, 0x00, 0x01]);
    assert!(block.codes.is_empty());
}

#[test]
fn unknown_discriminant_keeps_partial_block() {
    let data = [
        0x04, 0x00, 0x01, 0x00, 0x00, 0x00, 0x00, 0x05, // good write32
        0x0A, 0x00, 0x00, 0x00, 0x00, 0x00, 0x00, 0x00, // unknown opcode 0x0A
        0x04, 0x00, 0x01, 0x00, 0x00, 0x00, 0x00, 0x06, // never reached
    ];
    let block = wiird_codes(&data);
    assert_eq!(block.codes.len(), 1);
    assert_eq!(
        block.codes[0],
        WiiRDCode::WriteAndFill32 { use_base_address: true, address: 0x100, value: 5 }
    );
}

#[test]
fn string_write_payload_past_end_keeps_partial_block() {
    // claims 0x100 payload bytes but only 8 follow
    let data = [
        0x04, 0x00, 0x01, 0x00, 0x00, 0x00, 0x00, 0x09, //
        0x06, 0x00, 0x00, 0x00, 0x00, 0x00, 0x01, 0x00, //
        0x41, 0x42, 0x43, 0x44, 0x45, 0x46, 0x47, 0x48,
    ];
    let block = wiird_codes(&data);
    assert_eq!(block.codes.len(), 1);
}

#[test]
fn unterminated_if_aborts_block() {
    let data = [
        0x04, 0x00, 0x01, 0x00, 0x00, 0x00, 0x00, 0x02, // write32 before the if
        0x20, 0x00, 0x00, 0x10, 0x00, 0x00, 0x00, 0x01, // if equal, never terminated
        0x04, 0x00, 0x01, 0x00, 0x00, 0x00, 0x00, 0x03, // body
    ];
    let block = wiird_codes(&data);
    // the unterminated conditional is dropped; what came before stays
    assert_eq!(block.codes.len(), 1);
    assert_eq!(
        block.codes[0],
        WiiRDCode::WriteAndFill32 { use_base_address: true, address: 0x100, value: 2 }
    );
}

#[test]
fn if_address_low_bit_cleared_and_recorded() {
    // address 0x11 has its low bit set: the emitted test holds 0x10 and
    // the node records the endif request
    let data = [
        0x20, 0x00, 0x00, 0x11, 0x00, 0x00, 0x00, 0x01, //
        0xE0, 0x00, 0x00, 0x00, 0x00, 0x00, 0x00, 0x00,
    ];
    let block = wiird_codes(&data);
    match &block.codes[0] {
        WiiRDCode::IfStatement { test, insert_endif, .. } => {
            assert_eq!(
                *test,
                IfTest::IsEqual { use_base_address: true, address: 0x10, value: 1 }
            );
            assert!(*insert_endif);
        }
        other => panic!("expected an IfStatement, got {:?}", other),
    }
}

#[test]
fn nested_if_multi_pop() {
    // two nested ifs closed by one E2 with count 2
    let data = [
        0x20, 0x00, 0x00, 0x10, 0x00, 0x00, 0x00, 0x01, // outer if
        0x22, 0x00, 0x00, 0x20, 0x00, 0x00, 0x00, 0x02, // inner if
        0x04, 0x00, 0x01, 0x00, 0x00, 0x00, 0x00, 0x07, // body
        0xE2, 0x00, 0x00, 0x02, 0x00, 0x00, 0x00, 0x00, // endif popping 2 levels
        0x04, 0x00, 0x01, 0x00, 0x00, 0x00, 0x00, 0x08, // after both ifs
    ];
    let block = wiird_codes(&data);
    assert_eq!(block.codes.len(), 3);
    match &block.codes[0] {
        WiiRDCode::IfStatement { test, then_branch, .. } => {
            assert_eq!(
                *test,
                IfTest::IsEqual { use_base_address: true, address: 0x10, value: 1 }
            );
            // the inner if sits in the outer then-branch
            assert_eq!(then_branch.codes.len(), 1);
            match &then_branch.codes[0] {
                WiiRDCode::IfStatement { test, then_branch, .. } => {
                    assert_eq!(
                        *test,
                        IfTest::IsNotEqual { use_base_address: true, address: 0x20, value: 2 }
                    );
                    assert_eq!(then_branch.codes.len(), 1);
                }
                other => panic!("expected the inner IfStatement, got {:?}", other),
            }
        }
        other => panic!("expected the outer IfStatement, got {:?}", other),
    }
    assert_eq!(
        block.codes[2],
        WiiRDCode::WriteAndFill32 { use_base_address: true, address: 0x100, value: 8 }
    );
}

#[test]
fn goto_always_forward_is_elided() {
    let data = [
        0x66, 0x20, 0x00, 0x01, 0x00, 0x00, 0x00, 0x00, // goto always, one line
        0xDE, 0xAD, 0xBE, 0xEF, 0xDE, 0xAD, 0xBE, 0xEF, // skipped data line
        0x04, 0x00, 0x01, 0x00, 0x00, 0x00, 0x00, 0x04, // decoded afterwards
    ];
    let block = wiird_codes(&data);
    assert_eq!(block.codes.len(), 1);
    assert_eq!(
        block.codes[0],
        WiiRDCode::WriteAndFill32 { use_base_address: true, address: 0x100, value: 4 }
    );
}

#[test]
fn goto_conditional_is_emitted() {
    let data = [0x66, 0x10, 0x00, 0x02, 0x00, 0x00, 0x00, 0x00];
    let block = wiird_codes(&data);
    assert_eq!(
        block.codes[0],
        WiiRDCode::Goto { flag: JumpFlag::WhenFalse, offset_lines: 2 }
    );
}

#[test]
fn goto_always_backward_is_emitted() {
    let data = [0x66, 0x20, 0xFF, 0xFE, 0x00, 0x00, 0x00, 0x00];
    let block = wiird_codes(&data);
    assert_eq!(
        block.codes[0],
        WiiRDCode::Goto { flag: JumpFlag::Always, offset_lines: -2 }
    );
}

#[test]
fn unknown_jump_flag_keeps_partial_block() {
    let data = [
        0x04, 0x00, 0x01, 0x00, 0x00, 0x00, 0x00, 0x01, //
        0x66, 0x30, 0x00, 0x02, 0x00, 0x00, 0x00, 0x00, // flag byte 0x30 is unknown
    ];
    let block = wiird_codes(&data);
    assert_eq!(block.codes.len(), 1);
}

#[test]
fn subroutine_fields() {
    let data = [0x68, 0x00, 0x00, 0x03, 0x00, 0x00, 0x00, 0x2B];
    let block = wiird_codes(&data);
    assert_eq!(
        block.codes[0],
        WiiRDCode::Subroutine { flag: JumpFlag::WhenTrue, offset_lines: 3, block_id: 0x0B }
    );
}

#[test]
fn set_base_address_to_code_location_negative_offset() {
    let data = [0x46, 0x00, 0xFF, 0xFF, 0x00, 0x00, 0x00, 0x00];
    let block = wiird_codes(&data);
    assert_eq!(
        block.codes[0],
        WiiRDCode::SetBaseAddressToCodeLocation { address_offset: -1 }
    );
}

#[test]
fn memory_copy_register_sentinel() {
    // dest nibble 0xF encodes "no register"
    let data = [0x8A, 0x00, 0x10, 0x2F, 0x00, 0x00, 0x00, 0x40];
    let block = wiird_codes(&data);
    assert_eq!(
        block.codes[0],
        WiiRDCode::MemoryCopy1 {
            use_base_address: true,
            count: 0x0010,
            source_register: 0x20,
            dest_register: None,
            dest_offset: 0x40,
        }
    );
}

#[test]
fn gecko_register_operation_nibble() {
    // the high nibble of the second byte selects the operation:
    // 1 is multiply, 12 is unknown
    let data = [
        0x86, 0x10, 0x00, 0x03, 0x00, 0x00, 0x00, 0x09, //
        0x86, 0xC0, 0x00, 0x04, 0x00, 0x00, 0x00, 0x0A,
    ];
    let block = wiird_codes(&data);
    assert_eq!(
        block.codes[0],
        WiiRDCode::OperationGeckoRegisterDirectValue {
            operation: GeckoOperation::Mul,
            load_register: false,
            load_value: false,
            register: 3,
            value: 9,
        }
    );
    assert_eq!(
        block.codes[1],
        WiiRDCode::OperationGeckoRegisterDirectValue {
            operation: GeckoOperation::Unknown(12),
            load_register: false,
            load_value: false,
            register: 4,
            value: 10,
        }
    );
}

#[test]
fn gecko_operation_table() {
    assert_eq!(GeckoOperation::new(0), GeckoOperation::Add);
    assert_eq!(GeckoOperation::new(1), GeckoOperation::Mul);
    assert_eq!(GeckoOperation::new(2), GeckoOperation::Or);
    assert_eq!(GeckoOperation::new(3), GeckoOperation::And);
    assert_eq!(GeckoOperation::new(4), GeckoOperation::Xor);
    assert_eq!(GeckoOperation::new(5), GeckoOperation::ShiftLeft);
    assert_eq!(GeckoOperation::new(6), GeckoOperation::ShiftRight);
    assert_eq!(GeckoOperation::new(7), GeckoOperation::RotateLeft);
    assert_eq!(GeckoOperation::new(8), GeckoOperation::ArithmeticShiftRight);
    assert_eq!(GeckoOperation::new(9), GeckoOperation::Unknown(9));
    assert_eq!(GeckoOperation::new(10), GeckoOperation::FloatAdd);
    assert_eq!(GeckoOperation::new(11), GeckoOperation::FloatMul);
    assert_eq!(GeckoOperation::new(12), GeckoOperation::Unknown(12));
}

#[test]
fn execute_ppc_payload() {
    let data = [
        0xC0, 0x00, 0x00, 0x00, 0x00, 0x00, 0x00, 0x01, //
        0x60, 0x00, 0x00, 0x00, 0x4E, 0x80, 0x00, 0x20,
    ];
    let block = wiird_codes(&data);
    assert_eq!(
        block.codes[0],
        WiiRDCode::ExecutePPC {
            instruction_data: vec![0x60, 0x00, 0x00, 0x00, 0x4E, 0x80, 0x00, 0x20],
        }
    );
}

#[test]
fn else_row_emitted_inside_then_branch() {
    let data = [
        0x20, 0x00, 0x00, 0x10, 0x00, 0x00, 0x00, 0x01, // if
        0xE2, 0x10, 0x00, 0x00, 0x00, 0x00, 0x00, 0x00, // E2 with else bit, count 0
        0xE0, 0x00, 0x00, 0x00, 0x00, 0x00, 0x00, 0x00, // endif
    ];
    let block = wiird_codes(&data);
    match &block.codes[0] {
        WiiRDCode::IfStatement { then_branch, else_branch, .. } => {
            assert!(else_branch.is_none());
            assert_eq!(
                then_branch.codes[0],
                WiiRDCode::Else {
                    endif_count: 0,
                    reset_base_address_high: 0,
                    reset_pointer_address_high: 0,
                }
            );
        }
        other => panic!("expected an IfStatement, got {:?}", other),
    }
}

#[test]
fn base_address_family() {
    let data = [
        0x40, 0x11, 0x10, 0x03, 0x80, 0x00, 0x00, 0x04, // load base address
        0x42, 0x00, 0x00, 0x00, 0x80, 0x00, 0x00, 0x08, // set base address
        0x44, 0x01, 0x00, 0x05, 0x80, 0x00, 0x00, 0x0C, // store base address
        0x46, 0x00, 0x00, 0x10, 0x00, 0x00, 0x00, 0x00, // set to code location
    ];
    let block = wiird_codes(&data);
    assert_eq!(
        block.codes[0],
        WiiRDCode::LoadBaseAddress {
            add_result: true,
            add_mem_address: AddAddress::BaseAddress,
            add_mem_address_gecko_register: Some(3),
            mem_address: 0x8000_0004,
        }
    );
    assert_eq!(
        block.codes[1],
        WiiRDCode::SetBaseAddress {
            add_result: false,
            add: AddAddress::NoAddress,
            add_gecko_register: None,
            value: 0x8000_0008,
        }
    );
    assert_eq!(
        block.codes[2],
        WiiRDCode::StoreBaseAddress {
            add_mem_address: AddAddress::BaseAddress,
            add_mem_address_gecko_register: None,
            mem_address: 0x8000_000C,
        }
    );
    assert_eq!(
        block.codes[3],
        WiiRDCode::SetBaseAddressToCodeLocation { address_offset: 0x10 }
    );
}

#[test]
fn pointer_address_family() {
    let data = [
        0x58, 0x01, 0x00, 0x00, 0x80, 0x00, 0x00, 0x04, // load pointer address
        0x5A, 0x11, 0x10, 0x07, 0x80, 0x00, 0x00, 0x08, // set pointer address
        0x5C, 0x00, 0x00, 0x00, 0x80, 0x00, 0x00, 0x0C, // store pointer address
        0x5E, 0x00, 0xFF, 0xF0, 0x00, 0x00, 0x00, 0x00, // set to code location
    ];
    let block = wiird_codes(&data);
    // bit 4 of the first byte is set on each row: pointer-address variants
    assert_eq!(
        block.codes[0],
        WiiRDCode::LoadPointerAddress {
            add_result: false,
            add_mem_address: AddAddress::PointerAddress,
            add_mem_address_gecko_register: None,
            mem_address: 0x8000_0004,
        }
    );
    assert_eq!(
        block.codes[1],
        WiiRDCode::SetPointerAddress {
            add_result: true,
            add: AddAddress::PointerAddress,
            add_gecko_register: Some(7),
            value: 0x8000_0008,
        }
    );
    assert_eq!(
        block.codes[2],
        WiiRDCode::StorePointerAddress {
            add_mem_address: AddAddress::NoAddress,
            add_mem_address_gecko_register: None,
            mem_address: 0x8000_000C,
        }
    );
    assert_eq!(
        block.codes[3],
        WiiRDCode::SetPointerAddressToCodeLocation { address_offset: -0x10 }
    );
}

#[test]
fn repeat_and_return_family() {
    let data = [
        0x60, 0x00, 0x00, 0x05, 0x00, 0x00, 0x00, 0xAB, // set repeat
        0x62, 0x00, 0x00, 0x00, 0x00, 0x00, 0x00, 0xAB, // execute repeat
        0x64, 0x10, 0x00, 0x00, 0x00, 0x00, 0x00, 0xAB, // return when false
    ];
    let block = wiird_codes(&data);
    // set-repeat stores the block byte unmasked; the others keep a nibble
    assert_eq!(block.codes[0], WiiRDCode::SetRepeat { count: 5, block_id: 0xAB });
    assert_eq!(block.codes[1], WiiRDCode::ExecuteRepeat { block_id: 0x0B });
    assert_eq!(
        block.codes[2],
        WiiRDCode::Return { flag: JumpFlag::WhenFalse, block_id: 0x0B }
    );
}

#[test]
fn gecko_register_family() {
    let data = [
        0x80, 0x01, 0x00, 0x02, 0x00, 0x00, 0x00, 0x11, // set register
        0x82, 0x00, 0x00, 0x03, 0x80, 0x00, 0x00, 0x22, // load register
        0x84, 0x00, 0x00, 0x04, 0x80, 0x00, 0x00, 0x33, // store register
        0x88, 0x43, 0x00, 0x05, 0x00, 0x00, 0x00, 0x06, // xor of two registers
    ];
    let block = wiird_codes(&data);
    assert_eq!(
        block.codes[0],
        WiiRDCode::SetGeckoRegister {
            add_result: false,
            add: AddAddress::BaseAddress,
            register: 2,
            value: 0x11,
        }
    );
    assert_eq!(
        block.codes[1],
        WiiRDCode::LoadGeckoRegister { register: 3, mem_address: 0x8000_0022 }
    );
    assert_eq!(
        block.codes[2],
        WiiRDCode::StoreGeckoRegister { register: 4, mem_address: 0x8000_0033 }
    );
    assert_eq!(
        block.codes[3],
        WiiRDCode::OperationGeckoRegister {
            operation: GeckoOperation::Xor,
            load_register1: true,
            load_register2: true,
            register1: 5,
            register2: 6,
        }
    );
}

#[test]
fn memory_copy_2_source_register_sentinel() {
    // a source nibble of 0xF encodes "no register"
    let data = [
        0x8C, 0x00, 0x08, 0xF2, 0x00, 0x00, 0x00, 0x40, //
        0x8C, 0x00, 0x08, 0x22, 0x00, 0x00, 0x00, 0x48,
    ];
    let block = wiird_codes(&data);
    assert_eq!(
        block.codes[0],
        WiiRDCode::MemoryCopy2 {
            use_base_address: true,
            count: 0x0008,
            source_register: None,
            dest_register: 2,
            source_offset: 0x40,
        }
    );
    assert_eq!(
        block.codes[1],
        WiiRDCode::MemoryCopy2 {
            use_base_address: true,
            count: 0x0008,
            source_register: Some(0x20),
            dest_register: 2,
            source_offset: 0x48,
        }
    );
}

#[test]
fn insert_ppc_fields() {
    let data = [
        0xC2, 0x00, 0x01, 0x00, 0x00, 0x00, 0x00, 0x01, //
        0x60, 0x00, 0x00, 0x00, 0x60, 0x00, 0x00, 0x00,
    ];
    let block = wiird_codes(&data);
    assert_eq!(
        block.codes[0],
        WiiRDCode::InsertPPC {
            use_base_address: true,
            address: 0x0000_0100,
            instruction_data: vec![0x60, 0, 0, 0, 0x60, 0, 0, 0],
        }
    );
}

#[test]
fn top_level_terminators_emit_reset() {
    let data = [
        0xE0, 0x00, 0x00, 0x00, 0x12, 0x34, 0x56, 0x78, // E0 at top level
        0xE2, 0x00, 0x00, 0x03, 0x00, 0x01, 0x00, 0x02, // E2 at top level
    ];
    let block = wiird_codes(&data);
    assert_eq!(
        block.codes[0],
        WiiRDCode::ResetAddressHigh {
            reset_base_address_high: 0x1234,
            reset_pointer_address_high: 0x5678,
        }
    );
    assert_eq!(
        block.codes[1],
        WiiRDCode::ResetAddressHigh {
            reset_base_address_high: 0x0001,
            reset_pointer_address_high: 0x0002,
        }
    );
}

#[test]
fn write_and_fill_8_and_16_lengths() {
    let data = [
        0x00, 0x00, 0x01, 0x00, 0x00, 0x03, 0x00, 0x7F, // fill bytes
        0x02, 0x00, 0x02, 0x00, 0x00, 0x04, 0xBE, 0xEF, // fill halfwords
    ];
    let block = wiird_codes(&data);
    assert_eq!(
        block.codes[0],
        WiiRDCode::WriteAndFill8 {
            use_base_address: true,
            address: 0x100,
            value: 0x7F,
            length: 4,
        }
    );
    assert_eq!(
        block.codes[1],
        WiiRDCode::WriteAndFill16 {
            use_base_address: true,
            address: 0x200,
            value: 0xBEEF,
            length: 5,
        }
    );
}

#[test]
fn truncated_serial_write_keeps_partial_block() {
    // a serial write needs 16 bytes; only 12 are present
    let data = [
        0x04, 0x00, 0x01, 0x00, 0x00, 0x00, 0x00, 0x01, //
        0x08, 0x00, 0x01, 0x00, 0x00, 0x00, 0x00, 0x02, 0x01, 0x02, 0x00, 0x04,
    ];
    let block = wiird_codes(&data);
    assert_eq!(block.codes.len(), 1);
}
