//! WiiRD/Gecko code-list decoding.
//!
//! A code list is a flat stream of 8-byte rows.  The low bits of the first
//! byte select an opcode family; conditional opcodes open a nested block
//! that runs until a terminator row, so the decoder rebuilds a tree from
//! the flat stream.  Decoding never panics: unknown opcodes, truncated
//! rows and unterminated conditionals all yield the partial block decoded
//! so far.

use vstd::prelude::*;

use crate::reader::{be_i16, be_u16, be_u32, read_i16_at, read_u16_at, read_u32_at, read_u8_at};

verus! {

/// How many enclosing conditionals an `E2` terminator row pops.
#[derive(Clone, Copy, Debug, PartialEq, Eq, Structural)]
pub enum EndIfCount {
    Infinite,
    Finite(u8),
}

/// An ordered run of codes forming one branch of control flow.
#[derive(Debug, PartialEq)]
pub struct WiiRDBlock {
    pub codes: Vec<WiiRDCode>,
}

#[derive(Debug, PartialEq)]
pub enum WiiRDCode {
    /// 00
    WriteAndFill8 { use_base_address: bool, address: u32, value: u8, length: u32 },
    /// 02
    WriteAndFill16 { use_base_address: bool, address: u32, value: u16, length: u32 },
    /// 04
    WriteAndFill32 { use_base_address: bool, address: u32, value: u32 },
    /// 06
    StringWrite { use_base_address: bool, address: u32, values: Vec<u8> },
    /// 08
    SerialWrite {
        use_base_address: bool,
        address: u32,
        initial_value: u32,
        value_size: u8,
        count: u16,
        address_increment: u16,
        value_increment: u32,
    },
    /// 20 or 22 or 24 or 26 or 28 or 2A or 2C or 2E
    /// `insert_endif` records the low bit of the address word: the code
    /// format uses it to ask for an extra endif before the test.  It is
    /// cleared from the address and kept here.
    IfStatement {
        test: IfTest,
        then_branch: WiiRDBlock,
        else_branch: Option<Box<WiiRDBlock>>,
        insert_endif: bool,
        reset_base_address_high: u16,
        reset_pointer_address_high: u16,
    },
    /// 40
    LoadBaseAddress {
        add_result: bool,
        add_mem_address: AddAddress,
        add_mem_address_gecko_register: Option<u8>,
        mem_address: u32,
    },
    /// 42
    SetBaseAddress { add_result: bool, add: AddAddress, add_gecko_register: Option<u8>, value: u32 },
    /// 44
    StoreBaseAddress {
        add_mem_address: AddAddress,
        add_mem_address_gecko_register: Option<u8>,
        mem_address: u32,
    },
    /// 46
    /// Base address will hold the address at which the next line of code
    /// is stored, plus `address_offset`.
    SetBaseAddressToCodeLocation { address_offset: i16 },
    /// 48
    LoadPointerAddress {
        add_result: bool,
        add_mem_address: AddAddress,
        add_mem_address_gecko_register: Option<u8>,
        mem_address: u32,
    },
    /// 4A
    SetPointerAddress {
        add_result: bool,
        add: AddAddress,
        add_gecko_register: Option<u8>,
        value: u32,
    },
    /// 4C
    StorePointerAddress {
        add_mem_address: AddAddress,
        add_mem_address_gecko_register: Option<u8>,
        mem_address: u32,
    },
    /// 4E
    /// Pointer address will hold the address at which the next line of
    /// code is stored, plus `address_offset`.
    SetPointerAddressToCodeLocation { address_offset: i16 },
    /// 60
    /// Store next code address and count in block_id.
    SetRepeat { count: u16, block_id: u8 },
    /// 62
    ExecuteRepeat { block_id: u8 },
    /// 64
    Return { flag: JumpFlag, block_id: u8 },
    /// 66
    /// The code handler jumps to (next line of code + offset_lines).
    Goto { flag: JumpFlag, offset_lines: i16 },
    /// 68
    /// The code handler stores the next code address in block_id, then
    /// jumps to (next line of code + offset_lines).
    Subroutine { flag: JumpFlag, offset_lines: i16, block_id: u8 },
    /// 80
    SetGeckoRegister { add_result: bool, add: AddAddress, register: u8, value: u32 },
    /// 82
    LoadGeckoRegister { register: u8, mem_address: u32 },
    /// 84
    StoreGeckoRegister { register: u8, mem_address: u32 },
    /// 86
    OperationGeckoRegisterDirectValue {
        operation: GeckoOperation,
        load_register: bool,
        load_value: bool,
        register: u8,
        value: u32,
    },
    /// 88
    OperationGeckoRegister {
        operation: GeckoOperation,
        load_register1: bool,
        load_register2: bool,
        register1: u8,
        register2: u8,
    },
    /// 8A
    MemoryCopy1 {
        use_base_address: bool,
        count: u16,
        source_register: u8,
        dest_register: Option<u8>,
        dest_offset: u32,
    },
    /// 8C
    MemoryCopy2 {
        use_base_address: bool,
        count: u16,
        source_register: Option<u8>,
        dest_register: u8,
        source_offset: u32,
    },
    /// C0
    ExecutePPC { instruction_data: Vec<u8> },
    /// C2
    InsertPPC { use_base_address: bool, address: u32, instruction_data: Vec<u8> },
    /// E0 or E2
    ResetAddressHigh { reset_base_address_high: u16, reset_pointer_address_high: u16 },
    /// E2 with its else bit set: inverts the code execution status.
    Else { endif_count: u8, reset_base_address_high: u16, reset_pointer_address_high: u16 },
}

#[derive(Clone, Copy, Debug, PartialEq, Eq, Structural)]
pub enum IfTest {
    IsEqual { use_base_address: bool, address: u32, value: u32 },
    IsNotEqual { use_base_address: bool, address: u32, value: u32 },
    IsGreaterThan { use_base_address: bool, address: u32, value: u32 },
    IsLessThan { use_base_address: bool, address: u32, value: u32 },
    IsEqualMask { use_base_address: bool, address: u32, lhs_mask: u16, rhs_value: u16 },
    IsNotEqualMask { use_base_address: bool, address: u32, lhs_mask: u16, rhs_value: u16 },
    IsGreaterThanMask { use_base_address: bool, address: u32, lhs_mask: u16, rhs_value: u16 },
    IsLessThanMask { use_base_address: bool, address: u32, lhs_mask: u16, rhs_value: u16 },
}

/// The address a test reads, in every variant.
pub open spec fn if_test_address(t: IfTest) -> u32 {
    match t {
        IfTest::IsEqual { address, .. } => address,
        IfTest::IsNotEqual { address, .. } => address,
        IfTest::IsGreaterThan { address, .. } => address,
        IfTest::IsLessThan { address, .. } => address,
        IfTest::IsEqualMask { address, .. } => address,
        IfTest::IsNotEqualMask { address, .. } => address,
        IfTest::IsGreaterThanMask { address, .. } => address,
        IfTest::IsLessThanMask { address, .. } => address,
    }
}

/// The low bit of a test address is an "insert endif" flag of the code
/// format, not part of the address: the decoder clears it on every test
/// it emits.
pub open spec fn code_test_addresses_even(c: WiiRDCode) -> bool
    decreases c,
{
    match c {
        WiiRDCode::IfStatement { test, then_branch, else_branch, .. } => {
            &&& if_test_address(test) % 2 == 0
            &&& block_test_addresses_even(then_branch)
            &&& match else_branch {
                Some(b) => block_test_addresses_even(*b),
                None => true,
            }
        },
        _ => true,
    }
}

/// Every test in the tree has an even address (its low bit cleared).
pub open spec fn block_test_addresses_even(b: WiiRDBlock) -> bool
    decreases b,
{
    forall|i: int|
        0 <= i < b.codes@.len() ==> code_test_addresses_even(#[trigger] b.codes@[i])
}

#[derive(Clone, Copy, Debug, PartialEq, Eq, Structural)]
pub enum JumpFlag {
    WhenTrue,
    WhenFalse,
    Always,
}

#[derive(Clone, Copy, Debug, PartialEq, Eq, Structural)]
pub enum AddAddress {
    BaseAddress,
    PointerAddress,
    NoAddress,
}

#[derive(Clone, Copy, Debug, PartialEq, Eq, Structural)]
pub enum GeckoOperation {
    Add,
    Mul,
    Or,
    And,
    Xor,
    ShiftLeft,
    ShiftRight,
    RotateLeft,
    ArithmeticShiftRight,
    FloatAdd,
    FloatMul,
    Unknown(u8),
}

/// The register operation a raw value selects; operation rows pass the
/// high nibble of their second byte.
pub open spec fn spec_gecko_operation(value: u8) -> GeckoOperation {
    match value {
        0u8 => GeckoOperation::Add,
        1u8 => GeckoOperation::Mul,
        2u8 => GeckoOperation::Or,
        3u8 => GeckoOperation::And,
        4u8 => GeckoOperation::Xor,
        5u8 => GeckoOperation::ShiftLeft,
        6u8 => GeckoOperation::ShiftRight,
        7u8 => GeckoOperation::RotateLeft,
        8u8 => GeckoOperation::ArithmeticShiftRight,
        10u8 => GeckoOperation::FloatAdd,
        11u8 => GeckoOperation::FloatMul,
        _ => GeckoOperation::Unknown(value),
    }
}

impl GeckoOperation {
    pub fn new(value: u8) -> (r: GeckoOperation)
        ensures
            r == spec_gecko_operation(value),
    {
        match value {
            0 => GeckoOperation::Add,
            1 => GeckoOperation::Mul,
            2 => GeckoOperation::Or,
            3 => GeckoOperation::And,
            4 => GeckoOperation::Xor,
            5 => GeckoOperation::ShiftLeft,
            6 => GeckoOperation::ShiftRight,
            7 => GeckoOperation::RotateLeft,
            8 => GeckoOperation::ArithmeticShiftRight,
            10 => GeckoOperation::FloatAdd,
            11 => GeckoOperation::FloatMul,
            _ => GeckoOperation::Unknown(value),
        }
    }
}

/// One classified opcode row: either a self-contained code, or one of the
/// structural rows (conditional opener, block terminators, goto, end of
/// program) that drive block assembly.
#[derive(Debug, PartialEq)]
pub enum OpStep {
    Code(WiiRDCode),
    If { test: IfTest, insert_endif: bool },
    EndIfInfinite { reset_base_address_high: u16, reset_pointer_address_high: u16 },
    EndIfFinite {
        else_branch: bool,
        count: u8,
        reset_base_address_high: u16,
        reset_pointer_address_high: u16,
    },
    Goto { flag: JumpFlag, offset_lines: i16 },
    EndOfProgram,
}

/// The opcode family: the first byte with its base/pointer bit (0x10) and
/// low bit masked away.
pub open spec fn op_discriminant(d: Seq<u8>, off: int) -> u8 {
    d[off] & 0xEE
}

/// Bit 4 of the first byte clear means the code is relative to the base
/// address; set means relative to the pointer address.
pub open spec fn op_use_base_address(d: Seq<u8>, off: int) -> bool {
    d[off] & 0x10 == 0
}

/// The 25-bit address carried in the first row.
pub open spec fn op_address(d: Seq<u8>, off: int) -> u32 {
    be_u32(d, off) & 0x01FF_FFFF
}

/// The jump flag byte of return/goto/subroutine rows.
pub open spec fn spec_jump_flag(b: u8) -> Option<JumpFlag> {
    if b == 0x00 {
        Some(JumpFlag::WhenTrue)
    } else if b == 0x10 {
        Some(JumpFlag::WhenFalse)
    } else if b == 0x20 {
        Some(JumpFlag::Always)
    } else {
        None
    }
}

/// Which runtime address (if any) is added, given the row's add bit and
/// its base/pointer bit.
pub open spec fn spec_add_address(add: bool, use_base_address: bool) -> AddAddress {
    if add {
        if use_base_address {
            AddAddress::BaseAddress
        } else {
            AddAddress::PointerAddress
        }
    } else {
        AddAddress::NoAddress
    }
}

pub open spec fn spec_opt_register(present: bool, register: u8) -> Option<u8> {
    if present {
        Some(register)
    } else {
        None
    }
}

/// The low bit of a conditional row's address word: a request for an
/// extra endif before the test.
pub open spec fn spec_insert_endif(d: Seq<u8>, off: int) -> bool {
    op_address(d, off) & 1 == 1
}

/// The test built from a conditional row.  The low bit of the address is
/// cleared; the value and mask fields overlay the same four bytes.
pub open spec fn spec_if_test(d: Seq<u8>, off: int) -> IfTest {
    let code = op_discriminant(d, off);
    let use_base_address = op_use_base_address(d, off);
    let address = op_address(d, off) & 0xFFFF_FFFE;
    let value = be_u32(d, off + 4);
    let lhs_mask = be_u16(d, off + 4);
    let rhs_value = be_u16(d, off + 6);
    if code == 0x20 {
        IfTest::IsEqual { use_base_address, address, value }
    } else if code == 0x22 {
        IfTest::IsNotEqual { use_base_address, address, value }
    } else if code == 0x24 {
        IfTest::IsGreaterThan { use_base_address, address, value }
    } else if code == 0x26 {
        IfTest::IsLessThan { use_base_address, address, value }
    } else if code == 0x28 {
        IfTest::IsEqualMask { use_base_address, address, lhs_mask, rhs_value }
    } else if code == 0x2A {
        IfTest::IsNotEqualMask { use_base_address, address, lhs_mask, rhs_value }
    } else if code == 0x2C {
        IfTest::IsGreaterThanMask { use_base_address, address, lhs_mask, rhs_value }
    } else {
        IfTest::IsLessThanMask { use_base_address, address, lhs_mask, rhs_value }
    }
}

/// True when a complete, recognized opcode row (with its payload, if any)
/// begins at `off`.  This is exactly the success condition of `decode_op`.
pub open spec fn op_ok(d: Seq<u8>, off: int) -> bool {
    let code = op_discriminant(d, off);
    let b1 = d[off + 1];
    &&& 0 <= off
    &&& off + 8 <= d.len()
    &&& (code == 0x00 || code == 0x02 || code == 0x04 || code == 0x06 || code == 0x08 || code
        == 0x20 || code == 0x22 || code == 0x24 || code == 0x26 || code == 0x28 || code == 0x2A
        || code == 0x2C || code == 0x2E || code == 0x40 || code == 0x42 || code == 0x44 || code
        == 0x46 || code == 0x48 || code == 0x4A || code == 0x4C || code == 0x4E || code == 0x60
        || code == 0x62 || code == 0x64 || code == 0x66 || code == 0x68 || code == 0x80 || code
        == 0x82 || code == 0x84 || code == 0x86 || code == 0x88 || code == 0x8A || code == 0x8C
        || code == 0xC0 || code == 0xC2 || code == 0xE0 || code == 0xE2)
    &&& (code == 0x06 ==> off + 8 + be_u32(d, off + 4) <= d.len())
    &&& (code == 0x08 ==> off + 16 <= d.len())
    &&& ((code == 0xC0 || code == 0xC2) ==> off + 8 + 8 * be_u32(d, off + 4) <= d.len())
    &&& ((code == 0x64 || code == 0x66 || code == 0x68) ==> (b1 == 0x00 || b1 == 0x10 || b1
        == 0x20))
}

/// The exact classification of the opcode row at `off`: which step it
/// yields and how many bytes of the stream it covers.  `len` runs past
/// the payload to the next 8-byte boundary for string writes, clipped at
/// the end of the stream.
pub open spec fn op_at(d: Seq<u8>, off: int, step: OpStep, len: int) -> bool {
    let code = op_discriminant(d, off);
    let use_base_address = op_use_base_address(d, off);
    let address = op_address(d, off);
    if code == 0x00 {
        step == OpStep::Code(
            WiiRDCode::WriteAndFill8 {
                use_base_address,
                address,
                value: d[off + 7],
                length: (be_u16(d, off + 4) + 1) as u32,
            },
        ) && len == 8
    } else if code == 0x02 {
        step == OpStep::Code(
            WiiRDCode::WriteAndFill16 {
                use_base_address,
                address,
                value: be_u16(d, off + 6),
                length: (be_u16(d, off + 4) + 1) as u32,
            },
        ) && len == 8
    } else if code == 0x04 {
        step == OpStep::Code(
            WiiRDCode::WriteAndFill32 { use_base_address, address, value: be_u32(d, off + 4) },
        ) && len == 8
    } else if code == 0x06 {
        let count = be_u32(d, off + 4) as int;
        let pad = if count % 8 == 0 {
            0int
        } else {
            8 - count % 8
        };
        &&& step matches OpStep::Code(c)
        &&& c matches WiiRDCode::StringWrite { use_base_address: u, address: a, values }
        &&& u == use_base_address
        &&& a == address
        &&& values@ == d.subrange(off + 8, off + 8 + count)
        &&& len == if off + 8 + count + pad <= d.len() {
            8 + count + pad
        } else {
            d.len() - off
        }
    } else if code == 0x08 {
        step == OpStep::Code(
            WiiRDCode::SerialWrite {
                use_base_address,
                address,
                initial_value: be_u32(d, off + 4),
                value_size: d[off + 8],
                count: ((be_u16(d, off + 8) & 0x0FFF) + 1) as u16,
                address_increment: be_u16(d, off + 10),
                value_increment: be_u32(d, off + 12),
            },
        ) && len == 16
    } else if code == 0x20 || code == 0x22 || code == 0x24 || code == 0x26 || code == 0x28 || code
        == 0x2A || code == 0x2C || code == 0x2E {
        step == OpStep::If {
            test: spec_if_test(d, off),
            insert_endif: spec_insert_endif(d, off),
        } && len == 8
    } else if code == 0x40 {
        step == OpStep::Code(
            WiiRDCode::LoadBaseAddress {
                add_result: d[off + 1] & 0x10 != 0,
                add_mem_address: spec_add_address(d[off + 1] & 0x01 != 0, use_base_address),
                add_mem_address_gecko_register: spec_opt_register(
                    d[off + 2] & 0x10 != 0,
                    d[off + 3] & 0x0F,
                ),
                mem_address: be_u32(d, off + 4),
            },
        ) && len == 8
    } else if code == 0x42 {
        step == OpStep::Code(
            WiiRDCode::SetBaseAddress {
                add_result: d[off + 1] & 0x10 != 0,
                add: spec_add_address(d[off + 1] & 0x01 != 0, use_base_address),
                add_gecko_register: spec_opt_register(d[off + 2] & 0x10 != 0, d[off + 3] & 0x0F),
                value: be_u32(d, off + 4),
            },
        ) && len == 8
    } else if code == 0x44 {
        step == OpStep::Code(
            WiiRDCode::StoreBaseAddress {
                add_mem_address: spec_add_address(d[off + 1] & 0x01 != 0, use_base_address),
                add_mem_address_gecko_register: spec_opt_register(
                    d[off + 2] & 0x10 != 0,
                    d[off + 3] & 0x0F,
                ),
                mem_address: be_u32(d, off + 4),
            },
        ) && len == 8
    } else if code == 0x46 {
        step == OpStep::Code(
            WiiRDCode::SetBaseAddressToCodeLocation { address_offset: be_i16(d, off + 2) },
        ) && len == 8
    } else if code == 0x48 {
        step == OpStep::Code(
            WiiRDCode::LoadPointerAddress {
                add_result: d[off + 1] & 0x10 != 0,
                add_mem_address: spec_add_address(d[off + 1] & 0x01 != 0, use_base_address),
                add_mem_address_gecko_register: spec_opt_register(
                    d[off + 2] & 0x10 != 0,
                    d[off + 3] & 0x0F,
                ),
                mem_address: be_u32(d, off + 4),
            },
        ) && len == 8
    } else if code == 0x4A {
        step == OpStep::Code(
            WiiRDCode::SetPointerAddress {
                add_result: d[off + 1] & 0x10 != 0,
                add: spec_add_address(d[off + 1] & 0x01 != 0, use_base_address),
                add_gecko_register: spec_opt_register(d[off + 2] & 0x10 != 0, d[off + 3] & 0x0F),
                value: be_u32(d, off + 4),
            },
        ) && len == 8
    } else if code == 0x4C {
        step == OpStep::Code(
            WiiRDCode::StorePointerAddress {
                add_mem_address: spec_add_address(d[off + 1] & 0x01 != 0, use_base_address),
                add_mem_address_gecko_register: spec_opt_register(
                    d[off + 2] & 0x10 != 0,
                    d[off + 3] & 0x0F,
                ),
                mem_address: be_u32(d, off + 4),
            },
        ) && len == 8
    } else if code == 0x4E {
        step == OpStep::Code(
            WiiRDCode::SetPointerAddressToCodeLocation { address_offset: be_i16(d, off + 2) },
        ) && len == 8
    } else if code == 0x60 {
        step == OpStep::Code(
            WiiRDCode::SetRepeat { count: be_u16(d, off + 2), block_id: d[off + 7] },
        ) && len == 8
    } else if code == 0x62 {
        step == OpStep::Code(WiiRDCode::ExecuteRepeat { block_id: d[off + 7] & 0x0F }) && len == 8
    } else if code == 0x64 {
        &&& spec_jump_flag(d[off + 1]) matches Some(flag)
        &&& step == OpStep::Code(WiiRDCode::Return { flag, block_id: d[off + 7] & 0x0F })
        &&& len == 8
    } else if code == 0x66 {
        &&& spec_jump_flag(d[off + 1]) matches Some(flag)
        &&& step == OpStep::Goto { flag, offset_lines: be_i16(d, off + 2) }
        &&& len == 8
    } else if code == 0x68 {
        &&& spec_jump_flag(d[off + 1]) matches Some(flag)
        &&& step == OpStep::Code(
            WiiRDCode::Subroutine {
                flag,
                offset_lines: be_i16(d, off + 2),
                block_id: d[off + 7] & 0x0F,
            },
        )
        &&& len == 8
    } else if code == 0x80 {
        step == OpStep::Code(
            WiiRDCode::SetGeckoRegister {
                add_result: d[off + 1] & 0x10 != 0,
                add: spec_add_address(d[off + 1] & 0x01 != 0, use_base_address),
                register: d[off + 3] & 0x0F,
                value: be_u32(d, off + 4),
            },
        ) && len == 8
    } else if code == 0x82 {
        step == OpStep::Code(
            WiiRDCode::LoadGeckoRegister { register: d[off + 3] & 0x0F, mem_address: be_u32(d, off + 4) },
        ) && len == 8
    } else if code == 0x84 {
        step == OpStep::Code(
            WiiRDCode::StoreGeckoRegister { register: d[off + 3] & 0x0F, mem_address: be_u32(d, off + 4) },
        ) && len == 8
    } else if code == 0x86 {
        step == OpStep::Code(
            WiiRDCode::OperationGeckoRegisterDirectValue {
                operation: spec_gecko_operation(d[off + 1] >> 4),
                load_register: d[off + 1] & 0x01 != 0,
                load_value: d[off + 1] & 0x02 != 0,
                register: d[off + 3] & 0x0F,
                value: be_u32(d, off + 4),
            },
        ) && len == 8
    } else if code == 0x88 {
        step == OpStep::Code(
            WiiRDCode::OperationGeckoRegister {
                operation: spec_gecko_operation(d[off + 1] >> 4),
                load_register1: d[off + 1] & 0x01 != 0,
                load_register2: d[off + 1] & 0x02 != 0,
                register1: d[off + 3] & 0x0F,
                register2: d[off + 7] & 0x0F,
            },
        ) && len == 8
    } else if code == 0x8A {
        step == OpStep::Code(
            WiiRDCode::MemoryCopy1 {
                use_base_address,
                count: be_u16(d, off + 1),
                source_register: d[off + 3] & 0xF0,
                dest_register: if d[off + 3] & 0x0F == 0x0F {
                    None
                } else {
                    Some(d[off + 3] & 0x0F)
                },
                dest_offset: be_u32(d, off + 4),
            },
        ) && len == 8
    } else if code == 0x8C {
        step == OpStep::Code(
            WiiRDCode::MemoryCopy2 {
                use_base_address,
                count: be_u16(d, off + 1),
                source_register: if d[off + 3] & 0xF0 == 0xF0 {
                    None
                } else {
                    Some(d[off + 3] & 0xF0)
                },
                dest_register: d[off + 3] & 0x0F,
                source_offset: be_u32(d, off + 4),
            },
        ) && len == 8
    } else if code == 0xC0 {
        let count = be_u32(d, off + 4) as int;
        &&& step matches OpStep::Code(c)
        &&& c matches WiiRDCode::ExecutePPC { instruction_data }
        &&& instruction_data@ == d.subrange(off + 8, off + 8 + count * 8)
        &&& len == 8 + count * 8
    } else if code == 0xC2 {
        let count = be_u32(d, off + 4) as int;
        &&& step matches OpStep::Code(c)
        &&& c matches WiiRDCode::InsertPPC { use_base_address: u, address: a, instruction_data }
        &&& u == use_base_address
        &&& a == address
        &&& instruction_data@ == d.subrange(off + 8, off + 8 + count * 8)
        &&& len == 8 + count * 8
    } else if code == 0xE0 {
        if use_base_address {
            step == OpStep::EndIfInfinite {
                reset_base_address_high: be_u16(d, off + 4),
                reset_pointer_address_high: be_u16(d, off + 6),
            } && len == 8
        } else {
            // an F0 row: the end-of-program byte masks into this family
            // with its base/pointer bit set
            step == OpStep::EndOfProgram && len == 8
        }
    } else if code == 0xE2 {
        step == OpStep::EndIfFinite {
            else_branch: d[off + 1] & 0x10 != 0,
            count: d[off + 3],
            reset_base_address_high: be_u16(d, off + 4),
            reset_pointer_address_high: be_u16(d, off + 6),
        } && len == 8
    } else {
        false
    }
}

fn copy_bytes(data: &[u8], from: usize, count: usize) -> (r: Vec<u8>)
    requires
        from + count <= data@.len(),
    ensures
        r@ == data@.subrange(from as int, from + count),
{
    let n = data.len();
    let mut values: Vec<u8> = Vec::new();
    let mut i: usize = 0;
    while i < count
        invariant
            i <= count,
            from + count <= n,
            n == data@.len(),
            values@ == data@.subrange(from as int, from + i),
        decreases count - i,
    {
        values.push(data[from + i]);
        proof {
            assert(data@.subrange(from as int, from + i + 1) =~= data@.subrange(
                from as int,
                from + i,
            ).push(data@[from + i]));
        }
        i = i + 1;
    }
    values
}

fn decode_jump_flag(b: u8) -> (r: Option<JumpFlag>)
    ensures
        r == spec_jump_flag(b),
{
    match b {
        0x00 => Some(JumpFlag::WhenTrue),
        0x10 => Some(JumpFlag::WhenFalse),
        0x20 => Some(JumpFlag::Always),
        _ => None,
    }
}

fn add_address(add: bool, use_base_address: bool) -> (r: AddAddress)
    ensures
        r == spec_add_address(add, use_base_address),
{
    match (add, use_base_address) {
        (true, true) => AddAddress::BaseAddress,
        (true, false) => AddAddress::PointerAddress,
        (false, _) => AddAddress::NoAddress,
    }
}

fn opt_register(present: bool, register: u8) -> (r: Option<u8>)
    ensures
        r == spec_opt_register(present, register),
{
    if present {
        Some(register)
    } else {
        None
    }
}

/// For each masked discriminant exactly one decoder rule fires: a row
/// admits only one classification, and its length is determined by the
/// bytes alone.
pub proof fn lemma_op_at_unique(d: Seq<u8>, off: int, s1: OpStep, l1: int, s2: OpStep, l2: int)
    requires
        op_at(d, off, s1, l1),
        op_at(d, off, s2, l2),
    ensures
        l1 == l2,
        s1 is Code ==> s2 is Code,
        s1 is If ==> s1 == s2,
        s1 is Goto ==> s1 == s2,
        s1 is EndIfInfinite ==> s1 == s2,
        s1 is EndIfFinite ==> s1 == s2,
        s1 is EndOfProgram ==> s1 == s2,
{
}

/// The full contract of one `decode_op` call: success exactly on a
/// well-formed row, and on success the classified step with its length.
pub open spec fn decode_op_result(d: Seq<u8>, off: int, r: Option<(OpStep, usize)>) -> bool {
    match r {
        Some(sl) => {
            &&& op_ok(d, off)
            &&& op_at(d, off, sl.0, sl.1 as int)
            &&& 8 <= sl.1
            &&& off + sl.1 <= d.len()
        },
        None => !op_ok(d, off),
    }
}

fn decode_op_writes(data: &[u8], offset: usize) -> (r: Option<(OpStep, usize)>)
    requires
        offset + 8 <= data@.len(),
        (op_discriminant(data@, offset as int) == 0x00 || op_discriminant(data@, offset as int) == 0x02 || op_discriminant(data@, offset as int) == 0x04 || op_discriminant(data@, offset as int) == 0x06 || op_discriminant(data@, offset as int) == 0x08),
    ensures
        decode_op_result(data@, offset as int, r),
{
    let n = data.len();
    if n < 8 {
        return None;
    }
    let b0 = read_u8_at(data, offset);
    let code = b0 & 0xEE;
    let use_base_address = b0 & 0x10 == 0;
    let address = read_u32_at(data, offset) & 0x01FF_FFFF;
    match code {
        0x00 => {
            let value = read_u8_at(data, offset + 7);
            let length = read_u16_at(data, offset + 4) as u32 + 1;
            Some((OpStep::Code(WiiRDCode::WriteAndFill8 { use_base_address, address, value, length }), 8))
        },
        0x02 => {
            let value = read_u16_at(data, offset + 6);
            let length = read_u16_at(data, offset + 4) as u32 + 1;
            Some((OpStep::Code(WiiRDCode::WriteAndFill16 { use_base_address, address, value, length }), 8))
        },
        0x04 => {
            let value = read_u32_at(data, offset + 4);
            Some((OpStep::Code(WiiRDCode::WriteAndFill32 { use_base_address, address, value }), 8))
        },
        0x06 => {
            let count = read_u32_at(data, offset + 4) as usize;
            if count > data.len() - (offset + 8) {
                return None;
            }
            let values = copy_bytes(data, offset + 8, count);
            let count_mod = count % 8;
            let pad = if count_mod != 0 {
                8 - count_mod
            } else {
                0
            };
            let avail = data.len() - offset;
            let len = if 8 + count <= avail - pad {
                8 + count + pad
            } else {
                avail
            };
            Some((OpStep::Code(WiiRDCode::StringWrite { use_base_address, address, values }), len))
        },
        0x08 => {
            if data.len() - offset < 16 {
                return None;
            }
            let initial_value = read_u32_at(data, offset + 4);
            let value_size = read_u8_at(data, offset + 8);
            let count_raw = read_u16_at(data, offset + 8);
            assert((count_raw & 0x0FFF) < 0x1000) by (bit_vector);
            let count = (count_raw & 0x0FFF) + 1;
            let address_increment = read_u16_at(data, offset + 10);
            let value_increment = read_u32_at(data, offset + 12);
            Some((
                OpStep::Code(
                    WiiRDCode::SerialWrite {
                        use_base_address,
                        address,
                        initial_value,
                        value_size,
                        count,
                        address_increment,
                        value_increment,
                    },
                ),
                16,
            ))
        },
        _ => None,
    }
}

fn decode_op_conditional(data: &[u8], offset: usize) -> (r: Option<(OpStep, usize)>)
    requires
        offset + 8 <= data@.len(),
        (op_discriminant(data@, offset as int) == 0x20 || op_discriminant(data@, offset as int) == 0x22 || op_discriminant(data@, offset as int) == 0x24 || op_discriminant(data@, offset as int) == 0x26 || op_discriminant(data@, offset as int) == 0x28 || op_discriminant(data@, offset as int) == 0x2A || op_discriminant(data@, offset as int) == 0x2C || op_discriminant(data@, offset as int) == 0x2E),
    ensures
        decode_op_result(data@, offset as int, r),
{
    let n = data.len();
    if n < 8 {
        return None;
    }
    let b0 = read_u8_at(data, offset);
    let code = b0 & 0xEE;
    let use_base_address = b0 & 0x10 == 0;
    let address = read_u32_at(data, offset) & 0x01FF_FFFF;
    match code {
        0x20 | 0x22 | 0x24 | 0x26 | 0x28 | 0x2A | 0x2C | 0x2E => {
            let insert_endif = address & 1 == 1;
            let address = address & 0xFFFF_FFFE;
            let value = read_u32_at(data, offset + 4);
            let lhs_mask = read_u16_at(data, offset + 4);
            let rhs_value = read_u16_at(data, offset + 6);
            let test = match code {
        
        0x20 => IfTest::IsEqual { use_base_address, address, value },
        
        0x22 => IfTest::IsNotEqual { use_base_address, address, value },
        
        0x24 => IfTest::IsGreaterThan { use_base_address, address, value },
        
        0x26 => IfTest::IsLessThan { use_base_address, address, value },
        
        0x28 => IfTest::IsEqualMask { use_base_address, address, lhs_mask, rhs_value },
        
        0x2A => IfTest::IsNotEqualMask { use_base_address, address, lhs_mask, rhs_value },
        
        0x2C => IfTest::IsGreaterThanMask { use_base_address, address, lhs_mask, rhs_value },
                _ => IfTest::IsLessThanMask { use_base_address, address, lhs_mask, rhs_value },
            };
            Some((OpStep::If { test, insert_endif }, 8))
        },
        _ => None,
    }
}

fn decode_op_base_pointer(data: &[u8], offset: usize) -> (r: Option<(OpStep, usize)>)
    requires
        offset + 8 <= data@.len(),
        (op_discriminant(data@, offset as int) == 0x40 || op_discriminant(data@, offset as int) == 0x42 || op_discriminant(data@, offset as int) == 0x44 || op_discriminant(data@, offset as int) == 0x46 || op_discriminant(data@, offset as int) == 0x48 || op_discriminant(data@, offset as int) == 0x4A || op_discriminant(data@, offset as int) == 0x4C || op_discriminant(data@, offset as int) == 0x4E),
    ensures
        decode_op_result(data@, offset as int, r),
{
    let n = data.len();
    if n < 8 {
        return None;
    }
    let b0 = read_u8_at(data, offset);
    let code = b0 & 0xEE;
    let use_base_address = b0 & 0x10 == 0;
    let address = read_u32_at(data, offset) & 0x01FF_FFFF;
    match code {
        0x40 => {
            let add_result = read_u8_at(data, offset + 1) & 0x10 != 0;
            let add_mem_address = add_address(read_u8_at(data, offset + 1) & 0x01 != 0, use_base_address);
            let add_mem_address_gecko_register = opt_register(
                read_u8_at(data, offset + 2) & 0x10 != 0,
                read_u8_at(data, offset + 3) & 0x0F,
            );
            let mem_address = read_u32_at(data, offset + 4);
            Some((
                OpStep::Code(
                    WiiRDCode::LoadBaseAddress {
                        add_result,
                        add_mem_address,
                        add_mem_address_gecko_register,
                        mem_address,
                    },
                ),
                8,
            ))
        },
        0x42 => {
            let add_result = read_u8_at(data, offset + 1) & 0x10 != 0;
            let add = add_address(read_u8_at(data, offset + 1) & 0x01 != 0, use_base_address);
            let add_gecko_register = opt_register(
                read_u8_at(data, offset + 2) & 0x10 != 0,
                read_u8_at(data, offset + 3) & 0x0F,
            );
            let value = read_u32_at(data, offset + 4);
            Some((
                OpStep::Code(WiiRDCode::SetBaseAddress { add_result, add, add_gecko_register, value }),
                8,
            ))
        },
        0x44 => {
            let add_mem_address = add_address(read_u8_at(data, offset + 1) & 0x01 != 0, use_base_address);
            let add_mem_address_gecko_register = opt_register(
                read_u8_at(data, offset + 2) & 0x10 != 0,
                read_u8_at(data, offset + 3) & 0x0F,
            );
            let mem_address = read_u32_at(data, offset + 4);
            Some((
                OpStep::Code(
                    WiiRDCode::StoreBaseAddress {
                        add_mem_address,
                        add_mem_address_gecko_register,
                        mem_address,
                    },
                ),
                8,
            ))
        },
        0x46 => {
            let address_offset = read_i16_at(data, offset + 2);
            Some((OpStep::Code(WiiRDCode::SetBaseAddressToCodeLocation { address_offset }), 8))
        },
        0x48 => {
            let add_result = read_u8_at(data, offset + 1) & 0x10 != 0;
            let add_mem_address = add_address(read_u8_at(data, offset + 1) & 0x01 != 0, use_base_address);
            let add_mem_address_gecko_register = opt_register(
                read_u8_at(data, offset + 2) & 0x10 != 0,
                read_u8_at(data, offset + 3) & 0x0F,
            );
            let mem_address = read_u32_at(data, offset + 4);
            Some((
                OpStep::Code(
                    WiiRDCode::LoadPointerAddress {
                        add_result,
                        add_mem_address,
                        add_mem_address_gecko_register,
                        mem_address,
                    },
                ),
                8,
            ))
        },
        0x4A => {
            let add_result = read_u8_at(data, offset + 1) & 0x10 != 0;
            let add = add_address(read_u8_at(data, offset + 1) & 0x01 != 0, use_base_address);
            let add_gecko_register = opt_register(
                read_u8_at(data, offset + 2) & 0x10 != 0,
                read_u8_at(data, offset + 3) & 0x0F,
            );
            let value = read_u32_at(data, offset + 4);
            Some((
                OpStep::Code(WiiRDCode::SetPointerAddress { add_result, add, add_gecko_register, value }),
                8,
            ))
        },
        0x4C => {
            let add_mem_address = add_address(read_u8_at(data, offset + 1) & 0x01 != 0, use_base_address);
            let add_mem_address_gecko_register = opt_register(
                read_u8_at(data, offset + 2) & 0x10 != 0,
                read_u8_at(data, offset + 3) & 0x0F,
            );
            let mem_address = read_u32_at(data, offset + 4);
            Some((
                OpStep::Code(
                    WiiRDCode::StorePointerAddress {
                        add_mem_address,
                        add_mem_address_gecko_register,
                        mem_address,
                    },
                ),
                8,
            ))
        },
        0x4E => {
            let address_offset = read_i16_at(data, offset + 2);
            Some((OpStep::Code(WiiRDCode::SetPointerAddressToCodeLocation { address_offset }), 8))
        },
        _ => None,
    }
}

fn decode_op_flow(data: &[u8], offset: usize) -> (r: Option<(OpStep, usize)>)
    requires
        offset + 8 <= data@.len(),
        (op_discriminant(data@, offset as int) == 0x60 || op_discriminant(data@, offset as int) == 0x62 || op_discriminant(data@, offset as int) == 0x64 || op_discriminant(data@, offset as int) == 0x66 || op_discriminant(data@, offset as int) == 0x68),
    ensures
        decode_op_result(data@, offset as int, r),
{
    let n = data.len();
    if n < 8 {
        return None;
    }
    let b0 = read_u8_at(data, offset);
    let code = b0 & 0xEE;
    let use_base_address = b0 & 0x10 == 0;
    let address = read_u32_at(data, offset) & 0x01FF_FFFF;
    match code {
        0x60 => {
            let count = read_u16_at(data, offset + 2);
            let block_id = read_u8_at(data, offset + 7);
            Some((OpStep::Code(WiiRDCode::SetRepeat { count, block_id }), 8))
        },
        0x62 => {
            let block_id = read_u8_at(data, offset + 7) & 0x0F;
            Some((OpStep::Code(WiiRDCode::ExecuteRepeat { block_id }), 8))
        },
        0x64 => {
            let flag = match decode_jump_flag(read_u8_at(data, offset + 1)) {
                Some(flag) => flag,
                None => {
                    return None;
                },
            };
            let block_id = read_u8_at(data, offset + 7) & 0x0F;
            Some((OpStep::Code(WiiRDCode::Return { flag, block_id }), 8))
        },
        0x66 => {
            let flag = match decode_jump_flag(read_u8_at(data, offset + 1)) {
                Some(flag) => flag,
                None => {
                    return None;
                },
            };
            let offset_lines = read_i16_at(data, offset + 2);
            Some((OpStep::Goto { flag, offset_lines }, 8))
        },
        0x68 => {
            let flag = match decode_jump_flag(read_u8_at(data, offset + 1)) {
                Some(flag) => flag,
                None => {
                    return None;
                },
            };
            let offset_lines = read_i16_at(data, offset + 2);
            let block_id = read_u8_at(data, offset + 7) & 0x0F;
            Some((OpStep::Code(WiiRDCode::Subroutine { flag, offset_lines, block_id }), 8))
        },
        _ => None,
    }
}

fn decode_op_gecko(data: &[u8], offset: usize) -> (r: Option<(OpStep, usize)>)
    requires
        offset + 8 <= data@.len(),
        (op_discriminant(data@, offset as int) == 0x80 || op_discriminant(data@, offset as int) == 0x82 || op_discriminant(data@, offset as int) == 0x84 || op_discriminant(data@, offset as int) == 0x86 || op_discriminant(data@, offset as int) == 0x88 || op_discriminant(data@, offset as int) == 0x8A || op_discriminant(data@, offset as int) == 0x8C),
    ensures
        decode_op_result(data@, offset as int, r),
{
    let n = data.len();
    if n < 8 {
        return None;
    }
    let b0 = read_u8_at(data, offset);
    let code = b0 & 0xEE;
    let use_base_address = b0 & 0x10 == 0;
    let address = read_u32_at(data, offset) & 0x01FF_FFFF;
    match code {
        0x80 => {
            let add_result = read_u8_at(data, offset + 1) & 0x10 != 0;
            let add = add_address(read_u8_at(data, offset + 1) & 0x01 != 0, use_base_address);
            let register = read_u8_at(data, offset + 3) & 0x0F;
            let value = read_u32_at(data, offset + 4);
            Some((OpStep::Code(WiiRDCode::SetGeckoRegister { add_result, add, register, value }), 8))
        },
        0x82 => {
            let register = read_u8_at(data, offset + 3) & 0x0F;
            let mem_address = read_u32_at(data, offset + 4);
            Some((OpStep::Code(WiiRDCode::LoadGeckoRegister { register, mem_address }), 8))
        },
        0x84 => {
            let register = read_u8_at(data, offset + 3) & 0x0F;
            let mem_address = read_u32_at(data, offset + 4);
            Some((OpStep::Code(WiiRDCode::StoreGeckoRegister { register, mem_address }), 8))
        },
        0x86 => {
            let b1 = read_u8_at(data, offset + 1);
            let operation = GeckoOperation::new(b1 >> 4);
            let load_register = b1 & 0x01 != 0;
            let load_value = b1 & 0x02 != 0;
            let register = read_u8_at(data, offset + 3) & 0x0F;
            let value = read_u32_at(data, offset + 4);
            Some((
                OpStep::Code(
                    WiiRDCode::OperationGeckoRegisterDirectValue {
                        operation,
                        load_register,
                        load_value,
                        register,
                        value,
                    },
                ),
                8,
            ))
        },
        0x88 => {
            let b1 = read_u8_at(data, offset + 1);
            let operation = GeckoOperation::new(b1 >> 4);
            let load_register1 = b1 & 0x01 != 0;
            let load_register2 = b1 & 0x02 != 0;
            let register1 = read_u8_at(data, offset + 3) & 0x0F;
            let register2 = read_u8_at(data, offset + 7) & 0x0F;
            Some((
                OpStep::Code(
                    WiiRDCode::OperationGeckoRegister {
                        operation,
                        load_register1,
                        load_register2,
                        register1,
                        register2,
                    },
                ),
                8,
            ))
        },
        0x8A => {
            let count = read_u16_at(data, offset + 1);
            let source_register = read_u8_at(data, offset + 3) & 0xF0;
            let dest_nibble = read_u8_at(data, offset + 3) & 0x0F;
            let dest_register = if dest_nibble == 0x0F {
                None
            } else {
                Some(dest_nibble)
            };
            let dest_offset = read_u32_at(data, offset + 4);
            Some((
                OpStep::Code(
                    WiiRDCode::MemoryCopy1 {
                        use_base_address,
                        count,
                        source_register,
                        dest_register,
                        dest_offset,
                    },
                ),
                8,
            ))
        },
        0x8C => {
            let count = read_u16_at(data, offset + 1);
            let source_nibble = read_u8_at(data, offset + 3) & 0xF0;
            let source_register = if source_nibble == 0xF0 {
                None
            } else {
                Some(source_nibble)
            };
            let dest_register = read_u8_at(data, offset + 3) & 0x0F;
            let source_offset = read_u32_at(data, offset + 4);
            Some((
                OpStep::Code(
                    WiiRDCode::MemoryCopy2 {
                        use_base_address,
                        count,
                        source_register,
                        dest_register,
                        source_offset,
                    },
                ),
                8,
            ))
        },
        _ => None,
    }
}

fn decode_op_ppc(data: &[u8], offset: usize) -> (r: Option<(OpStep, usize)>)
    requires
        offset + 8 <= data@.len(),
        (op_discriminant(data@, offset as int) == 0xC0 || op_discriminant(data@, offset as int) == 0xC2),
    ensures
        decode_op_result(data@, offset as int, r),
{
    let n = data.len();
    if n < 8 {
        return None;
    }
    let b0 = read_u8_at(data, offset);
    let code = b0 & 0xEE;
    let use_base_address = b0 & 0x10 == 0;
    let address = read_u32_at(data, offset) & 0x01FF_FFFF;
    match code {
        0xC0 => {
            let count = read_u32_at(data, offset + 4);
            let avail = (data.len() - (offset + 8)) as u64;
            if count as u64 * 8 > avail {
                return None;
            }
            let byte_count = (count as usize) * 8;
            let instruction_data = copy_bytes(data, offset + 8, byte_count);
            Some((OpStep::Code(WiiRDCode::ExecutePPC { instruction_data }), 8 + byte_count))
        },
        0xC2 => {
            let count = read_u32_at(data, offset + 4);
            let avail = (data.len() - (offset + 8)) as u64;
            if count as u64 * 8 > avail {
                return None;
            }
            let byte_count = (count as usize) * 8;
            let instruction_data = copy_bytes(data, offset + 8, byte_count);
            Some((
                OpStep::Code(WiiRDCode::InsertPPC { use_base_address, address, instruction_data }),
                8 + byte_count,
            ))
        },
        _ => None,
    }
}

fn decode_op_terminator(data: &[u8], offset: usize) -> (r: Option<(OpStep, usize)>)
    requires
        offset + 8 <= data@.len(),
        (op_discriminant(data@, offset as int) == 0xE0 || op_discriminant(data@, offset as int) == 0xE2),
    ensures
        decode_op_result(data@, offset as int, r),
{
    let n = data.len();
    if n < 8 {
        return None;
    }
    let b0 = read_u8_at(data, offset);
    let code = b0 & 0xEE;
    let use_base_address = b0 & 0x10 == 0;
    let address = read_u32_at(data, offset) & 0x01FF_FFFF;
    match code {
        0xE0 => {
            if b0 & 0x10 != 0 {
                // an F0 row: end of the program
                return Some((OpStep::EndOfProgram, 8));
            }
            let reset_base_address_high = read_u16_at(data, offset + 4);
            let reset_pointer_address_high = read_u16_at(data, offset + 6);
            Some((OpStep::EndIfInfinite { reset_base_address_high, reset_pointer_address_high }, 8))
        },
        0xE2 => {
            let else_branch = read_u8_at(data, offset + 1) & 0x10 != 0;
            let count = read_u8_at(data, offset + 3);
            let reset_base_address_high = read_u16_at(data, offset + 4);
            let reset_pointer_address_high = read_u16_at(data, offset + 6);
            Some((
                OpStep::EndIfFinite {
                    else_branch,
                    count,
                    reset_base_address_high,
                    reset_pointer_address_high,
                },
                8,
            ))
        },
        _ => None,
    }
}

/// Classifies the opcode row at `offset` and reports how many bytes of
/// the stream it covers.  `None` exactly when the row is truncated, its
/// discriminant is unknown, its payload runs past the end of the stream,
/// or a jump-flag byte is invalid.
pub fn decode_op(data: &[u8], offset: usize) -> (r: Option<(OpStep, usize)>)
    ensures
        decode_op_result(data@, offset as int, r),
{
    if data.len() < 8 || offset > data.len() - 8 {
        return None;
    }
    let code = read_u8_at(data, offset) & 0xEE;
    match code {
        0x00 | 0x02 | 0x04 | 0x06 | 0x08 => decode_op_writes(data, offset),
        0x20 | 0x22 | 0x24 | 0x26 | 0x28 | 0x2A | 0x2C | 0x2E => decode_op_conditional(data, offset),
        0x40 | 0x42 | 0x44 | 0x46 | 0x48 | 0x4A | 0x4C | 0x4E => decode_op_base_pointer(
            data,
            offset,
        ),
        0x60 | 0x62 | 0x64 | 0x66 | 0x68 => decode_op_flow(data, offset),
        0x80 | 0x82 | 0x84 | 0x86 | 0x88 | 0x8A | 0x8C => decode_op_gecko(data, offset),
        0xC0 | 0xC2 => decode_op_ppc(data, offset),
        0xE0 | 0xE2 => decode_op_terminator(data, offset),
        _ => None,
    }
}

/// How one nesting level of the assembly stops.
pub ghost enum LevelEnd {
    /// The stream ran out, hit an end-of-program row, a malformed row,
    /// or an unterminated inner conditional: nothing follows at this
    /// level.
    RanOut,
    /// A terminator row closed this level: how many levels it pops in
    /// all, the offset just past it, and its reset fields.
    Ended {
        count: EndIfCount,
        next: int,
        reset_base_address_high: u16,
        reset_pointer_address_high: u16,
    },
}

/// One conditional popped: the remaining pop count of a terminator.
pub open spec fn dec_pop(c: EndIfCount) -> EndIfCount {
    match c {
        EndIfCount::Infinite => EndIfCount::Infinite,
        EndIfCount::Finite(x) => EndIfCount::Finite((x - 1) as u8),
    }
}

/// Whether a pop count pops at least one further level.
pub open spec fn pops_more(c: EndIfCount) -> bool {
    match c {
        EndIfCount::Infinite => true,
        EndIfCount::Finite(x) => x > 0,
    }
}

/// Mathematical model of a `WiiRDCode`: the same cases with byte
/// payloads abstracted to sequences and nested blocks to sequences of
/// models.
pub ghost enum CodeModel {
    WriteAndFill8 { use_base_address: bool, address: u32, value: u8, length: u32 },
    WriteAndFill16 { use_base_address: bool, address: u32, value: u16, length: u32 },
    WriteAndFill32 { use_base_address: bool, address: u32, value: u32 },
    StringWrite { use_base_address: bool, address: u32, values: Seq<u8> },
    SerialWrite {
        use_base_address: bool,
        address: u32,
        initial_value: u32,
        value_size: u8,
        count: u16,
        address_increment: u16,
        value_increment: u32,
    },
    IfStatement {
        test: IfTest,
        then_branch: Seq<CodeModel>,
        else_branch: Option<Seq<CodeModel>>,
        insert_endif: bool,
        reset_base_address_high: u16,
        reset_pointer_address_high: u16,
    },
    LoadBaseAddress {
        add_result: bool,
        add_mem_address: AddAddress,
        add_mem_address_gecko_register: Option<u8>,
        mem_address: u32,
    },
    SetBaseAddress { add_result: bool, add: AddAddress, add_gecko_register: Option<u8>, value: u32 },
    StoreBaseAddress {
        add_mem_address: AddAddress,
        add_mem_address_gecko_register: Option<u8>,
        mem_address: u32,
    },
    SetBaseAddressToCodeLocation { address_offset: i16 },
    LoadPointerAddress {
        add_result: bool,
        add_mem_address: AddAddress,
        add_mem_address_gecko_register: Option<u8>,
        mem_address: u32,
    },
    SetPointerAddress {
        add_result: bool,
        add: AddAddress,
        add_gecko_register: Option<u8>,
        value: u32,
    },
    StorePointerAddress {
        add_mem_address: AddAddress,
        add_mem_address_gecko_register: Option<u8>,
        mem_address: u32,
    },
    SetPointerAddressToCodeLocation { address_offset: i16 },
    SetRepeat { count: u16, block_id: u8 },
    ExecuteRepeat { block_id: u8 },
    Return { flag: JumpFlag, block_id: u8 },
    Goto { flag: JumpFlag, offset_lines: i16 },
    Subroutine { flag: JumpFlag, offset_lines: i16, block_id: u8 },
    SetGeckoRegister { add_result: bool, add: AddAddress, register: u8, value: u32 },
    LoadGeckoRegister { register: u8, mem_address: u32 },
    StoreGeckoRegister { register: u8, mem_address: u32 },
    OperationGeckoRegisterDirectValue {
        operation: GeckoOperation,
        load_register: bool,
        load_value: bool,
        register: u8,
        value: u32,
    },
    OperationGeckoRegister {
        operation: GeckoOperation,
        load_register1: bool,
        load_register2: bool,
        register1: u8,
        register2: u8,
    },
    MemoryCopy1 {
        use_base_address: bool,
        count: u16,
        source_register: u8,
        dest_register: Option<u8>,
        dest_offset: u32,
    },
    MemoryCopy2 {
        use_base_address: bool,
        count: u16,
        source_register: Option<u8>,
        dest_register: u8,
        source_offset: u32,
    },
    ExecutePPC { instruction_data: Seq<u8> },
    InsertPPC { use_base_address: bool, address: u32, instruction_data: Seq<u8> },
    ResetAddressHigh { reset_base_address_high: u16, reset_pointer_address_high: u16 },
    Else { endif_count: u8, reset_base_address_high: u16, reset_pointer_address_high: u16 },
}

/// The models of a run of codes, in order.
pub open spec fn codes_model(s: Seq<WiiRDCode>) -> Seq<CodeModel>
    decreases s,
{
    Seq::new(
        s.len(),
        |i: int|
            if 0 <= i < s.len() {
                code_model(s[i])
            } else {
                // out of range: never reached by a sequence of this length
                CodeModel::ResetAddressHigh { reset_base_address_high: 0, reset_pointer_address_high: 0 }
            },
    )
}

/// The model of one code.
pub open spec fn code_model(c: WiiRDCode) -> CodeModel
    decreases c,
{
    match c {
        WiiRDCode::WriteAndFill8 { use_base_address, address, value, length } => CodeModel::WriteAndFill8 { use_base_address, address, value, length },
        WiiRDCode::WriteAndFill16 { use_base_address, address, value, length } => CodeModel::WriteAndFill16 { use_base_address, address, value, length },
        WiiRDCode::WriteAndFill32 { use_base_address, address, value } => CodeModel::WriteAndFill32 { use_base_address, address, value },
        WiiRDCode::StringWrite { use_base_address, address, values } => CodeModel::StringWrite { use_base_address, address, values: values@ },
        WiiRDCode::SerialWrite {
            use_base_address,
            address,
            initial_value,
            value_size,
            count,
            address_increment,
            value_increment,
        } => CodeModel::SerialWrite {
            use_base_address,
            address,
            initial_value,
            value_size,
            count,
            address_increment,
            value_increment,
        },
        WiiRDCode::IfStatement {
            test,
            then_branch,
            else_branch,
            insert_endif,
            reset_base_address_high,
            reset_pointer_address_high,
        } => CodeModel::IfStatement {
            test,
            then_branch: codes_model(then_branch.codes@),
            else_branch: match else_branch {
                Some(b) => Some(codes_model(b.codes@)),
                None => None,
            },
            insert_endif,
            reset_base_address_high,
            reset_pointer_address_high,
        },
        WiiRDCode::LoadBaseAddress { add_result, add_mem_address, add_mem_address_gecko_register, mem_address } => CodeModel::LoadBaseAddress { add_result, add_mem_address, add_mem_address_gecko_register, mem_address },
        WiiRDCode::SetBaseAddress { add_result, add, add_gecko_register, value } => CodeModel::SetBaseAddress { add_result, add, add_gecko_register, value },
        WiiRDCode::StoreBaseAddress { add_mem_address, add_mem_address_gecko_register, mem_address } => CodeModel::StoreBaseAddress { add_mem_address, add_mem_address_gecko_register, mem_address },
        WiiRDCode::SetBaseAddressToCodeLocation { address_offset } => CodeModel::SetBaseAddressToCodeLocation { address_offset },
        WiiRDCode::LoadPointerAddress { add_result, add_mem_address, add_mem_address_gecko_register, mem_address } => CodeModel::LoadPointerAddress { add_result, add_mem_address, add_mem_address_gecko_register, mem_address },
        WiiRDCode::SetPointerAddress { add_result, add, add_gecko_register, value } => CodeModel::SetPointerAddress { add_result, add, add_gecko_register, value },
        WiiRDCode::StorePointerAddress { add_mem_address, add_mem_address_gecko_register, mem_address } => CodeModel::StorePointerAddress { add_mem_address, add_mem_address_gecko_register, mem_address },
        WiiRDCode::SetPointerAddressToCodeLocation { address_offset } => CodeModel::SetPointerAddressToCodeLocation { address_offset },
        WiiRDCode::SetRepeat { count, block_id } => CodeModel::SetRepeat { count, block_id },
        WiiRDCode::ExecuteRepeat { block_id } => CodeModel::ExecuteRepeat { block_id },
        WiiRDCode::Return { flag, block_id } => CodeModel::Return { flag, block_id },
        WiiRDCode::Goto { flag, offset_lines } => CodeModel::Goto { flag, offset_lines },
        WiiRDCode::Subroutine { flag, offset_lines, block_id } => CodeModel::Subroutine { flag, offset_lines, block_id },
        WiiRDCode::SetGeckoRegister { add_result, add, register, value } => CodeModel::SetGeckoRegister { add_result, add, register, value },
        WiiRDCode::LoadGeckoRegister { register, mem_address } => CodeModel::LoadGeckoRegister { register, mem_address },
        WiiRDCode::StoreGeckoRegister { register, mem_address } => CodeModel::StoreGeckoRegister { register, mem_address },
        WiiRDCode::OperationGeckoRegisterDirectValue { operation, load_register, load_value, register, value } => CodeModel::OperationGeckoRegisterDirectValue { operation, load_register, load_value, register, value },
        WiiRDCode::OperationGeckoRegister { operation, load_register1, load_register2, register1, register2 } => CodeModel::OperationGeckoRegister { operation, load_register1, load_register2, register1, register2 },
        WiiRDCode::MemoryCopy1 { use_base_address, count, source_register, dest_register, dest_offset } => CodeModel::MemoryCopy1 { use_base_address, count, source_register, dest_register, dest_offset },
        WiiRDCode::MemoryCopy2 { use_base_address, count, source_register, dest_register, source_offset } => CodeModel::MemoryCopy2 { use_base_address, count, source_register, dest_register, source_offset },
        WiiRDCode::ExecutePPC { instruction_data } => CodeModel::ExecutePPC { instruction_data: instruction_data@ },
        WiiRDCode::InsertPPC { use_base_address, address, instruction_data } => CodeModel::InsertPPC { use_base_address, address, instruction_data: instruction_data@ },
        WiiRDCode::ResetAddressHigh { reset_base_address_high, reset_pointer_address_high } => CodeModel::ResetAddressHigh { reset_base_address_high, reset_pointer_address_high },
        WiiRDCode::Else { endif_count, reset_base_address_high, reset_pointer_address_high } => CodeModel::Else { endif_count, reset_base_address_high, reset_pointer_address_high },
    }
}

/// The functional classification of one row: what `op_at` pins, as a
/// value the assembler's specification can compute with.
pub ghost enum OpClass {
    /// Truncated row, unknown discriminant, payload past the end, or a
    /// bad jump flag.
    Bad,
    /// A self-contained code covering `len` bytes of the stream.
    Emit { code: CodeModel, len: int },
    /// A conditional opener.
    Cond { test: IfTest, insert_endif: bool },
    /// A goto row; whether it is emitted or elided is the assembler's
    /// decision.
    Jump { flag: JumpFlag, offset_lines: i16 },
    /// An E0 terminator.
    EndLevel { reset_base_address_high: u16, reset_pointer_address_high: u16 },
    /// An E2 terminator with a finite count.
    EndCount {
        else_branch: bool,
        count: u8,
        reset_base_address_high: u16,
        reset_pointer_address_high: u16,
    },
    /// An F0 row.
    EndProgram,
}

/// Classifies the row at `off` of `d`, as a function of the bytes.
pub open spec fn spec_op(d: Seq<u8>, off: int) -> OpClass {
    if !op_ok(d, off) {
        OpClass::Bad
    } else {
        let code = op_discriminant(d, off);
        let use_base_address = op_use_base_address(d, off);
        let address = op_address(d, off);
        if code == 0x00 {
            OpClass::Emit {
                code: CodeModel::WriteAndFill8 {
                    use_base_address,
                    address,
                    value: d[off + 7],
                    length: (be_u16(d, off + 4) + 1) as u32,
                },
                len: 8,
            }
        } else if code == 0x02 {
            OpClass::Emit {
                code: CodeModel::WriteAndFill16 {
                    use_base_address,
                    address,
                    value: be_u16(d, off + 6),
                    length: (be_u16(d, off + 4) + 1) as u32,
                },
                len: 8,
            }
        } else if code == 0x04 {
            OpClass::Emit {
                code: CodeModel::WriteAndFill32 {
                    use_base_address,
                    address,
                    value: be_u32(d, off + 4),
                },
                len: 8,
            }
        } else if code == 0x06 {
            let count = be_u32(d, off + 4) as int;
            let pad = if count % 8 == 0 {
                0int
            } else {
                8 - count % 8
            };
            OpClass::Emit {
                code: CodeModel::StringWrite {
                    use_base_address,
                    address,
                    values: d.subrange(off + 8, off + 8 + count),
                },
                len: if off + 8 + count + pad <= d.len() {
                    8 + count + pad
                } else {
                    d.len() - off
                },
            }
        } else if code == 0x08 {
            OpClass::Emit {
                code: CodeModel::SerialWrite {
                    use_base_address,
                    address,
                    initial_value: be_u32(d, off + 4),
                    value_size: d[off + 8],
                    count: ((be_u16(d, off + 8) & 0x0FFF) + 1) as u16,
                    address_increment: be_u16(d, off + 10),
                    value_increment: be_u32(d, off + 12),
                },
                len: 16,
            }
        } else if code == 0x20 || code == 0x22 || code == 0x24 || code == 0x26 || code == 0x28
            || code == 0x2A || code == 0x2C || code == 0x2E {
            OpClass::Cond { test: spec_if_test(d, off), insert_endif: spec_insert_endif(d, off) }
        } else if code == 0x40 {
            OpClass::Emit {
                code: CodeModel::LoadBaseAddress {
                    add_result: d[off + 1] & 0x10 != 0,
                    add_mem_address: spec_add_address(d[off + 1] & 0x01 != 0, use_base_address),
                    add_mem_address_gecko_register: spec_opt_register(
                        d[off + 2] & 0x10 != 0,
                        d[off + 3] & 0x0F,
                    ),
                    mem_address: be_u32(d, off + 4),
                },
                len: 8,
            }
        } else if code == 0x42 {
            OpClass::Emit {
                code: CodeModel::SetBaseAddress {
                    add_result: d[off + 1] & 0x10 != 0,
                    add: spec_add_address(d[off + 1] & 0x01 != 0, use_base_address),
                    add_gecko_register: spec_opt_register(d[off + 2] & 0x10 != 0, d[off + 3] & 0x0F),
                    value: be_u32(d, off + 4),
                },
                len: 8,
            }
        } else if code == 0x44 {
            OpClass::Emit {
                code: CodeModel::StoreBaseAddress {
                    add_mem_address: spec_add_address(d[off + 1] & 0x01 != 0, use_base_address),
                    add_mem_address_gecko_register: spec_opt_register(
                        d[off + 2] & 0x10 != 0,
                        d[off + 3] & 0x0F,
                    ),
                    mem_address: be_u32(d, off + 4),
                },
                len: 8,
            }
        } else if code == 0x46 {
            OpClass::Emit {
                code: CodeModel::SetBaseAddressToCodeLocation { address_offset: be_i16(d, off + 2) },
                len: 8,
            }
        } else if code == 0x48 {
            OpClass::Emit {
                code: CodeModel::LoadPointerAddress {
                    add_result: d[off + 1] & 0x10 != 0,
                    add_mem_address: spec_add_address(d[off + 1] & 0x01 != 0, use_base_address),
                    add_mem_address_gecko_register: spec_opt_register(
                        d[off + 2] & 0x10 != 0,
                        d[off + 3] & 0x0F,
                    ),
                    mem_address: be_u32(d, off + 4),
                },
                len: 8,
            }
        } else if code == 0x4A {
            OpClass::Emit {
                code: CodeModel::SetPointerAddress {
                    add_result: d[off + 1] & 0x10 != 0,
                    add: spec_add_address(d[off + 1] & 0x01 != 0, use_base_address),
                    add_gecko_register: spec_opt_register(d[off + 2] & 0x10 != 0, d[off + 3] & 0x0F),
                    value: be_u32(d, off + 4),
                },
                len: 8,
            }
        } else if code == 0x4C {
            OpClass::Emit {
                code: CodeModel::StorePointerAddress {
                    add_mem_address: spec_add_address(d[off + 1] & 0x01 != 0, use_base_address),
                    add_mem_address_gecko_register: spec_opt_register(
                        d[off + 2] & 0x10 != 0,
                        d[off + 3] & 0x0F,
                    ),
                    mem_address: be_u32(d, off + 4),
                },
                len: 8,
            }
        } else if code == 0x4E {
            OpClass::Emit {
                code: CodeModel::SetPointerAddressToCodeLocation {
                    address_offset: be_i16(d, off + 2),
                },
                len: 8,
            }
        } else if code == 0x60 {
            OpClass::Emit {
                code: CodeModel::SetRepeat { count: be_u16(d, off + 2), block_id: d[off + 7] },
                len: 8,
            }
        } else if code == 0x62 {
            OpClass::Emit { code: CodeModel::ExecuteRepeat { block_id: d[off + 7] & 0x0F }, len: 8 }
        } else if code == 0x64 {
            match spec_jump_flag(d[off + 1]) {
                Some(flag) => OpClass::Emit {
                    code: CodeModel::Return { flag, block_id: d[off + 7] & 0x0F },
                    len: 8,
                },
                None => OpClass::Bad,
            }
        } else if code == 0x66 {
            match spec_jump_flag(d[off + 1]) {
                Some(flag) => OpClass::Jump { flag, offset_lines: be_i16(d, off + 2) },
                None => OpClass::Bad,
            }
        } else if code == 0x68 {
            match spec_jump_flag(d[off + 1]) {
                Some(flag) => OpClass::Emit {
                    code: CodeModel::Subroutine {
                        flag,
                        offset_lines: be_i16(d, off + 2),
                        block_id: d[off + 7] & 0x0F,
                    },
                    len: 8,
                },
                None => OpClass::Bad,
            }
        } else if code == 0x80 {
            OpClass::Emit {
                code: CodeModel::SetGeckoRegister {
                    add_result: d[off + 1] & 0x10 != 0,
                    add: spec_add_address(d[off + 1] & 0x01 != 0, use_base_address),
                    register: d[off + 3] & 0x0F,
                    value: be_u32(d, off + 4),
                },
                len: 8,
            }
        } else if code == 0x82 {
            OpClass::Emit {
                code: CodeModel::LoadGeckoRegister {
                    register: d[off + 3] & 0x0F,
                    mem_address: be_u32(d, off + 4),
                },
                len: 8,
            }
        } else if code == 0x84 {
            OpClass::Emit {
                code: CodeModel::StoreGeckoRegister {
                    register: d[off + 3] & 0x0F,
                    mem_address: be_u32(d, off + 4),
                },
                len: 8,
            }
        } else if code == 0x86 {
            OpClass::Emit {
                code: CodeModel::OperationGeckoRegisterDirectValue {
                    operation: spec_gecko_operation(d[off + 1] >> 4),
                    load_register: d[off + 1] & 0x01 != 0,
                    load_value: d[off + 1] & 0x02 != 0,
                    register: d[off + 3] & 0x0F,
                    value: be_u32(d, off + 4),
                },
                len: 8,
            }
        } else if code == 0x88 {
            OpClass::Emit {
                code: CodeModel::OperationGeckoRegister {
                    operation: spec_gecko_operation(d[off + 1] >> 4),
                    load_register1: d[off + 1] & 0x01 != 0,
                    load_register2: d[off + 1] & 0x02 != 0,
                    register1: d[off + 3] & 0x0F,
                    register2: d[off + 7] & 0x0F,
                },
                len: 8,
            }
        } else if code == 0x8A {
            OpClass::Emit {
                code: CodeModel::MemoryCopy1 {
                    use_base_address,
                    count: be_u16(d, off + 1),
                    source_register: d[off + 3] & 0xF0,
                    dest_register: if d[off + 3] & 0x0F == 0x0F {
                        None
                    } else {
                        Some(d[off + 3] & 0x0F)
                    },
                    dest_offset: be_u32(d, off + 4),
                },
                len: 8,
            }
        } else if code == 0x8C {
            OpClass::Emit {
                code: CodeModel::MemoryCopy2 {
                    use_base_address,
                    count: be_u16(d, off + 1),
                    source_register: if d[off + 3] & 0xF0 == 0xF0 {
                        None
                    } else {
                        Some(d[off + 3] & 0xF0)
                    },
                    dest_register: d[off + 3] & 0x0F,
                    source_offset: be_u32(d, off + 4),
                },
                len: 8,
            }
        } else if code == 0xC0 {
            let count = be_u32(d, off + 4) as int;
            OpClass::Emit {
                code: CodeModel::ExecutePPC {
                    instruction_data: d.subrange(off + 8, off + 8 + count * 8),
                },
                len: 8 + count * 8,
            }
        } else if code == 0xC2 {
            let count = be_u32(d, off + 4) as int;
            OpClass::Emit {
                code: CodeModel::InsertPPC {
                    use_base_address,
                    address,
                    instruction_data: d.subrange(off + 8, off + 8 + count * 8),
                },
                len: 8 + count * 8,
            }
        } else if code == 0xE0 {
            if use_base_address {
                OpClass::EndLevel {
                    reset_base_address_high: be_u16(d, off + 4),
                    reset_pointer_address_high: be_u16(d, off + 6),
                }
            } else {
                // an F0 row masks into this family with its base/pointer
                // bit set
                OpClass::EndProgram
            }
        } else if code == 0xE2 {
            OpClass::EndCount {
                else_branch: d[off + 1] & 0x10 != 0,
                count: d[off + 3],
                reset_base_address_high: be_u16(d, off + 4),
                reset_pointer_address_high: be_u16(d, off + 6),
            }
        } else {
            OpClass::Bad
        }
    }
}

/// What one nesting level of the assembly produces: the codes it emits
/// from a given offset on, and how it stops.
pub ghost struct LevelOut {
    pub emits: Seq<CodeModel>,
    pub end: LevelEnd,
}

/// The assembly of one nesting level of the code stream, from `from`
/// on: the normative description of the block assembler.  A nested
/// level stops at the terminator row that closes it; otherwise the
/// level keeps what it has decoded when the stream ends, turns
/// malformed, hits an end-of-program row, or an inner conditional never
/// terminates.  The guards on `len` and `next` can never fail for a
/// classified row; they keep the recursion well founded.
pub open spec fn spec_assemble(d: Seq<u8>, from: int, is_nested: bool) -> LevelOut
    decreases d.len() - from,
{
    if from < 0 || from + 8 > d.len() {
        LevelOut { emits: Seq::empty(), end: LevelEnd::RanOut }
    } else {
        match spec_op(d, from) {
            OpClass::Bad => LevelOut { emits: Seq::empty(), end: LevelEnd::RanOut },
            OpClass::EndProgram => LevelOut { emits: Seq::empty(), end: LevelEnd::RanOut },
            OpClass::Emit { code, len } => {
                if len < 8 || from + len > d.len() {
                    LevelOut { emits: Seq::empty(), end: LevelEnd::RanOut }
                } else {
                    let rest = spec_assemble(d, from + len, is_nested);
                    LevelOut { emits: seq![code] + rest.emits, end: rest.end }
                }
            },
            OpClass::Jump { flag, offset_lines } => {
                if flag == JumpFlag::Always && offset_lines >= 0 {
                    // elided: the row declares a data section of that
                    // many lines, skipped without emitting a code
                    let next = if from + 8 + 8 * offset_lines <= d.len() {
                        from + 8 + 8 * offset_lines
                    } else {
                        d.len() as int
                    };
                    spec_assemble(d, next, is_nested)
                } else {
                    let rest = spec_assemble(d, from + 8, is_nested);
                    LevelOut {
                        emits: seq![CodeModel::Goto { flag, offset_lines }] + rest.emits,
                        end: rest.end,
                    }
                }
            },
            OpClass::Cond { test, insert_endif } => {
                let inner = spec_assemble(d, from + 8, true);
                match inner.end {
                    LevelEnd::RanOut => {
                        // unterminated conditional: the level keeps what
                        // it has (nothing more from here)
                        LevelOut { emits: Seq::empty(), end: LevelEnd::RanOut }
                    },
                    LevelEnd::Ended {
                        count,
                        next,
                        reset_base_address_high,
                        reset_pointer_address_high,
                    } => {
                        let if_code = CodeModel::IfStatement {
                            test,
                            then_branch: inner.emits,
                            else_branch: None,
                            insert_endif,
                            reset_base_address_high,
                            reset_pointer_address_high,
                        };
                        if pops_more(dec_pop(count)) && is_nested {
                            LevelOut {
                                emits: seq![if_code],
                                end: LevelEnd::Ended {
                                    count: dec_pop(count),
                                    next,
                                    reset_base_address_high,
                                    reset_pointer_address_high,
                                },
                            }
                        } else if next <= from + 8 || next > d.len() {
                            LevelOut { emits: Seq::empty(), end: LevelEnd::RanOut }
                        } else {
                            let rest = spec_assemble(d, next, is_nested);
                            LevelOut {
                                emits: seq![
                                    if_code,
                                    CodeModel::ResetAddressHigh {
                                        reset_base_address_high,
                                        reset_pointer_address_high,
                                    },
                                ] + rest.emits,
                                end: rest.end,
                            }
                        }
                    },
                }
            },
            OpClass::EndLevel { reset_base_address_high, reset_pointer_address_high } => {
                if is_nested {
                    LevelOut {
                        emits: Seq::empty(),
                        end: LevelEnd::Ended {
                            count: EndIfCount::Infinite,
                            next: from + 8,
                            reset_base_address_high,
                            reset_pointer_address_high,
                        },
                    }
                } else {
                    let rest = spec_assemble(d, from + 8, is_nested);
                    LevelOut {
                        emits: seq![
                            CodeModel::ResetAddressHigh {
                                reset_base_address_high,
                                reset_pointer_address_high,
                            },
                        ] + rest.emits,
                        end: rest.end,
                    }
                }
            },
            OpClass::EndCount {
                else_branch,
                count,
                reset_base_address_high,
                reset_pointer_address_high,
            } => {
                if is_nested && count != 0 {
                    LevelOut {
                        emits: if else_branch {
                            seq![
                                CodeModel::Else {
                                    endif_count: count,
                                    reset_base_address_high,
                                    reset_pointer_address_high,
                                },
                            ]
                        } else {
                            Seq::empty()
                        },
                        end: LevelEnd::Ended {
                            count: EndIfCount::Finite(count),
                            next: from + 8,
                            reset_base_address_high,
                            reset_pointer_address_high,
                        },
                    }
                } else {
                    let pre: Seq<CodeModel> = if else_branch {
                        seq![
                            CodeModel::Else {
                                endif_count: count,
                                reset_base_address_high,
                                reset_pointer_address_high,
                            },
                        ]
                    } else {
                        Seq::empty()
                    };
                    let echo: Seq<CodeModel> = if is_nested {
                        // a zero count at a nested level: no reset echo
                        Seq::empty()
                    } else {
                        seq![
                            CodeModel::ResetAddressHigh {
                                reset_base_address_high,
                                reset_pointer_address_high,
                            },
                        ]
                    };
                    let rest = spec_assemble(d, from + 8, is_nested);
                    LevelOut { emits: pre + echo + rest.emits, end: rest.end }
                }
            },
        }
    }
}

/// The block tree a whole code stream decodes to, beginning at `start`.
pub open spec fn spec_wiird_codes(d: Seq<u8>, start: int) -> Seq<CodeModel> {
    spec_assemble(d, start, false).emits
}

/// The exact classifier and the functional one agree: what `op_at` pins
/// for a row is what `spec_op` computes.
proof fn lemma_op_class(d: Seq<u8>, off: int, step: OpStep, len: int)
    requires
        op_ok(d, off),
        op_at(d, off, step, len),
    ensures
        match step {
            OpStep::Code(c) => spec_op(d, off) == OpClass::Emit { code: code_model(c), len },
            OpStep::If { test, insert_endif } => spec_op(d, off) == OpClass::Cond {
                test,
                insert_endif,
            } && len == 8,
            OpStep::Goto { flag, offset_lines } => spec_op(d, off) == OpClass::Jump {
                flag,
                offset_lines,
            } && len == 8,
            OpStep::EndIfInfinite { reset_base_address_high, reset_pointer_address_high } => spec_op(
                d,
                off,
            ) == OpClass::EndLevel { reset_base_address_high, reset_pointer_address_high } && len
                == 8,
            OpStep::EndIfFinite {
                else_branch,
                count,
                reset_base_address_high,
                reset_pointer_address_high,
            } => spec_op(d, off) == OpClass::EndCount {
                else_branch,
                count,
                reset_base_address_high,
                reset_pointer_address_high,
            } && len == 8,
            OpStep::EndOfProgram => spec_op(d, off) == OpClass::EndProgram && len == 8,
        },
{
}

/// What one nesting level of the assembler produced: either the stream
/// ran out (or hit end-of-program, or an error), or a terminator row
/// closed this level with a possibly multi-level pop count.
enum ProcessedBlock {
    Finished(WiiRDBlock),
    EndIf {
        count: EndIfCount,
        then_branch: WiiRDBlock,
        bytes_processed: usize,
        reset_base_address_high: u16,
        reset_pointer_address_high: u16,
    },
}

/// The models of a run of codes grow one code at a time.
proof fn lemma_codes_model_push(s: Seq<WiiRDCode>, c: WiiRDCode)
    ensures
        codes_model(s.push(c)) == codes_model(s).push(code_model(c)),
{
    assert(codes_model(s.push(c)) =~= codes_model(s).push(code_model(c)));
}

/// Rebuilds the block tree from the flat opcode stream, starting at
/// `start`, and matches `spec_assemble` row for row.  A nested call
/// ends at the terminator row that closes its conditional; the
/// top-level call ends at end-of-program or when the stream runs out.
/// On any malformed row the partial block decoded so far is returned.
#[verifier::rlimit(100)]
fn process_block(data: &[u8], start: usize, is_nested: bool) -> (r: ProcessedBlock)
    requires
        start <= data@.len(),
    ensures
        match r {
            ProcessedBlock::Finished(b) => {
                &&& block_test_addresses_even(b)
                &&& spec_assemble(data@, start as int, is_nested).emits == codes_model(b.codes@)
                &&& spec_assemble(data@, start as int, is_nested).end == LevelEnd::RanOut
            },
            ProcessedBlock::EndIf {
                count,
                then_branch,
                bytes_processed,
                reset_base_address_high,
                reset_pointer_address_high,
            } => {
                &&& is_nested
                &&& block_test_addresses_even(then_branch)
                &&& 8 <= bytes_processed
                &&& start + bytes_processed <= data@.len()
                &&& (count matches EndIfCount::Finite(x) ==> x >= 1)
                &&& spec_assemble(data@, start as int, is_nested).emits == codes_model(
                    then_branch.codes@,
                )
                &&& spec_assemble(data@, start as int, is_nested).end == LevelEnd::Ended {
                    count,
                    next: start + bytes_processed,
                    reset_base_address_high,
                    reset_pointer_address_high,
                }
            },
        },
    decreases data@.len() - start,
{
    let n = data.len();
    let mut codes: Vec<WiiRDCode> = Vec::new();
    let mut offset: usize = start;
    proof {
        assert(codes_model(codes@) =~= Seq::<CodeModel>::empty());
        assert(codes_model(codes@) + spec_assemble(data@, start as int, is_nested).emits
            =~= spec_assemble(data@, start as int, is_nested).emits);
    }
    while offset < n
        invariant
            n == data@.len(),
            start <= offset <= n,
            forall|i: int|
                0 <= i < codes@.len() ==> code_test_addresses_even(#[trigger] codes@[i]),
            spec_assemble(data@, start as int, is_nested).emits == codes_model(codes@)
                + spec_assemble(data@, offset as int, is_nested).emits,
            spec_assemble(data@, start as int, is_nested).end == spec_assemble(
                data@,
                offset as int,
                is_nested,
            ).end,
        decreases n - offset,
    {
        let ghost d = data@;
        let ghost off0 = offset as int;
        let ghost codes0 = codes@;
        let (step, len) = match decode_op(data, offset) {
            Some(r) => r,
            None => {
                // unknown opcode, bad jump flag or truncated payload:
                // nothing past this row can be located, so keep what has
                // been decoded
                proof {
                    assert(spec_assemble(d, off0, is_nested).emits =~= Seq::<CodeModel>::empty());
                    assert(codes_model(codes0) + Seq::<CodeModel>::empty() =~= codes_model(codes0));
                }
                return ProcessedBlock::Finished(WiiRDBlock { codes });
            },
        };
        proof {
            lemma_op_class(d, off0, step, len as int);
        }
        match step {
            OpStep::Code(c) => {
                proof {
                    let s1 = spec_assemble(d, off0 + len, is_nested);
                    lemma_codes_model_push(codes0, c);
                    assert(codes_model(codes0) + (seq![code_model(c)] + s1.emits) =~= codes_model(
                        codes0.push(c),
                    ) + s1.emits);
                }
                codes.push(c);
                offset = offset + len;
            },
            OpStep::If { test, insert_endif } => {
                offset = offset + len;
                match process_block(data, offset, true) {
                    ProcessedBlock::EndIf {
                        count,
                        then_branch,
                        bytes_processed,
                        reset_base_address_high,
                        reset_pointer_address_high,
                    } => {
                        offset = offset + bytes_processed;
                        let else_branch = None;
                        proof {
                            let a = op_address(data@, off0);
                            assert(((a & 0xFFFF_FFFEu32) % 2) == 0) by (bit_vector);
                        }
                        let code = WiiRDCode::IfStatement {
                            test,
                            then_branch,
                            else_branch,
                            insert_endif,
                            reset_base_address_high,
                            reset_pointer_address_high,
                        };
                        proof {
                            let s1 = spec_assemble(d, offset as int, is_nested);
                            lemma_codes_model_push(codes0, code);
                            lemma_codes_model_push(
                                codes0.push(code),
                                WiiRDCode::ResetAddressHigh {
                                    reset_base_address_high,
                                    reset_pointer_address_high,
                                },
                            );
                            let ifm = code_model(code);
                            let rsm = code_model(
                                WiiRDCode::ResetAddressHigh {
                                    reset_base_address_high,
                                    reset_pointer_address_high,
                                },
                            );
                            assert(codes_model(codes0) + (seq![ifm, rsm] + s1.emits)
                                =~= codes_model(codes0).push(ifm).push(rsm) + s1.emits);
                            assert(codes_model(codes0) + seq![ifm] =~= codes_model(codes0).push(
                                ifm,
                            ));
                        }
                        codes.push(code);
                        let count = match count {
                            EndIfCount::Infinite => EndIfCount::Infinite,
                            EndIfCount::Finite(x) => EndIfCount::Finite(x - 1),
                        };
                        let multi_endif = match count {
                            EndIfCount::Infinite => true,
                            EndIfCount::Finite(x) => x > 0,
                        };
                        if multi_endif && is_nested {
                            let then_branch = WiiRDBlock { codes };
                            return ProcessedBlock::EndIf {
                                count,
                                then_branch,
                                bytes_processed: offset - start,
                                reset_base_address_high,
                                reset_pointer_address_high,
                            };
                        } else {
                            codes.push(
                                WiiRDCode::ResetAddressHigh {
                                    reset_base_address_high,
                                    reset_pointer_address_high,
                                },
                            );
                        }
                    },
                    ProcessedBlock::Finished(_) => {
                        // the conditional never found its terminator:
                        // abort this block with what has been accumulated
                        proof {
                            assert(codes_model(codes0) + Seq::<CodeModel>::empty() =~= codes_model(
                                codes0,
                            ));
                        }
                        return ProcessedBlock::Finished(WiiRDBlock { codes });
                    },
                }
            },
            OpStep::Goto { flag, offset_lines } => {
                offset = offset + len;
                if flag == JumpFlag::Always && offset_lines >= 0 {
                    // an unconditional forward goto declares an embedded
                    // data section: skip it without emitting a code
                    let skip = 8 * (offset_lines as usize);
                    offset = if skip <= n - offset {
                        offset + skip
                    } else {
                        n
                    };
                } else {
                    proof {
                        let g = WiiRDCode::Goto { flag, offset_lines };
                        let s1 = spec_assemble(d, off0 + 8, is_nested);
                        lemma_codes_model_push(codes0, g);
                        assert(codes_model(codes0) + (seq![code_model(g)] + s1.emits)
                            =~= codes_model(codes0.push(g)) + s1.emits);
                    }
                    codes.push(WiiRDCode::Goto { flag, offset_lines });
                }
            },
            OpStep::EndIfInfinite { reset_base_address_high, reset_pointer_address_high } => {
                offset = offset + len;
                if is_nested {
                    return ProcessedBlock::EndIf {
                        count: EndIfCount::Infinite,
                        then_branch: WiiRDBlock { codes },
                        bytes_processed: offset - start,
                        reset_base_address_high,
                        reset_pointer_address_high,
                    };
                } else {
                    proof {
                        let rs = WiiRDCode::ResetAddressHigh {
                            reset_base_address_high,
                            reset_pointer_address_high,
                        };
                        let s1 = spec_assemble(d, off0 + 8, is_nested);
                        lemma_codes_model_push(codes0, rs);
                        assert(codes_model(codes0) + (seq![code_model(rs)] + s1.emits)
                            =~= codes_model(codes0.push(rs)) + s1.emits);
                    }
                    codes.push(
                        WiiRDCode::ResetAddressHigh {
                            reset_base_address_high,
                            reset_pointer_address_high,
                        },
                    );
                }
            },
            OpStep::EndIfFinite {
                else_branch,
                count,
                reset_base_address_high,
                reset_pointer_address_high,
            } => {
                if else_branch {
                    proof {
                        lemma_codes_model_push(
                            codes0,
                            WiiRDCode::Else {
                                endif_count: count,
                                reset_base_address_high,
                                reset_pointer_address_high,
                            },
                        );
                    }
                    codes.push(
                        WiiRDCode::Else {
                            endif_count: count,
                            reset_base_address_high,
                            reset_pointer_address_high,
                        },
                    );
                }
                let ghost codes1 = codes@;
                let ghost pre: Seq<CodeModel> = if else_branch {
                    seq![
                        CodeModel::Else {
                            endif_count: count,
                            reset_base_address_high,
                            reset_pointer_address_high,
                        },
                    ]
                } else {
                    Seq::empty()
                };
                proof {
                    assert(codes_model(codes1) =~= codes_model(codes0) + pre);
                }
                offset = offset + len;
                if is_nested {
                    if count != 0 {
                        return ProcessedBlock::EndIf {
                            count: EndIfCount::Finite(count),
                            then_branch: WiiRDBlock { codes },
                            bytes_processed: offset - start,
                            reset_base_address_high,
                            reset_pointer_address_high,
                        };
                    }
                    // a zero count at a nested level: the level goes on
                    // with no reset echo
                    proof {
                        let s1 = spec_assemble(d, off0 + 8, is_nested);
                        assert(codes_model(codes0) + ((pre + Seq::<CodeModel>::empty())
                            + s1.emits) =~= codes_model(codes1) + s1.emits);
                    }
                } else {
                    proof {
                        let rs = WiiRDCode::ResetAddressHigh {
                            reset_base_address_high,
                            reset_pointer_address_high,
                        };
                        let s1 = spec_assemble(d, off0 + 8, is_nested);
                        lemma_codes_model_push(codes1, rs);
                        assert(codes_model(codes0) + ((pre + seq![code_model(rs)]) + s1.emits)
                            =~= codes_model(codes1.push(rs)) + s1.emits);
                    }
                    codes.push(
                        WiiRDCode::ResetAddressHigh {
                            reset_base_address_high,
                            reset_pointer_address_high,
                        },
                    );
                }
            },
            OpStep::EndOfProgram => {
                // end of the code stream
                proof {
                    assert(codes_model(codes0) + Seq::<CodeModel>::empty() =~= codes_model(
                        codes0,
                    ));
                }
                return ProcessedBlock::Finished(WiiRDBlock { codes });
            },
        }
    }
    proof {
        assert(spec_assemble(data@, offset as int, is_nested).emits =~= Seq::<CodeModel>::empty());
        assert(codes_model(codes@) + Seq::<CodeModel>::empty() =~= codes_model(codes@));
    }
    ProcessedBlock::Finished(WiiRDBlock { codes })
}

/// Decodes a whole code stream into its block tree: exactly the tree
/// `spec_assemble` gives for the stream.  Every test address in the
/// result has its low bit cleared.
pub fn wiird_codes(data: &[u8]) -> (b: WiiRDBlock)
    ensures
        block_test_addresses_even(b),
        codes_model(b.codes@) == spec_wiird_codes(data@, 0),
{
    match process_block(data, 0, false) {
        ProcessedBlock::Finished(block) => block,
        ProcessedBlock::EndIf { .. } => WiiRDBlock { codes: Vec::new() },
    }
}

/// Why a codeset file was rejected before decoding began.
#[derive(Clone, Copy, Debug, PartialEq, Eq, Structural)]
pub enum WiirdError {
    /// A `.gct` file smaller than its own 8-byte header.
    GctTooShort,
    /// A code line holds a character that is not a hex digit.
    NonHexCharacter,
    /// A code line holds more than 16 hex digits.
    TooManyDigits,
    /// A code line holds fewer than 16 hex digits.
    TooFewDigits,
}

/// The code bytes of a `.gct` binary codeset: everything after the
/// 8-byte magic header, which is discarded, not validated.  Fails exactly
/// when the file is smaller than its own header.
pub fn strip_gct_header(data: &[u8]) -> (r: Result<Vec<u8>, WiirdError>)
    ensures
        match r {
            Ok(v) => data@.len() >= 8 && v@ == data@.skip(8),
            Err(e) => data@.len() < 8 && e == WiirdError::GctTooShort,
        },
{
    if data.len() < 8 {
        return Err(WiirdError::GctTooShort);
    }
    let v = copy_bytes(data, 8, data.len() - 8);
    proof {
        assert(data@.subrange(8, 8 + (data@.len() - 8)) =~= data@.skip(8));
    }
    Ok(v)
}

/// Decodes a `.gct` binary codeset: 8 magic bytes (discarded, not
/// validated) followed by the code stream.  Fails exactly when the file
/// is smaller than its own header.
pub fn wiird_codes_from_gct(data: &[u8]) -> (r: Result<WiiRDBlock, WiirdError>)
    ensures
        match r {
            Ok(b) => {
                &&& data@.len() >= 8
                &&& block_test_addresses_even(b)
                &&& codes_model(b.codes@) == spec_wiird_codes(data@, 8)
            },
            Err(e) => data@.len() < 8 && e == WiirdError::GctTooShort,
        },
{
    if data.len() < 8 {
        return Err(WiirdError::GctTooShort);
    }
    match process_block(data, 8, false) {
        ProcessedBlock::Finished(block) => Ok(block),
        ProcessedBlock::EndIf { .. } => Ok(WiiRDBlock { codes: Vec::new() }),
    }
}

/// True for the sixteen ASCII hex digits.
pub open spec fn is_hex_digit(b: u8) -> bool {
    (0x30 <= b && b <= 0x39) || (0x61 <= b && b <= 0x66) || (0x41 <= b && b <= 0x46)
}

/// The numeric value of an ASCII hex digit.
pub open spec fn hex_value(b: u8) -> u8 {
    if 0x30 <= b && b <= 0x39 {
        (b - 0x30) as u8
    } else if 0x61 <= b && b <= 0x66 {
        (b - 0x61 + 10) as u8
    } else {
        (b - 0x41 + 10) as u8
    }
}

/// The index of the newline that ends the line beginning at `pos`, or
/// the end of the text if none follows.
pub open spec fn line_end(d: Seq<u8>, pos: int) -> int
    decreases d.len() - pos,
{
    if pos < 0 || pos >= d.len() {
        d.len() as int
    } else if d[pos] == 0x0Au8 {
        pos
    } else {
        line_end(d, pos + 1)
    }
}

pub proof fn lemma_line_end_at(d: Seq<u8>, pos: int, end: int)
    requires
        0 <= pos <= end <= d.len(),
        forall|k: int| pos <= k < end ==> d[k] != 0x0Au8,
        end == d.len() || d[end] == 0x0Au8,
    ensures
        line_end(d, pos) == end,
    decreases end - pos,
{
    if pos < end {
        lemma_line_end_at(d, pos + 1, end);
    }
}

/// The characters of a code line with every asterisk and space removed,
/// from index `i` on.
pub open spec fn strip_from(l: Seq<u8>, i: int) -> Seq<u8>
    decreases l.len() - i,
{
    if i < 0 || i >= l.len() {
        Seq::empty()
    } else if l[i] == 0x2Au8 || l[i] == 0x20u8 {
        strip_from(l, i + 1)
    } else {
        seq![l[i]] + strip_from(l, i + 1)
    }
}

/// Sixteen hex digits decoded to eight bytes, two digits each.
pub open spec fn hex_pairs(h: Seq<u8>) -> Seq<u8> {
    Seq::new((h.len() / 2) as nat, |i: int| (hex_value(h[2 * i]) * 16 + hex_value(h[2 * i + 1])) as u8)
}

/// What one line of a text codeset contributes.  Lines not starting with
/// an asterisk are commentary; a code line must strip to exactly 16 hex
/// digits, checked in that order: hex first, then too many, then too few.
pub open spec fn line_result(line: Seq<u8>) -> Result<Seq<u8>, WiirdError> {
    if line.len() == 0 || line[0] != 0x2Au8 {
        Ok(Seq::empty())
    } else {
        let h = strip_from(line, 0);
        if exists|i: int| 0 <= i < h.len() && !is_hex_digit(h[i]) {
            Err(WiirdError::NonHexCharacter)
        } else if h.len() > 16 {
            Err(WiirdError::TooManyDigits)
        } else if h.len() < 16 {
            Err(WiirdError::TooFewDigits)
        } else {
            Ok(hex_pairs(h))
        }
    }
}

/// The bytes encoded by the text from `pos` on: the concatenation of
/// every code line's eight bytes, or the first line error.  A line ends
/// at a newline; a carriage return before the newline is dropped.
pub open spec fn txt_from(d: Seq<u8>, pos: int) -> Result<Seq<u8>, WiirdError>
    decreases d.len() - pos + 1,
{
    if pos < 0 || pos >= d.len() {
        Ok(Seq::empty())
    } else {
        let end0 = line_end(d, pos);
        let end = if end0 < pos {
            pos
        } else if end0 > d.len() {
            d.len() as int
        } else {
            end0
        };
        let raw = d.subrange(pos, end);
        let line = if end < d.len() && raw.len() > 0 && raw.last() == 0x0Du8 {
            raw.drop_last()
        } else {
            raw
        };
        match line_result(line) {
            Err(e) => Err(e),
            Ok(b) => match txt_from(d, end + 1) {
                Err(e) => Err(e),
                Ok(rest) => Ok(b + rest),
            },
        }
    }
}

/// The bytes encoded by a whole text codeset.
pub open spec fn spec_txt_codes(d: Seq<u8>) -> Result<Seq<u8>, WiirdError> {
    txt_from(d, 0)
}

fn is_hex_digit_exec(b: u8) -> (r: bool)
    ensures
        r == is_hex_digit(b),
{
    (0x30 <= b && b <= 0x39) || (0x61 <= b && b <= 0x66) || (0x41 <= b && b <= 0x46)
}

fn hex_digit_value(b: u8) -> (r: u8)
    requires
        is_hex_digit(b),
    ensures
        r == hex_value(b),
        r < 16,
{
    if 0x30 <= b && b <= 0x39 {
        b - 0x30
    } else if 0x61 <= b && b <= 0x66 {
        b - 0x61 + 10
    } else {
        b - 0x41 + 10
    }
}

/// Decodes the line `text[pos..lend]` of a text codeset.
fn decode_hex_line(text: &[u8], pos: usize, lend: usize) -> (r: Result<Vec<u8>, WiirdError>)
    requires
        pos <= lend,
        lend <= text@.len(),
    ensures
        ({
            let line = text@.subrange(pos as int, lend as int);
            match r {
                Ok(v) => line_result(line) == Ok::<Seq<u8>, WiirdError>(v@),
                Err(e) => line_result(line) == Err::<Seq<u8>, WiirdError>(e),
            }
        }),
{
    let ghost line = text@.subrange(pos as int, lend as int);
    let n = text.len();
    if lend == pos || text[pos] != 0x2A {
        let v: Vec<u8> = Vec::new();
        assert(line.len() == 0 || line[0] != 0x2Au8);
        assert(v@ =~= Seq::<u8>::empty());
        return Ok(v);
    }
    let len = lend - pos;
    let mut h: Vec<u8> = Vec::new();
    let mut j: usize = 0;
    assert(h@ + strip_from(line, 0) =~= strip_from(line, 0));
    while j < len
        invariant
            j <= len,
            len == lend - pos,
            pos <= lend <= n,
            n == text@.len(),
            line == text@.subrange(pos as int, lend as int),
            strip_from(line, 0) == h@ + strip_from(line, j as int),
        decreases len - j,
    {
        let b = text[pos + j];
        assert(line[j as int] == b);
        if b != 0x2A && b != 0x20 {
            proof {
                assert(strip_from(line, j as int) == seq![b] + strip_from(line, j + 1));
                assert(h@.push(b) + strip_from(line, j + 1) =~= h@ + (seq![b] + strip_from(
                    line,
                    j + 1,
                )));
            }
            h.push(b);
        }
        j = j + 1;
    }
    proof {
        assert(strip_from(line, len as int) =~= Seq::<u8>::empty());
        assert(h@ + Seq::<u8>::empty() =~= h@);
    }
    let ghost stripped = strip_from(line, 0);
    assert(stripped == h@);
    let hn = h.len();
    let mut k: usize = 0;
    while k < hn
        invariant
            k <= hn,
            hn == h@.len(),
            h@ == stripped,
            line == text@.subrange(pos as int, lend as int),
            stripped == strip_from(line, 0),
            line.len() > 0 && line[0] == 0x2Au8,
            forall|t: int| 0 <= t < k ==> is_hex_digit(#[trigger] h@[t]),
        decreases hn - k,
    {
        if !is_hex_digit_exec(h[k]) {
            return Err(WiirdError::NonHexCharacter);
        }
        k = k + 1;
    }
    if hn > 16 {
        return Err(WiirdError::TooManyDigits);
    }
    if hn < 16 {
        return Err(WiirdError::TooFewDigits);
    }
    let mut v: Vec<u8> = Vec::new();
    let mut i: usize = 0;
    assert(v@ =~= hex_pairs(h@).take(0));
    while i < 8
        invariant
            i <= 8,
            hn == h@.len(),
            hn == 16,
            h@ == stripped,
            line == text@.subrange(pos as int, lend as int),
            stripped == strip_from(line, 0),
            line.len() > 0 && line[0] == 0x2Au8,
            forall|t: int| 0 <= t < 16 ==> is_hex_digit(#[trigger] h@[t]),
            v@ == hex_pairs(h@).take(i as int),
        decreases 8 - i,
    {
        let hi = hex_digit_value(h[2 * i]);
        let lo = hex_digit_value(h[2 * i + 1]);
        proof {
            assert(hex_pairs(h@).take(i + 1) =~= hex_pairs(h@).take(i as int).push(
                hex_pairs(h@)[i as int],
            ));
        }
        v.push(hi * 16 + lo);
        i = i + 1;
    }
    assert(v@ =~= hex_pairs(h@));
    Ok(v)
}

/// Parses a text codeset into its raw code bytes: each line starting
/// with an asterisk must strip to exactly 16 hex digits, which decode to
/// eight bytes; every other line is commentary.  Fails on the first bad
/// code line with the error `spec_txt_codes` gives.
#[verifier::loop_isolation(false)]
pub fn parse_txt_codes(text: &[u8]) -> (r: Result<Vec<u8>, WiirdError>)
    ensures
        match r {
            Ok(v) => spec_txt_codes(text@) == Ok::<Seq<u8>, WiirdError>(v@),
            Err(e) => spec_txt_codes(text@) == Err::<Seq<u8>, WiirdError>(e),
        },
{
    let n = text.len();
    let mut out: Vec<u8> = Vec::new();
    let mut pos: usize = 0;
    assert(out@ + Seq::<u8>::empty() =~= out@);
    while pos < n
        invariant
            pos <= n + 1,
            txt_from(text@, 0) == (match txt_from(text@, pos as int) {
                Ok(rest) => Ok::<Seq<u8>, WiirdError>(out@ + rest),
                Err(e) => Err::<Seq<u8>, WiirdError>(e),
            }),
        decreases n + 1 - pos,
    {
        // find the newline that ends this line
        let mut end: usize = pos;
        while end < n && text[end] != 0x0A
            invariant
                pos <= end <= n,
                forall|k: int| pos <= k < end ==> text@[k] != 0x0Au8,
            decreases n - end,
        {
            end = end + 1;
        }
        proof {
            lemma_line_end_at(text@, pos as int, end as int);
        }
        // drop the carriage return of a \r\n line ending
        let lend = if end < n && end > pos && text[end - 1] == 0x0D {
            end - 1
        } else {
            end
        };
        proof {
            let raw = text@.subrange(pos as int, end as int);
            let line = text@.subrange(pos as int, lend as int);
            if lend < end {
                assert(raw.drop_last() =~= line);
            } else {
                assert(raw =~= line);
            }
        }
        match decode_hex_line(text, pos, lend) {
            Ok(mut v) => {
                let ghost piece = v@;
                let ghost out_old = out@;
                out.append(&mut v);
                proof {
                    if txt_from(text@, end + 1) is Ok {
                        let rest = txt_from(text@, end + 1)->Ok_0;
                        assert(out_old + (piece + rest) =~= out@ + rest);
                    }
                }
                pos = if end < n {
                    end + 1
                } else {
                    n
                };
            },
            Err(e) => {
                return Err(e);
            },
        }
    }
    assert(out@ + Seq::<u8>::empty() =~= out@);
    Ok(out)
}

/// Decodes a text codeset straight to its block tree.
pub fn wiird_codes_from_txt(text: &[u8]) -> (r: Result<WiiRDBlock, WiirdError>)
    ensures
        match r {
            Ok(b) => {
                &&& spec_txt_codes(text@) is Ok
                &&& block_test_addresses_even(b)
                &&& codes_model(b.codes@) == spec_wiird_codes(spec_txt_codes(text@)->Ok_0, 0)
            },
            Err(e) => spec_txt_codes(text@) == Err::<Seq<u8>, WiirdError>(e),
        },
{
    match parse_txt_codes(text) {
        Ok(bytes) => Ok(wiird_codes(bytes.as_slice())),
        Err(e) => Err(e),
    }
}


} // verus!
