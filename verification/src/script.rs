//! PSA action-script decoding.
//!
//! A script is a run of 8-byte events inside a larger blob; each event
//! points at its argument records by absolute offset.  Arguments carry a
//! small bit-packed type system (variable memory class, data type,
//! requirement predicates).  Everything is decoded defensively: an offset
//! past the end of the blob ends the current decode with the partial
//! result instead of panicking.

use vstd::prelude::*;

use crate::reader::{be_i32, be_u32, bits_of_i32, i32_to_bits, read_i32_at, read_u32_at, read_u8_at};

verus! {

/// One decoded action script: the events found at `offset` in the parent
/// blob, in stream order.
pub struct Script {
    pub events: Vec<Event>,
    pub offset: u32,
}

/// One 8-byte event: an instruction of a script.  Its argument records
/// live elsewhere in the blob and are resolved during decoding.
pub struct Event {
    pub namespace: u8,
    pub code: u8,
    pub unk1: u8,
    pub arguments: Vec<Argument>,
}

/// Mathematical model of an `Event`: the same fields with the argument
/// vector abstracted to a sequence.
pub ghost struct EventModel {
    pub namespace: u8,
    pub code: u8,
    pub unk1: u8,
    pub arguments: Seq<Argument>,
}

impl View for Event {
    type V = EventModel;

    open spec fn view(&self) -> EventModel {
        EventModel {
            namespace: self.namespace,
            code: self.code,
            unk1: self.unk1,
            arguments: self.arguments@,
        }
    }
}

/// Mathematical model of a `Script`.
pub ghost struct ScriptModel {
    pub events: Seq<EventModel>,
    pub offset: u32,
}

impl View for Script {
    type V = ScriptModel;

    open spec fn view(&self) -> ScriptModel {
        ScriptModel { events: self.events@.map_values(|e: Event| e@), offset: self.offset }
    }
}

/// One typed argument of an event.  `Scalar` keeps the raw fixed-point
/// numerator; the encoded value is that number of 1/60000 units.
#[derive(Clone, Copy, Debug, PartialEq, Eq, Structural)]
pub enum Argument {
    Value(i32),
    Scalar(i32),
    Offset(i32),
    Bool(bool),
    File(i32),
    Variable(Variable),
    Requirement { ty: Requirement, flip: bool },
    Unknown(i32, i32),
}

#[derive(Clone, Copy, Debug, PartialEq, Eq, Structural)]
pub struct Variable {
    pub memory: VariableMemory,
    pub data_type: VariableDataType,
}

#[derive(Clone, Copy, Debug, PartialEq, Eq, Structural)]
pub enum VariableMemory {
    /// Known as IC in existing tools
    InternalConstant(InternalConstant),
    /// Known as LA in existing tools
    LongtermAccess(u32),
    /// Known as RA in existing tools
    RandomAccess(u32),
    Unknown { memory_type: u8, memory_address: u32 },
}

/// The mapping from a variable's memory-type nibble and 24-bit address
/// to its memory class.
pub open spec fn spec_variable_memory(memory_type: u8, memory_address: u32) -> VariableMemory {
    match memory_type {
        0u8 => VariableMemory::InternalConstant(spec_internal_constant(memory_address)),
        1u8 => VariableMemory::LongtermAccess(memory_address),
        2u8 => VariableMemory::RandomAccess(memory_address),
        _ => VariableMemory::Unknown { memory_type, memory_address },
    }
}

impl VariableMemory {
    pub fn new(memory_type: u8, memory_address: u32) -> (r: VariableMemory)
        ensures
            r == spec_variable_memory(memory_type, memory_address),
    {
        match memory_type {
            0 => VariableMemory::InternalConstant(InternalConstant::new(memory_address)),
            1 => VariableMemory::LongtermAccess(memory_address),
            2 => VariableMemory::RandomAccess(memory_address),
            _ => VariableMemory::Unknown { memory_type, memory_address },
        }
    }
}

#[derive(Clone, Copy, Debug, PartialEq, Eq, Structural)]
pub enum InternalConstant {
    CurrentFrame,
    Damage,
    CharacterXPosition,
    CharacterYPosition,
    CharacterDirection,
    CharacterDirectionOpposite,
    VerticalCharacterVelocity,
    CurrentFrameSpeed,
    HorizontalCharacterVelocity,
    Knockback,
    SurfaceTraction,
    XVelocity,
    LaunchSpeed,
    RightVelocity,
    LeftVelocity,
    UpVelocity,
    DownVelocity,
    ControlStickXAxis,
    ControlStickXAxisRelative,
    ControlStickXAxisRelativeReverse,
    ControlStickXAxisAbsolute,
    ControlStickXAxisReverse,
    ControlStickXAxisReverse2,
    ControlStickYAxis,
    ControlStickYAxisAbsolute,
    ControlStickYAxisReverse,
    ControlStickYAxis2,
    PreviousControlStickXAxis,
    PreviousControlStickXAxisRelative,
    PreviousControlStickXAxisRelativeReverse,
    PreviousControlStickXAxisAbsolute,
    PreviousControlStickXAxisReverse,
    PreviousControlStickXAxisReverse2,
    PreviousControlStickYAxis,
    PreviousControlStickYAxisAbsolute,
    PreviousControlStickYAxisReverse,
    PreviousControlStickYAxis2,
    CurrentSubaction,
    CurrentAction,
    PreviousAction,
    HeldItem,
    EffectOfAttack,
    FramesSinceNormal,
    FramesSinceSpecial,
    FramesSinceJump,
    FramesSinceShield,
    FramesSinceShield2,
    TurnRunFrameTimer,
    JumpStartTimer,
    MaxJumpCount,
    GlideStartTimer,
    TermVelFrameTimer,
    Address(u32),
}

/// The table of named game-state addresses; anything else keeps its raw
/// address.
pub open spec fn spec_internal_constant(address: u32) -> InternalConstant {
    match address {
        0u32 => InternalConstant::CurrentFrame,
        2u32 => InternalConstant::Damage,
        3u32 => InternalConstant::CharacterXPosition,
        4u32 => InternalConstant::CharacterYPosition,
        8u32 => InternalConstant::CharacterDirection,
        9u32 => InternalConstant::CharacterDirectionOpposite,
        23u32 => InternalConstant::VerticalCharacterVelocity,
        24u32 => InternalConstant::CurrentFrameSpeed,
        28u32 => InternalConstant::HorizontalCharacterVelocity,
        38u32 => InternalConstant::Knockback,
        39u32 => InternalConstant::SurfaceTraction,
        1000u32 => InternalConstant::XVelocity,
        1005u32 => InternalConstant::LaunchSpeed,
        1006u32 => InternalConstant::RightVelocity,
        1007u32 => InternalConstant::LeftVelocity,
        1008u32 => InternalConstant::UpVelocity,
        1009u32 => InternalConstant::DownVelocity,
        1010u32 => InternalConstant::ControlStickXAxis,
        1011u32 => InternalConstant::ControlStickXAxisRelative,
        1012u32 => InternalConstant::ControlStickXAxisRelativeReverse,
        1013u32 => InternalConstant::ControlStickXAxisAbsolute,
        1014u32 => InternalConstant::ControlStickXAxisReverse,
        1017u32 => InternalConstant::ControlStickXAxisReverse2,
        1018u32 => InternalConstant::ControlStickYAxis,
        1019u32 => InternalConstant::ControlStickYAxisAbsolute,
        1020u32 => InternalConstant::ControlStickYAxisReverse,
        1021u32 => InternalConstant::ControlStickYAxis2,
        1022u32 => InternalConstant::PreviousControlStickXAxis,
        1023u32 => InternalConstant::PreviousControlStickXAxisRelative,
        1024u32 => InternalConstant::PreviousControlStickXAxisRelativeReverse,
        1025u32 => InternalConstant::PreviousControlStickXAxisAbsolute,
        1026u32 => InternalConstant::PreviousControlStickYAxis,
        1027u32 => InternalConstant::PreviousControlStickYAxisAbsolute,
        1028u32 => InternalConstant::PreviousControlStickYAxisReverse,
        20000u32 => InternalConstant::CurrentSubaction,
        20001u32 => InternalConstant::CurrentAction,
        20003u32 => InternalConstant::PreviousAction,
        20009u32 => InternalConstant::HeldItem,
        21004u32 => InternalConstant::EffectOfAttack,
        21010u32 => InternalConstant::FramesSinceNormal,
        21012u32 => InternalConstant::FramesSinceSpecial,
        21014u32 => InternalConstant::FramesSinceJump,
        21016u32 => InternalConstant::FramesSinceShield,
        21018u32 => InternalConstant::FramesSinceShield2,
        23001u32 => InternalConstant::TurnRunFrameTimer,
        23002u32 => InternalConstant::JumpStartTimer,
        23003u32 => InternalConstant::MaxJumpCount,
        23004u32 => InternalConstant::GlideStartTimer,
        23007u32 => InternalConstant::TermVelFrameTimer,
        _ => InternalConstant::Address(address),
    }
}

impl InternalConstant {
    pub fn new(address: u32) -> (r: InternalConstant)
        ensures
            r == spec_internal_constant(address),
    {
        match address {
            0 => InternalConstant::CurrentFrame,
            2 => InternalConstant::Damage,
            3 => InternalConstant::CharacterXPosition,
            4 => InternalConstant::CharacterYPosition,
            8 => InternalConstant::CharacterDirection,
            9 => InternalConstant::CharacterDirectionOpposite,
            23 => InternalConstant::VerticalCharacterVelocity,
            24 => InternalConstant::CurrentFrameSpeed,
            28 => InternalConstant::HorizontalCharacterVelocity,
            38 => InternalConstant::Knockback,
            39 => InternalConstant::SurfaceTraction,
            1000 => InternalConstant::XVelocity,
            1005 => InternalConstant::LaunchSpeed,
            1006 => InternalConstant::RightVelocity,
            1007 => InternalConstant::LeftVelocity,
            1008 => InternalConstant::UpVelocity,
            1009 => InternalConstant::DownVelocity,
            1010 => InternalConstant::ControlStickXAxis,
            1011 => InternalConstant::ControlStickXAxisRelative,
            1012 => InternalConstant::ControlStickXAxisRelativeReverse,
            1013 => InternalConstant::ControlStickXAxisAbsolute,
            1014 => InternalConstant::ControlStickXAxisReverse,
            1017 => InternalConstant::ControlStickXAxisReverse2,
            1018 => InternalConstant::ControlStickYAxis,
            1019 => InternalConstant::ControlStickYAxisAbsolute,
            1020 => InternalConstant::ControlStickYAxisReverse,
            1021 => InternalConstant::ControlStickYAxis2,
            1022 => InternalConstant::PreviousControlStickXAxis,
            1023 => InternalConstant::PreviousControlStickXAxisRelative,
            1024 => InternalConstant::PreviousControlStickXAxisRelativeReverse,
            1025 => InternalConstant::PreviousControlStickXAxisAbsolute,
            1026 => InternalConstant::PreviousControlStickYAxis,
            1027 => InternalConstant::PreviousControlStickYAxisAbsolute,
            1028 => InternalConstant::PreviousControlStickYAxisReverse,
            20000 => InternalConstant::CurrentSubaction,
            20001 => InternalConstant::CurrentAction,
            20003 => InternalConstant::PreviousAction,
            20009 => InternalConstant::HeldItem,
            21004 => InternalConstant::EffectOfAttack,
            21010 => InternalConstant::FramesSinceNormal,
            21012 => InternalConstant::FramesSinceSpecial,
            21014 => InternalConstant::FramesSinceJump,
            21016 => InternalConstant::FramesSinceShield,
            21018 => InternalConstant::FramesSinceShield2,
            23001 => InternalConstant::TurnRunFrameTimer,
            23002 => InternalConstant::JumpStartTimer,
            23003 => InternalConstant::MaxJumpCount,
            23004 => InternalConstant::GlideStartTimer,
            23007 => InternalConstant::TermVelFrameTimer,
            _ => InternalConstant::Address(address),
        }
    }
}

#[derive(Clone, Copy, Debug, PartialEq, Eq, Structural)]
pub enum VariableDataType {
    /// Known as Basic in existing tools
    Int,
    /// Known as Float in existing tools
    Float,
    /// Known as Bit in existing tools
    Bool,
    Unknown(u8),
}

/// The mapping from a variable's data-type nibble to its data type.
pub open spec fn spec_variable_data_type(value: u8) -> VariableDataType {
    match value {
        0u8 => VariableDataType::Int,
        1u8 => VariableDataType::Float,
        2u8 => VariableDataType::Bool,
        _ => VariableDataType::Unknown(value),
    }
}

impl VariableDataType {
    pub fn new(value: u8) -> (r: VariableDataType)
        ensures
            r == spec_variable_data_type(value),
    {
        match value {
            0 => VariableDataType::Int,
            1 => VariableDataType::Float,
            2 => VariableDataType::Bool,
            _ => VariableDataType::Unknown(value),
        }
    }
}

#[derive(Clone, Copy, Debug, PartialEq, Eq, Structural)]
pub enum Requirement {
    CharacterExists,
    AnimationEnd,
    AnimationHasLooped,
    OnGround,
    InAir,
    HoldingALedge,
    OnAPassableFloor,
    Comparison,
    BoolIsTrue,
    FacingRight,
    FacingLeft,
    HitboxConnects,
    TouchingAFloorWallOrCeiling,
    IsThrowingSomeone,
    ButtonTap,
    EnteringOrIsInHitLag,
    ArticleExists,
    HasAFloorBelowThePlayer,
    ChangeInAirGroundState,
    ArticleAvailable,
    HoldingItem,
    HoldingItemOfType,
    LightItemIsInGrabRange,
    HeavyItemIsInGrabRange,
    ItemOfTypeIsInGrabbingRange,
    TurningWithItem,
    InWater,
    RollADie,
    SubactionExists,
    ButtonMashingOrStatusExpiredSleepBuryFreeze,
    IsNotInDamagingLens,
    ButtonPress,
    ButtonRelease,
    ButtonPressed,
    ButtonNotPressed,
    StickDirectionPressed,
    StickDirectionNotPressed,
    IsBeingThrownBySomeone1,
    IsBeingThrownBySomeone2,
    HasntTethered3Times,
    HasPassedOverAnEdgeForward,
    HasPassedOverAnEdgeBackward,
    IsHoldingSomeoneInGrab,
    HitboxHasConnected,
    PickUpItem,
    HitByCapeEffect,
    InWalljump,
    InWallCling,
    InFootstoolRange,
    IsFallingOrHitDown,
    HasSmashBall,
    CanPickupAnotherItem,
    FSmashShorcut,
    TapJumpOn,
    Unknown(i32),
}

/// The table of requirement predicates, keyed by the low byte of the
/// argument's data word.
pub open spec fn spec_requirement_ty(low: i32) -> Requirement {
    match low {
        0i32 => Requirement::CharacterExists,
        1i32 => Requirement::AnimationEnd,
        2i32 => Requirement::AnimationHasLooped,
        3i32 => Requirement::OnGround,
        4i32 => Requirement::InAir,
        5i32 => Requirement::HoldingALedge,
        6i32 => Requirement::OnAPassableFloor,
        7i32 => Requirement::Comparison,
        8i32 => Requirement::BoolIsTrue,
        9i32 => Requirement::FacingRight,
        10i32 => Requirement::FacingLeft,
        11i32 => Requirement::HitboxConnects,
        12i32 => Requirement::TouchingAFloorWallOrCeiling,
        13i32 => Requirement::IsThrowingSomeone,
        15i32 => Requirement::ButtonTap,
        20i32 => Requirement::EnteringOrIsInHitLag,
        21i32 => Requirement::ArticleExists,
        23i32 => Requirement::HasAFloorBelowThePlayer,
        27i32 => Requirement::ChangeInAirGroundState,
        28i32 => Requirement::ArticleAvailable,
        31i32 => Requirement::HoldingItem,
        32i32 => Requirement::HoldingItemOfType,
        33i32 => Requirement::LightItemIsInGrabRange,
        34i32 => Requirement::HeavyItemIsInGrabRange,
        35i32 => Requirement::ItemOfTypeIsInGrabbingRange,
        36i32 => Requirement::TurningWithItem,
        42i32 => Requirement::InWater,
        43i32 => Requirement::RollADie,
        44i32 => Requirement::SubactionExists,
        46i32 => Requirement::ButtonMashingOrStatusExpiredSleepBuryFreeze,
        47i32 => Requirement::IsNotInDamagingLens,
        48i32 => Requirement::ButtonPress,
        49i32 => Requirement::ButtonRelease,
        50i32 => Requirement::ButtonPressed,
        51i32 => Requirement::ButtonNotPressed,
        52i32 => Requirement::StickDirectionPressed,
        53i32 => Requirement::StickDirectionNotPressed,
        55i32 => Requirement::IsBeingThrownBySomeone1,
        56i32 => Requirement::IsBeingThrownBySomeone2,
        57i32 => Requirement::HasntTethered3Times,
        58i32 => Requirement::HasPassedOverAnEdgeForward,
        59i32 => Requirement::HasPassedOverAnEdgeBackward,
        60i32 => Requirement::IsHoldingSomeoneInGrab,
        61i32 => Requirement::HitboxHasConnected,
        71i32 => Requirement::PickUpItem,
        76i32 => Requirement::HitByCapeEffect,
        103i32 => Requirement::InWalljump,
        104i32 => Requirement::InWallCling,
        105i32 => Requirement::InFootstoolRange,
        108i32 => Requirement::IsFallingOrHitDown,
        109i32 => Requirement::HasSmashBall,
        111i32 => Requirement::CanPickupAnotherItem,
        115i32 => Requirement::FSmashShorcut,
        123i32 => Requirement::TapJumpOn,
        v => Requirement::Unknown(v),
    }
}

/// The requirement argument decoded from a raw data word: the sign bit
/// is the flip flag, the low byte selects the predicate.
pub open spec fn spec_requirement(value: i32) -> Argument {
    Argument::Requirement { ty: spec_requirement_ty(value & 0xFF), flip: value < 0 }
}

impl Requirement {
    pub fn new(value: i32) -> (r: Argument)
        ensures
            r == spec_requirement(value),
    {
        let flip = value < 0;
        let low = value & 0xFF;
        let ty = match low {
            0 => Requirement::CharacterExists,
            1 => Requirement::AnimationEnd,
            2 => Requirement::AnimationHasLooped,
            3 => Requirement::OnGround,
            4 => Requirement::InAir,
            5 => Requirement::HoldingALedge,
            6 => Requirement::OnAPassableFloor,
            7 => Requirement::Comparison,
            8 => Requirement::BoolIsTrue,
            9 => Requirement::FacingRight,
            10 => Requirement::FacingLeft,
            11 => Requirement::HitboxConnects,
            12 => Requirement::TouchingAFloorWallOrCeiling,
            13 => Requirement::IsThrowingSomeone,
            15 => Requirement::ButtonTap,
            20 => Requirement::EnteringOrIsInHitLag,
            21 => Requirement::ArticleExists,
            23 => Requirement::HasAFloorBelowThePlayer,
            27 => Requirement::ChangeInAirGroundState,
            28 => Requirement::ArticleAvailable,
            31 => Requirement::HoldingItem,
            32 => Requirement::HoldingItemOfType,
            33 => Requirement::LightItemIsInGrabRange,
            34 => Requirement::HeavyItemIsInGrabRange,
            35 => Requirement::ItemOfTypeIsInGrabbingRange,
            36 => Requirement::TurningWithItem,
            42 => Requirement::InWater,
            43 => Requirement::RollADie,
            44 => Requirement::SubactionExists,
            46 => Requirement::ButtonMashingOrStatusExpiredSleepBuryFreeze,
            47 => Requirement::IsNotInDamagingLens,
            48 => Requirement::ButtonPress,
            49 => Requirement::ButtonRelease,
            50 => Requirement::ButtonPressed,
            51 => Requirement::ButtonNotPressed,
            52 => Requirement::StickDirectionPressed,
            53 => Requirement::StickDirectionNotPressed,
            55 => Requirement::IsBeingThrownBySomeone1,
            56 => Requirement::IsBeingThrownBySomeone2,
            57 => Requirement::HasntTethered3Times,
            58 => Requirement::HasPassedOverAnEdgeForward,
            59 => Requirement::HasPassedOverAnEdgeBackward,
            60 => Requirement::IsHoldingSomeoneInGrab,
            61 => Requirement::HitboxHasConnected,
            71 => Requirement::PickUpItem,
            76 => Requirement::HitByCapeEffect,
            103 => Requirement::InWalljump,
            104 => Requirement::InWallCling,
            105 => Requirement::InFootstoolRange,
            108 => Requirement::IsFallingOrHitDown,
            109 => Requirement::HasSmashBall,
            111 => Requirement::CanPickupAnotherItem,
            115 => Requirement::FSmashShorcut,
            123 => Requirement::TapJumpOn,
            v => Requirement::Unknown(v),
        };
        Argument::Requirement { ty, flip }
    }
}

/// The argument encoded by one 8-byte record: `ty` selects the variant,
/// `data` carries the payload.  A variable packs a memory-type nibble, a
/// data-type nibble and a 24-bit address into its data word.
pub open spec fn spec_argument(ty: i32, data: i32) -> Argument {
    if ty == 0 {
        Argument::Value(data)
    } else if ty == 1 {
        Argument::Scalar(data)
    } else if ty == 2 {
        Argument::Offset(data)
    } else if ty == 3 {
        Argument::Bool(data == 1)
    } else if ty == 4 {
        Argument::File(data)
    } else if ty == 5 {
        let d = bits_of_i32(data);
        Argument::Variable(
            Variable {
                memory: spec_variable_memory(((d & 0xF000_0000) >> 28) as u8, d & 0x00FF_FFFF),
                data_type: spec_variable_data_type(((d & 0x0F00_0000) >> 24) as u8),
            },
        )
    } else if ty == 6 {
        spec_requirement(data)
    } else {
        Argument::Unknown(ty, data)
    }
}

/// Unpacks a variable argument's data word.
fn variable_argument(data: i32) -> (r: Argument)
    ensures
        r == spec_argument(5, data),
{
    let d = i32_to_bits(data);
    let memory_type_raw = (d & 0xF000_0000) >> 28;
    let data_type_raw = (d & 0x0F00_0000) >> 24;
    let memory_address = d & 0x00FF_FFFF;
    assert((d & 0xF000_0000) >> 28 < 0x10 && (d & 0x0F00_0000) >> 24 < 0x10) by (bit_vector);
    let memory = VariableMemory::new(memory_type_raw as u8, memory_address);
    let data_type = VariableDataType::new(data_type_raw as u8);
    Argument::Variable(Variable { memory, data_type })
}

fn decode_argument(ty: i32, data: i32) -> (r: Argument)
    ensures
        r == spec_argument(ty, data),
{
    match ty {
        0 => Argument::Value(data),
        1 => Argument::Scalar(data),
        2 => Argument::Offset(data),
        3 => Argument::Bool(data == 1),
        4 => Argument::File(data),
        5 => variable_argument(data),
        6 => Requirement::new(data),
        _ => Argument::Unknown(ty, data),
    }
}

/// The arguments encoded by `n` consecutive records starting at `off`.
/// A record that runs past the end of the blob ends the list early.
pub open spec fn spec_arguments(d: Seq<u8>, off: int, n: int) -> Seq<Argument>
    decreases n,
{
    if n <= 0 {
        Seq::empty()
    } else if off < 0 || off + 8 > d.len() {
        Seq::empty()
    } else {
        seq![spec_argument(be_i32(d, off), be_i32(d, off + 4))] + spec_arguments(d, off + 8, n - 1)
    }
}

/// Decodes `num_arguments` records of 8 bytes each, stopping early if a
/// record runs past the end of the blob.
#[verifier::loop_isolation(false)]
pub fn arguments(parent_data: &[u8], argument_offset: usize, num_arguments: usize) -> (r: Vec<
    Argument,
>)
    ensures
        r@ == spec_arguments(parent_data@, argument_offset as int, num_arguments as int),
{
    let n = parent_data.len();
    let mut args: Vec<Argument> = Vec::new();
    let mut i: usize = 0;
    let mut off: usize = argument_offset;
    proof {
        assert(args@ + spec_arguments(parent_data@, argument_offset as int, num_arguments as int)
            =~= spec_arguments(parent_data@, argument_offset as int, num_arguments as int));
    }
    while i < num_arguments
        invariant
            i <= num_arguments,
            off == argument_offset + 8 * i,
            spec_arguments(parent_data@, argument_offset as int, num_arguments as int) == args@
                + spec_arguments(parent_data@, off as int, num_arguments - i),
        decreases num_arguments - i,
    {
        if n < 8 || off > n - 8 {
            proof {
                assert(spec_arguments(parent_data@, off as int, num_arguments - i)
                    =~= Seq::<Argument>::empty());
                assert(args@ + Seq::<Argument>::empty() =~= args@);
            }
            return args;
        }
        let ty = read_i32_at(parent_data, off);
        let data = read_i32_at(parent_data, off + 4);
        let arg = decode_argument(ty, data);
        proof {
            assert(spec_arguments(parent_data@, off as int, num_arguments - i) == seq![
                spec_argument(be_i32(parent_data@, off as int), be_i32(parent_data@, off + 4)),
            ] + spec_arguments(parent_data@, off + 8, num_arguments - i - 1));
            assert(args@.push(arg) + spec_arguments(parent_data@, off + 8, num_arguments - i - 1)
                =~= args@ + (seq![arg] + spec_arguments(
                parent_data@,
                off + 8,
                num_arguments - i - 1,
            )));
        }
        args.push(arg);
        off = off + 8;
        i = i + 1;
    }
    proof {
        assert(spec_arguments(parent_data@, off as int, 0) =~= Seq::<Argument>::empty());
        assert(args@ + Seq::<Argument>::empty() =~= args@);
    }
    args
}

/// The terminator row: an event with namespace and code both zero ends a
/// script (it is consumed, never emitted).
pub open spec fn is_sentinel_event(e: EventModel) -> bool {
    e.namespace == 0 && e.code == 0
}

/// The events of the script starting at `off`, in stream order.  The walk
/// ends at the terminator row, at a row whose argument offset points past
/// the end of the blob, or when the next row would run past the end.
/// Rows with the two annotation ids inserted by the PSA tool are skipped.
pub open spec fn spec_events(d: Seq<u8>, off: int) -> Seq<EventModel>
    decreases d.len() - off,
{
    if off < 0 || off + 8 > d.len() {
        Seq::empty()
    } else {
        let namespace = d[off];
        let code = d[off + 1];
        let num_arguments = d[off + 2];
        let unk1 = d[off + 3];
        let raw_id = be_u32(d, off);
        if namespace == 0 && code == 0 {
            Seq::empty()
        } else if raw_id == 0xFADE_F00D || raw_id == 0xFADE_0D8A {
            spec_events(d, off + 8)
        } else {
            let argument_offset = be_u32(d, off + 4);
            if argument_offset >= d.len() {
                Seq::empty()
            } else {
                seq![
                    EventModel {
                        namespace,
                        code,
                        unk1,
                        arguments: spec_arguments(
                            d,
                            argument_offset as int,
                            num_arguments as int,
                        ),
                    },
                ] + spec_events(d, off + 8)
            }
        }
    }
}

/// The events of the script entered at `offset`: none unless the offset
/// points strictly inside the blob.
pub open spec fn spec_script_events(d: Seq<u8>, offset: u32) -> Seq<EventModel> {
    if 0 < offset && offset < d.len() {
        spec_events(d, offset as int)
    } else {
        Seq::empty()
    }
}

/// No emitted event is the terminator: the walk consumes it and stops.
pub proof fn lemma_script_no_sentinel(d: Seq<u8>, off: int)
    ensures
        forall|i: int|
            0 <= i < spec_events(d, off).len() ==> !is_sentinel_event(
                #[trigger] spec_events(d, off)[i],
            ),
    decreases d.len() - off,
{
    if off < 0 || off + 8 > d.len() {
    } else {
        let namespace = d[off];
        let code = d[off + 1];
        let raw_id = be_u32(d, off);
        if namespace == 0 && code == 0 {
        } else if raw_id == 0xFADE_F00D || raw_id == 0xFADE_0D8A {
            lemma_script_no_sentinel(d, off + 8);
            assert forall|i: int| 0 <= i < spec_events(d, off).len() implies !is_sentinel_event(
                #[trigger] spec_events(d, off)[i],
            ) by {
                assert(spec_events(d, off)[i] == spec_events(d, off + 8)[i]);
            }
        } else {
            let argument_offset = be_u32(d, off + 4);
            if argument_offset >= d.len() {
            } else {
                lemma_script_no_sentinel(d, off + 8);
                assert forall|i: int|
                    0 <= i < spec_events(d, off).len() implies !is_sentinel_event(
                    #[trigger] spec_events(d, off)[i],
                ) by {
                    if i > 0 {
                        assert(spec_events(d, off)[i] == spec_events(d, off + 8)[i - 1]);
                    }
                }
            }
        }
    }
}

/// The last event of a decoded script is never the terminator.
pub proof fn lemma_script_events_no_sentinel(d: Seq<u8>, offset: u32)
    ensures
        forall|i: int|
            0 <= i < spec_script_events(d, offset).len() ==> !is_sentinel_event(
                #[trigger] spec_script_events(d, offset)[i],
            ),
{
    if 0 < offset && offset < d.len() {
        lemma_script_no_sentinel(d, offset as int);
    }
}

/// Decodes the script entered at `offset` in the parent blob.
#[verifier::loop_isolation(false)]
pub fn new_script(parent_data: &[u8], offset: u32) -> (r: Script)
    ensures
        r.offset == offset,
        r@.events == spec_script_events(parent_data@, offset),
{
    let n = parent_data.len();
    let ghost f = |e: Event| e@;
    let mut events: Vec<Event> = Vec::new();
    if offset == 0 || offset as usize >= n {
        assert(events@.map_values(f) =~= Seq::<EventModel>::empty());
        return Script { events, offset };
    }
    let start = offset as usize;
    let mut event_offset: usize = start;
    proof {
        assert(events@.map_values(f) + spec_events(parent_data@, start as int) =~= spec_events(
            parent_data@,
            start as int,
        ));
    }
    loop
        invariant
            start <= event_offset,
            spec_events(parent_data@, start as int) == events@.map_values(f) + spec_events(
                parent_data@,
                event_offset as int,
            ),
        decreases n - event_offset,
    {
        if n < 8 || event_offset > n - 8 {
            proof {
                assert(spec_events(parent_data@, event_offset as int)
                    =~= Seq::<EventModel>::empty());
                assert(events@.map_values(f) + Seq::<EventModel>::empty() =~= events@.map_values(
                    f,
                ));
            }
            return Script { events, offset };
        }
        let namespace = read_u8_at(parent_data, event_offset);
        let code = read_u8_at(parent_data, event_offset + 1);
        let num_arguments = read_u8_at(parent_data, event_offset + 2);
        let unk1 = read_u8_at(parent_data, event_offset + 3);
        let raw_id = read_u32_at(parent_data, event_offset);
        if code == 0 && namespace == 0 {
            proof {
                assert(events@.map_values(f) + Seq::<EventModel>::empty() =~= events@.map_values(
                    f,
                ));
            }
            return Script { events, offset };
        }
        if raw_id != 0xFADE_F00D && raw_id != 0xFADE_0D8A {
            let argument_offset = read_u32_at(parent_data, event_offset + 4);
            if argument_offset as usize >= n {
                proof {
                    assert(events@.map_values(f) + Seq::<EventModel>::empty()
                        =~= events@.map_values(f));
                }
                return Script { events, offset };
            }
            let args = arguments(parent_data, argument_offset as usize, num_arguments as usize);
            let ev = Event { namespace, code, unk1, arguments: args };
            proof {
                assert(events@.push(ev).map_values(f) =~= events@.map_values(f).push(ev@));
                assert(spec_events(parent_data@, event_offset as int) == seq![ev@] + spec_events(
                    parent_data@,
                    event_offset + 8,
                ));
                assert(events@.map_values(f).push(ev@) + spec_events(parent_data@, event_offset + 8)
                    =~= events@.map_values(f) + (seq![ev@] + spec_events(
                    parent_data@,
                    event_offset + 8,
                )));
            }
            events.push(ev);
        }
        event_offset = event_offset + 8;
    }
}

/// Decodes `num` scripts, one per 32-bit big-endian entry of the offset
/// table.  Entry `i` is the offset of script `i` inside the parent blob.
#[verifier::loop_isolation(false)]
pub fn scripts(parent_data: &[u8], offset_data: &[u8], num: usize) -> (r: Vec<Script>)
    requires
        num * 4 <= offset_data@.len(),
    ensures
        r@.len() == num,
        forall|i: int|
            0 <= i < num ==> {
                let off = bits_of_i32(be_i32(offset_data@, 4 * i));
                &&& (#[trigger] r@[i]).offset == off
                &&& r@[i]@.events == spec_script_events(parent_data@, off)
            },
{
    let m = offset_data.len();
    let mut result: Vec<Script> = Vec::new();
    let mut i: usize = 0;
    while i < num
        invariant
            i <= num,
            num * 4 <= m,
            result@.len() == i,
            forall|k: int|
                0 <= k < i ==> {
                    let off = bits_of_i32(be_i32(offset_data@, 4 * k));
                    &&& (#[trigger] result@[k]).offset == off
                    &&& result@[k]@.events == spec_script_events(parent_data@, off)
                },
        decreases num - i,
    {
        let off_signed = read_i32_at(offset_data, i * 4);
        let off = i32_to_bits(off_signed);
        result.push(new_script(parent_data, off));
        i = i + 1;
    }
    result
}

impl Event {
    /// The identifying word of this event as the PSA format stores it:
    /// namespace, code and argument count packed into the top three bytes.
    pub fn raw_id(&self) -> (r: u32)
        requires
            self.arguments@.len() < 0x100,
        ensures
            r == (self.namespace as u32) * 0x100_0000 + (self.code as u32) * 0x1_0000 + (
            self.arguments@.len() as u32) * 0x100,
    {
        let num_args = self.arguments.len();
        (self.namespace as u32) * 0x100_0000 + (self.code as u32) * 0x1_0000 + (num_args as u32)
            * 0x100
    }
}

/// A goto or subroutine event naming a positive target offset: namespace
/// zero, code 7 (subroutine) or 9 (goto), first argument `Offset(o)`.
pub open spec fn fragment_target(e: EventModel, o: i32) -> bool {
    &&& e.namespace == 0
    &&& (e.code == 7 || e.code == 9)
    &&& e.arguments.len() > 0
    &&& e.arguments[0] == Argument::Offset(o)
    &&& o > 0
}

/// Some entry of the action tables is the script at `off`.
pub open spec fn action_has_offset(tables: Seq<&[Script]>, off: u32) -> bool {
    exists|i: int, j: int|
        0 <= i < tables.len() && 0 <= j < tables[i]@.len() && (#[trigger] tables[i]@[j]).offset
            == off
}

/// Some event of the action tables names `off` as a fragment target.
pub open spec fn fragment_source_exists(tables: Seq<&[Script]>, off: u32) -> bool {
    exists|i: int, j: int, k: int, o: i32|
        0 <= i < tables.len() && 0 <= j < tables[i]@.len() && 0 <= k
            < tables[i]@[j]@.events.len() && #[trigger] fragment_target(
            tables[i]@[j]@.events[k],
            o,
        ) && off == o as u32
}

/// A fragment list is sound for the given inputs: offsets are pairwise
/// distinct, none is an action entry's offset, each fragment is the
/// script decoded at its own offset, and each offset is the target of
/// some goto or subroutine event of the inputs.
pub open spec fn fragments_wf(parent: Seq<u8>, tables: Seq<&[Script]>, frags: Seq<Script>) -> bool {
    &&& (forall|a: int, b: int|
        0 <= a < b < frags.len() ==> (#[trigger] frags[a]).offset != (#[trigger] frags[b]).offset)
    &&& (forall|a: int|
        0 <= a < frags.len() ==> !action_has_offset(tables, (#[trigger] frags[a]).offset))
    &&& (forall|a: int|
        0 <= a < frags.len() ==> (#[trigger] frags[a])@.events == spec_script_events(
            parent,
            frags[a].offset,
        ))
    &&& (forall|a: int|
        0 <= a < frags.len() ==> fragment_source_exists(tables, (#[trigger] frags[a]).offset))
}

/// Every fragment target among the events strictly before position
/// `(pi, pj, pk)` (table, script, event) that is not an action entry's
/// offset appears in the fragment list.
pub open spec fn fragments_complete_upto(
    tables: Seq<&[Script]>,
    frags: Seq<Script>,
    pi: int,
    pj: int,
    pk: int,
) -> bool {
    forall|i: int, j: int, k: int, o: i32|
        0 <= i < tables.len() && 0 <= j < tables[i]@.len() && 0 <= k
            < tables[i]@[j]@.events.len() && (i < pi || (i == pi && (j < pj || (j == pj && k
            < pk)))) && #[trigger] fragment_target(tables[i]@[j]@.events[k], o)
            && !action_has_offset(tables, o as u32) ==> exists|a: int|
            0 <= a < frags.len() && (#[trigger] frags[a]).offset == o as u32
}

/// Strict lexicographic order on scan positions (table, script, event).
pub open spec fn lex_before3(i1: int, j1: int, k1: int, i2: int, j2: int, k2: int) -> bool {
    i1 < i2 || (i1 == i2 && (j1 < j2 || (j1 == j2 && k1 < k2)))
}

/// The event at scan position (i, j, k) names `off` as a fragment
/// target.
pub open spec fn coord_targets(tables: Seq<&[Script]>, i: int, j: int, k: int, off: u32) -> bool {
    &&& 0 <= i < tables.len()
    &&& 0 <= j < tables[i]@.len()
    &&& 0 <= k < tables[i]@[j]@.events.len()
    &&& exists|o: i32| #[trigger] fragment_target(tables[i]@[j]@.events[k], o) && off == o as u32
}

/// Some event strictly before scan position (pi, pj, pk) names `off` as
/// a fragment target.
pub open spec fn frag_sourced_before(
    tables: Seq<&[Script]>,
    off: u32,
    pi: int,
    pj: int,
    pk: int,
) -> bool {
    exists|i1: int, j1: int, k1: int|
        #[trigger] coord_targets(tables, i1, j1, k1, off) && lex_before3(i1, j1, k1, pi, pj, pk)
}

/// The fragments stand in first-occurrence scan order: every source of
/// a later fragment's offset lies strictly after some source of each
/// earlier fragment's offset.
pub open spec fn fragments_scan_ordered(tables: Seq<&[Script]>, frags: Seq<Script>) -> bool {
    forall|a: int, b: int, i2: int, j2: int, k2: int|
        #![trigger coord_targets(tables, i2, j2, k2, frags[b].offset), frags[a]]
        0 <= a < b < frags.len() && coord_targets(tables, i2, j2, k2, frags[b].offset)
            ==> frag_sourced_before(tables, frags[a].offset, i2, j2, k2)
}

/// Every fragment's offset has a source strictly before scan position
/// (pi, pj, pk).
spec fn fragments_sourced_before(
    tables: Seq<&[Script]>,
    frags: Seq<Script>,
    pi: int,
    pj: int,
    pk: int,
) -> bool {
    forall|a: int|
        0 <= a < frags.len() ==> frag_sourced_before(
            tables,
            (#[trigger] frags[a]).offset,
            pi,
            pj,
            pk,
        )
}

/// A source strictly before one scan position is strictly before any
/// later one.
proof fn lemma_frag_sourced_weaken(
    tables: Seq<&[Script]>,
    off: u32,
    pi1: int,
    pj1: int,
    pk1: int,
    pi2: int,
    pj2: int,
    pk2: int,
)
    requires
        frag_sourced_before(tables, off, pi1, pj1, pk1),
        lex_before3(pi1, pj1, pk1, pi2, pj2, pk2) || (pi1 == pi2 && pj1 == pj2 && pk1 == pk2),
    ensures
        frag_sourced_before(tables, off, pi2, pj2, pk2),
{
    let (i1, j1, k1) = choose|i1: int, j1: int, k1: int|
        #[trigger] coord_targets(tables, i1, j1, k1, off) && lex_before3(i1, j1, k1, pi1, pj1, pk1);
    assert(coord_targets(tables, i1, j1, k1, off) && lex_before3(i1, j1, k1, pi2, pj2, pk2));
}

proof fn lemma_sourced_before_weaken(
    tables: Seq<&[Script]>,
    frags: Seq<Script>,
    pi1: int,
    pj1: int,
    pk1: int,
    pi2: int,
    pj2: int,
    pk2: int,
)
    requires
        fragments_sourced_before(tables, frags, pi1, pj1, pk1),
        lex_before3(pi1, pj1, pk1, pi2, pj2, pk2) || (pi1 == pi2 && pj1 == pj2 && pk1 == pk2),
    ensures
        fragments_sourced_before(tables, frags, pi2, pj2, pk2),
{
    assert forall|a: int| 0 <= a < frags.len() implies frag_sourced_before(
        tables,
        (#[trigger] frags[a]).offset,
        pi2,
        pj2,
        pk2,
    ) by {
        lemma_frag_sourced_weaken(tables, frags[a].offset, pi1, pj1, pk1, pi2, pj2, pk2);
    }
}

fn action_offset_exists(action_scripts: &[&[Script]], offset: u32) -> (r: bool)
    ensures
        r == action_has_offset(action_scripts@, offset),
{
    let nt = action_scripts.len();
    let mut i: usize = 0;
    while i < nt
        invariant
            i <= nt,
            nt == action_scripts@.len(),
            forall|i2: int, j2: int|
                0 <= i2 < i && 0 <= j2 < action_scripts@[i2]@.len() ==> (#[trigger]
                action_scripts@[i2]@[j2]).offset != offset,
        decreases nt - i,
    {
        let table: &[Script] = action_scripts[i];
        let ns = table.len();
        let mut j: usize = 0;
        while j < ns
            invariant
                j <= ns,
                i < nt,
                nt == action_scripts@.len(),
                ns == table@.len(),
                table@ == action_scripts@[i as int]@,
                forall|i2: int, j2: int|
                    0 <= i2 < i && 0 <= j2 < action_scripts@[i2]@.len() ==> (#[trigger]
                    action_scripts@[i2]@[j2]).offset != offset,
                forall|j2: int|
                    0 <= j2 < j ==> (#[trigger] action_scripts@[i as int]@[j2]).offset != offset,
            decreases ns - j,
        {
            let entry: &Script = &table[j];
            if entry.offset == offset {
                assert(action_scripts@[i as int]@[j as int].offset == offset);
                return true;
            }
            j = j + 1;
        }
        i = i + 1;
    }
    false
}

fn fragment_offset_exists(frags: &Vec<Script>, offset: u32) -> (r: bool)
    ensures
        r == exists|a: int| 0 <= a < frags@.len() && (#[trigger] frags@[a]).offset == offset,
{
    let n = frags.len();
    let mut a: usize = 0;
    while a < n
        invariant
            a <= n,
            n == frags@.len(),
            forall|a2: int| 0 <= a2 < a ==> (#[trigger] frags@[a2]).offset != offset,
        decreases n - a,
    {
        let entry: &Script = &frags[a];
        if entry.offset == offset {
            return true;
        }
        a = a + 1;
    }
    false
}

/// Considers one event: if it is a goto or subroutine whose positive
/// target is neither an action entry nor already discovered, decodes the
/// target and appends it.  `coords` names where the event sits in the
/// action tables, so that every appended fragment has a recorded source.
#[verifier::loop_isolation(false)]
fn consider_event(
    parent_data: &[u8],
    action_scripts: &[&[Script]],
    frags: &mut Vec<Script>,
    ev: &Event,
    coords: Ghost<(int, int, int)>,
)
    requires
        0 <= coords@.0 < action_scripts@.len(),
        0 <= coords@.1 < action_scripts@[coords@.0]@.len(),
        0 <= coords@.2 < action_scripts@[coords@.0]@[coords@.1]@.events.len(),
        ev@ == action_scripts@[coords@.0]@[coords@.1]@.events[coords@.2],
        fragments_wf(parent_data@, action_scripts@, old(frags)@),
    ensures
        fragments_wf(parent_data@, action_scripts@, final(frags)@),
        old(frags)@.len() <= final(frags)@.len(),
        forall|a: int| 0 <= a < old(frags)@.len() ==> final(frags)@[a] == old(frags)@[a],
        forall|o: i32|
            fragment_target(ev@, o) && !action_has_offset(action_scripts@, o as u32)
                ==> exists|a: int|
                0 <= a < final(frags)@.len() && (#[trigger] final(frags)@[a]).offset == o as u32,
        final(frags)@.len() <= old(frags)@.len() + 1,
        final(frags)@.len() == old(frags)@.len() + 1 ==> exists|o: i32|
            #[trigger] fragment_target(ev@, o) && final(frags)@[old(frags)@.len() as int].offset
                == o as u32,
{
    if ev.namespace == 0 && (ev.code == 7 || ev.code == 9) && ev.arguments.len() > 0 {
        let arg = ev.arguments[0];
        if let Argument::Offset(o) = arg {
            if o > 0 {
                let off = o as u32;
                let is_action = action_offset_exists(action_scripts, off);
                let already = fragment_offset_exists(frags, off);
                if !is_action && !already {
                    let ghost frags_old = frags@;
                    frags.push(new_script(parent_data, off));
                    proof {
                        assert(fragment_target(ev@, o));
                        assert(fragment_source_exists(action_scripts@, off));
                        assert forall|a: int, b: int| 0 <= a < b < frags@.len() implies (
                        #[trigger] frags@[a]).offset != (#[trigger] frags@[b]).offset by {
                            if b < frags_old.len() {
                                assert(frags@[a] == frags_old[a]);
                                assert(frags@[b] == frags_old[b]);
                            } else {
                                assert(frags@[a] == frags_old[a]);
                                assert(frags@[b].offset == off);
                            }
                        }
                        assert forall|a: int| 0 <= a < frags@.len() implies !action_has_offset(
                            action_scripts@,
                            (#[trigger] frags@[a]).offset,
                        ) && (#[trigger] frags@[a])@.events == spec_script_events(
                            parent_data@,
                            frags@[a].offset,
                        ) && fragment_source_exists(action_scripts@, frags@[a].offset) by {
                            if a < frags_old.len() {
                                assert(frags@[a] == frags_old[a]);
                            }
                        }
                        assert(frags@[frags_old.len() as int].offset == off);
                        assert(fragment_target(ev@, o) && frags@[frags_old.len() as int].offset
                            == o as u32);
                    }
                }
                proof {
                    if !is_action {
                        assert(exists|a: int|
                            0 <= a < frags@.len() && (#[trigger] frags@[a]).offset == off);
                    }
                }
            }
        }
    }
}

/// Finds the scripts that gotos and subroutines of the action scripts
/// point to but that are not themselves action entries, and decodes each
/// such target once.  Discovery is one level deep: targets inside the
/// discovered fragments are not followed.
#[verifier::loop_isolation(false)]
pub fn fragment_scripts(parent_data: &[u8], action_scripts: &[&[Script]]) -> (frags: Vec<Script>)
    ensures
        fragments_wf(parent_data@, action_scripts@, frags@),
        fragments_complete_upto(action_scripts@, frags@, action_scripts@.len() as int, 0, 0),
        fragments_scan_ordered(action_scripts@, frags@),
{
    let nt = action_scripts.len();
    let mut frags: Vec<Script> = Vec::new();
    let mut i: usize = 0;
    while i < nt
        invariant
            i <= nt,
            fragments_wf(parent_data@, action_scripts@, frags@),
            fragments_complete_upto(action_scripts@, frags@, i as int, 0, 0),
            fragments_scan_ordered(action_scripts@, frags@),
            fragments_sourced_before(action_scripts@, frags@, i as int, 0, 0),
        decreases nt - i,
    {
        let table: &[Script] = action_scripts[i];
        let ns = table.len();
        let mut j: usize = 0;
        while j < ns
            invariant
                j <= ns,
                i < nt,
                ns == table@.len(),
                table@ == action_scripts@[i as int]@,
                fragments_wf(parent_data@, action_scripts@, frags@),
                fragments_complete_upto(action_scripts@, frags@, i as int, j as int, 0),
                fragments_scan_ordered(action_scripts@, frags@),
                fragments_sourced_before(action_scripts@, frags@, i as int, j as int, 0),
            decreases ns - j,
        {
            let script: &Script = &table[j];
            let ne = script.events.len();
            let mut k: usize = 0;
            while k < ne
                invariant
                    k <= ne,
                    j < ns,
                    i < nt,
                    ns == table@.len(),
                    table@ == action_scripts@[i as int]@,
                    ne == script.events@.len(),
                    script == action_scripts@[i as int]@[j as int],
                    fragments_wf(parent_data@, action_scripts@, frags@),
                    fragments_complete_upto(action_scripts@, frags@, i as int, j as int, k as int),
                    fragments_scan_ordered(action_scripts@, frags@),
                    fragments_sourced_before(
                        action_scripts@,
                        frags@,
                        i as int,
                        j as int,
                        k as int,
                    ),
                decreases ne - k,
            {
                let ghost ev_model = action_scripts@[i as int]@[j as int]@.events[k as int];
                let ghost frags_before = frags@;
                let ev = &script.events[k];
                assert(ev_model == ev@);
                consider_event(
                    parent_data,
                    action_scripts,
                    &mut frags,
                    ev,
                    Ghost((i as int, j as int, k as int)),
                );
                proof {
                    assert forall|i2: int, j2: int, k2: int, o2: i32|
                        0 <= i2 < action_scripts@.len() && 0 <= j2 < action_scripts@[i2]@.len() && 0
                            <= k2 < action_scripts@[i2]@[j2]@.events.len() && (i2 < i as int || (i2
                            == i as int && (j2 < j as int || (j2 == j as int && k2 < k + 1))))
                            && #[trigger] fragment_target(action_scripts@[i2]@[j2]@.events[k2], o2)
                            && !action_has_offset(action_scripts@, o2 as u32) implies exists|a: int|
                        0 <= a < frags@.len() && (#[trigger] frags@[a]).offset == o2 as u32 by {
                        if i2 == i as int && j2 == j as int && k2 == k as int {
                            assert(fragment_target(ev_model, o2));
                        } else {
                            let a = choose|a: int|
                                0 <= a < frags_before.len() && (#[trigger] frags_before[a]).offset
                                    == o2 as u32;
                            assert(frags@[a] == frags_before[a]);
                        }
                    }
                }
                proof {
                    // every fragment has a source strictly before the
                    // next scan position
                    assert forall|a: int| 0 <= a < frags@.len() implies frag_sourced_before(
                        action_scripts@,
                        (#[trigger] frags@[a]).offset,
                        i as int,
                        j as int,
                        k + 1,
                    ) by {
                        if a < frags_before.len() {
                            assert(frags@[a] == frags_before[a]);
                            lemma_frag_sourced_weaken(
                                action_scripts@,
                                frags_before[a].offset,
                                i as int,
                                j as int,
                                k as int,
                                i as int,
                                j as int,
                                k + 1,
                            );
                        } else {
                            // appended at this very event
                            let o = choose|o: i32|
                                #[trigger] fragment_target(ev@, o) && frags@[a].offset == o as u32;
                            assert(fragment_target(
                                action_scripts@[i as int]@[j as int]@.events[k as int],
                                o,
                            ));
                            assert(coord_targets(
                                action_scripts@,
                                i as int,
                                j as int,
                                k as int,
                                frags@[a].offset,
                            ));
                            assert(frag_sourced_before(
                                action_scripts@,
                                frags@[a].offset,
                                i as int,
                                j as int,
                                k + 1,
                            ));
                        }
                    }
                    // scan order extends to the possibly appended fragment
                    assert forall|a: int, b: int, i2: int, j2: int, k2: int|
                        #![trigger
                            coord_targets(action_scripts@, i2, j2, k2, frags@[b].offset),
                            frags@[a]
                        ]
                        0 <= a < b < frags@.len() && coord_targets(
                            action_scripts@,
                            i2,
                            j2,
                            k2,
                            frags@[b].offset,
                        ) implies frag_sourced_before(
                        action_scripts@,
                        frags@[a].offset,
                        i2,
                        j2,
                        k2,
                    ) by {
                        assert(frags@[a] == frags_before[a]);
                        if b < frags_before.len() {
                            assert(frags@[b] == frags_before[b]);
                            assert(coord_targets(
                                action_scripts@,
                                i2,
                                j2,
                                k2,
                                frags_before[b].offset,
                            ));
                            assert(frag_sourced_before(
                                action_scripts@,
                                frags_before[a].offset,
                                i2,
                                j2,
                                k2,
                            ));
                        } else {
                            // b was appended at this event: no source of
                            // its offset lies before the current
                            // position, or it would already be listed
                            if lex_before3(i2, j2, k2, i as int, j as int, k as int) {
                                let o2 = choose|o2: i32|
                                    #[trigger] fragment_target(
                                        action_scripts@[i2]@[j2]@.events[k2],
                                        o2,
                                    ) && frags@[b].offset == o2 as u32;
                                assert(!action_has_offset(action_scripts@, o2 as u32));
                                assert(exists|a2: int|
                                    0 <= a2 < frags_before.len() && (#[trigger] frags_before[a2]).offset
                                        == o2 as u32);
                                let a2 = choose|a2: int|
                                    0 <= a2 < frags_before.len()
                                        && (#[trigger] frags_before[a2]).offset == o2 as u32;
                                assert(frags@[a2] == frags_before[a2]);
                                assert(frags@[a2].offset == frags@[b].offset);
                                assert(false);
                            }
                            let (i1, j1, k1) = choose|i1: int, j1: int, k1: int|
                                #[trigger] coord_targets(
                                    action_scripts@,
                                    i1,
                                    j1,
                                    k1,
                                    frags_before[a].offset,
                                ) && lex_before3(i1, j1, k1, i as int, j as int, k as int);
                            assert(lex_before3(i1, j1, k1, i2, j2, k2));
                            assert(frag_sourced_before(
                                action_scripts@,
                                frags@[a].offset,
                                i2,
                                j2,
                                k2,
                            ));
                        }
                    }
                }
                k = k + 1;
            }
            proof {
                lemma_sourced_before_weaken(
                    action_scripts@,
                    frags@,
                    i as int,
                    j as int,
                    k as int,
                    i as int,
                    j as int + 1,
                    0,
                );
            }
            j = j + 1;
        }
        proof {
            lemma_sourced_before_weaken(
                action_scripts@,
                frags@,
                i as int,
                j as int,
                0,
                i as int + 1,
                0,
                0,
            );
        }
        i = i + 1;
    }
    frags
}

} // verus!
