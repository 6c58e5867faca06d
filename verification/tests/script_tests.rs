use brawllib::script::{
    arguments, fragment_scripts, new_script, scripts, Argument, Event, InternalConstant,
    Requirement, Variable, VariableDataType, VariableMemory,
};

#[test]
fn scalar_argument_fixed_point() {
    // ty = 1 (scalar), data = 60000: exactly 1.0 in 1/60000 units
    let blob = [0x00, 0x00, 0x00, 0x01, 0x00, 0x00, 0xEA, 0x60];
    let args = arguments(&blob, 0, 1);
    assert_eq!(args, vec![Argument::Scalar(60000)]);
    // the raw numerator is preserved exactly; scaled it reads as 1.0
    match args[0] {
        Argument::Scalar(raw) => {
            let scaled = raw as f32 / 60000.0;
            assert_eq!(scaled, 1.0);
            // scaling back recovers the stored integer exactly
            assert_eq!((scaled * 60000.0).round() as i32, raw);
        }
        _ => unreachable!(),
    }
}

#[test]
fn variable_argument_longterm_int() {
    // ty = 5 (variable), data = 0x1000002A: memory-type nibble 1 is
    // longterm access, data-type nibble 0 is int, low 24 bits the address
    let blob = [0x00, 0x00, 0x00, 0x05, 0x10, 0x00, 0x00, 0x2A];
    let args = arguments(&blob, 0, 1);
    assert_eq!(
        args,
        vec![Argument::Variable(Variable {
            memory: VariableMemory::LongtermAccess(0x2A),
            data_type: VariableDataType::Int,
        })]
    );
}

#[test]
fn argument_type_table() {
    let blob = [
        0x00, 0x00, 0x00, 0x00, 0x00, 0x00, 0x00, 0x2A, // Value(42)
        0x00, 0x00, 0x00, 0x02, 0x00, 0x00, 0x03, 0x00, // Offset(0x300)
        0x00, 0x00, 0x00, 0x03, 0x00, 0x00, 0x00, 0x01, // Bool(true)
        0x00, 0x00, 0x00, 0x03, 0x00, 0x00, 0x00, 0x02, // Bool(false): only 1 is true
        0x00, 0x00, 0x00, 0x04, 0x00, 0x00, 0x00, 0x07, // File(7)
        0x00, 0x00, 0x00, 0x09, 0x00, 0x00, 0x00, 0x08, // Unknown(9, 8)
    ];
    let args = arguments(&blob, 0, 6);
    assert_eq!(
        args,
        vec![
            Argument::Value(42),
            Argument::Offset(0x300),
            Argument::Bool(true),
            Argument::Bool(false),
            Argument::File(7),
            Argument::Unknown(9, 8),
        ]
    );
}

#[test]
fn requirement_argument_flip_bit() {
    // ty = 6, data = 0x80000007: sign bit set flips requirement 7
    let blob = [
        0x00, 0x00, 0x00, 0x06, 0x80, 0x00, 0x00, 0x07, //
        0x00, 0x00, 0x00, 0x06, 0x00, 0x00, 0x00, 0x00, //
        0x00, 0x00, 0x00, 0x06, 0x00, 0x00, 0x00, 0x0E,
    ];
    let args = arguments(&blob, 0, 3);
    assert_eq!(
        args,
        vec![
            Argument::Requirement { ty: Requirement::Comparison, flip: true },
            Argument::Requirement { ty: Requirement::CharacterExists, flip: false },
            Argument::Requirement { ty: Requirement::Unknown(14), flip: false },
        ]
    );
}

#[test]
fn requirement_table_spots() {
    assert_eq!(
        Requirement::new(1),
        Argument::Requirement { ty: Requirement::AnimationEnd, flip: false }
    );
    assert_eq!(
        Requirement::new(123),
        Argument::Requirement { ty: Requirement::TapJumpOn, flip: false }
    );
    assert_eq!(
        Requirement::new(43),
        Argument::Requirement { ty: Requirement::RollADie, flip: false }
    );
    // only the low byte selects the predicate
    assert_eq!(
        Requirement::new(0x0000_1307),
        Argument::Requirement { ty: Requirement::Comparison, flip: false }
    );
}

#[test]
fn internal_constant_table_spots() {
    assert_eq!(InternalConstant::new(0), InternalConstant::CurrentFrame);
    assert_eq!(InternalConstant::new(2), InternalConstant::Damage);
    assert_eq!(InternalConstant::new(1000), InternalConstant::XVelocity);
    assert_eq!(InternalConstant::new(20009), InternalConstant::HeldItem);
    assert_eq!(InternalConstant::new(23007), InternalConstant::TermVelFrameTimer);
    assert_eq!(InternalConstant::new(5), InternalConstant::Address(5));
}

#[test]
fn variable_memory_table() {
    assert_eq!(
        VariableMemory::new(0, 0),
        VariableMemory::InternalConstant(InternalConstant::CurrentFrame)
    );
    assert_eq!(VariableMemory::new(1, 9), VariableMemory::LongtermAccess(9));
    assert_eq!(VariableMemory::new(2, 9), VariableMemory::RandomAccess(9));
    assert_eq!(
        VariableMemory::new(7, 9),
        VariableMemory::Unknown { memory_type: 7, memory_address: 9 }
    );
}

#[test]
fn variable_data_type_table() {
    assert_eq!(VariableDataType::new(0), VariableDataType::Int);
    assert_eq!(VariableDataType::new(1), VariableDataType::Float);
    assert_eq!(VariableDataType::new(2), VariableDataType::Bool);
    assert_eq!(VariableDataType::new(9), VariableDataType::Unknown(9));
}

#[test]
fn arguments_stop_at_truncated_record() {
    // second record runs past the end of the blob
    let blob = [
        0x00, 0x00, 0x00, 0x00, 0x00, 0x00, 0x00, 0x2A, //
        0x00, 0x00, 0x00, 0x01,
    ];
    let args = arguments(&blob, 0, 2);
    assert_eq!(args, vec![Argument::Value(42)]);
}

fn event_row(namespace: u8, code: u8, num_args: u8, argument_offset: u32) -> [u8; 8] {
    let o = argument_offset.to_be_bytes();
    [namespace, code, num_args, 0, o[0], o[1], o[2], o[3]]
}

fn build_blob(rows: &[(usize, Vec<u8>)], size: usize) -> Vec<u8> {
    let mut blob = vec![0u8; size];
    for (at, bytes) in rows {
        blob[*at..*at + bytes.len()].copy_from_slice(bytes);
    }
    blob
}

#[test]
fn script_walk_stops_at_sentinel() {
    let blob = build_blob(
        &[
            (0x10, event_row(1, 2, 0, 0x40).to_vec()),
            (0x18, event_row(3, 4, 0, 0x40).to_vec()),
            // the all-zero row at 0x20 is the terminator
        ],
        0x50,
    );
    let script = new_script(&blob, 0x10);
    assert_eq!(script.offset, 0x10);
    assert_eq!(script.events.len(), 2);
    assert_eq!(script.events[0].namespace, 1);
    assert_eq!(script.events[0].code, 2);
    assert_eq!(script.events[1].namespace, 3);
    assert_eq!(script.events[1].code, 4);
    // the terminator is consumed, not emitted
    assert!(!script.events.iter().any(|e| e.namespace == 0 && e.code == 0));
}

#[test]
fn script_skips_psa_annotation_rows() {
    let blob = build_blob(
        &[
            (0x10, vec![0xFA, 0xDE, 0xF0, 0x0D, 0x00, 0x00, 0x00, 0x00]),
            (0x18, vec![0xFA, 0xDE, 0x0D, 0x8A, 0x00, 0x00, 0x00, 0x00]),
            (0x20, event_row(1, 2, 0, 0x40).to_vec()),
        ],
        0x50,
    );
    let script = new_script(&blob, 0x10);
    assert_eq!(script.events.len(), 1);
    assert_eq!(script.events[0].namespace, 1);
}

#[test]
fn script_zero_or_out_of_range_offset_is_empty() {
    let blob = [0u8; 0x20];
    assert!(new_script(&blob, 0).events.is_empty());
    assert!(new_script(&blob, 0x20).events.is_empty());
    assert!(new_script(&blob, 0x1000).events.is_empty());
}

#[test]
fn script_stops_on_bad_argument_offset() {
    let blob = build_blob(
        &[
            (0x10, event_row(1, 2, 0, 0x40).to_vec()),
            (0x18, event_row(3, 4, 1, 0x9999).to_vec()), // argument offset past the end
            (0x20, event_row(5, 6, 0, 0x40).to_vec()),
        ],
        0x50,
    );
    let script = new_script(&blob, 0x10);
    assert_eq!(script.events.len(), 1);
    assert_eq!(script.events[0].namespace, 1);
}

#[test]
fn scripts_reads_offset_table() {
    let blob = build_blob(
        &[
            (0x10, event_row(1, 2, 0, 0x30).to_vec()),
            (0x20, event_row(3, 4, 0, 0x30).to_vec()),
        ],
        0x40,
    );
    let offsets = [0x00, 0x00, 0x00, 0x10, 0x00, 0x00, 0x00, 0x20, 0xFF, 0xFF, 0xFF, 0xFF];
    let list = scripts(&blob, &offsets, 3);
    assert_eq!(list.len(), 3);
    assert_eq!(list[0].offset, 0x10);
    assert_eq!(list[0].events.len(), 1);
    assert_eq!(list[1].offset, 0x20);
    assert_eq!(list[1].events.len(), 1);
    // a negative table entry keeps its bit pattern and decodes nothing
    assert_eq!(list[2].offset, 0xFFFF_FFFF);
    assert!(list[2].events.is_empty());
}

#[test]
fn raw_id_packs_fields() {
    let event = Event {
        namespace: 0x04,
        code: 0x07,
        unk1: 0,
        arguments: vec![Argument::Value(1), Argument::Value(2)],
    };
    assert_eq!(event.raw_id(), 0x0407_0200);
}

fn offset_argument_row(target: i32) -> Vec<u8> {
    let t = target.to_be_bytes();
    vec![0x00, 0x00, 0x00, 0x02, t[0], t[1], t[2], t[3]]
}

#[test]
fn fragment_discovered_once() {
    // a subroutine at 0x100 points at 0x300, which is in no action table
    let blob = build_blob(
        &[
            (0x100, event_row(0, 7, 1, 0x400).to_vec()),
            (0x200, event_row(1, 2, 0, 0x400).to_vec()),
            (0x300, event_row(2, 3, 0, 0x400).to_vec()),
            (0x400, offset_argument_row(0x300)),
        ],
        0x500,
    );
    let offsets = [0x00, 0x00, 0x01, 0x00, 0x00, 0x00, 0x02, 0x00];
    let action = scripts(&blob, &offsets, 2);
    let fragments = fragment_scripts(&blob, &[&action]);
    assert_eq!(fragments.len(), 1);
    assert_eq!(fragments[0].offset, 0x300);
    assert_eq!(fragments[0].events.len(), 1);
    assert_eq!(fragments[0].events[0].namespace, 2);
    assert_eq!(fragments[0].events[0].code, 3);
}

#[test]
fn fragment_duplicates_and_action_targets_skipped() {
    // two gotos name 0x300; another goto names the action entry 0x200
    let blob = build_blob(
        &[
            (0x100, {
                let mut rows = event_row(0, 7, 1, 0x400).to_vec();
                rows.extend(event_row(0, 9, 1, 0x400));
                rows.extend(event_row(0, 9, 1, 0x408));
                rows
            }),
            (0x200, event_row(1, 2, 0, 0x400).to_vec()),
            (0x300, event_row(2, 3, 0, 0x400).to_vec()),
            (0x400, offset_argument_row(0x300)),
            (0x408, offset_argument_row(0x200)),
        ],
        0x500,
    );
    let offsets = [0x00, 0x00, 0x01, 0x00, 0x00, 0x00, 0x02, 0x00];
    let action = scripts(&blob, &offsets, 2);
    let fragments = fragment_scripts(&blob, &[&action]);
    assert_eq!(fragments.len(), 1);
    assert_eq!(fragments[0].offset, 0x300);
}

#[test]
fn fragment_ignores_nonpositive_targets() {
    let blob = build_blob(
        &[
            (0x100, {
                let mut rows = event_row(0, 7, 1, 0x400).to_vec();
                rows.extend(event_row(0, 9, 1, 0x408));
                rows
            }),
            (0x400, offset_argument_row(0)),
            (0x408, offset_argument_row(-0x10)),
        ],
        0x500,
    );
    let offsets = [0x00, 0x00, 0x01, 0x00];
    let action = scripts(&blob, &offsets, 1);
    let fragments = fragment_scripts(&blob, &[&action]);
    assert!(fragments.is_empty());
}

#[test]
fn fragment_event_needs_namespace_zero_and_goto_code() {
    let blob = build_blob(
        &[
            (0x100, {
                let mut rows = event_row(1, 7, 1, 0x400).to_vec(); // wrong namespace
                rows.extend(event_row(0, 8, 1, 0x400)); // code 8 is no goto
                rows
            }),
            (0x400, offset_argument_row(0x300)),
        ],
        0x500,
    );
    let offsets = [0x00, 0x00, 0x01, 0x00];
    let action = scripts(&blob, &offsets, 1);
    let fragments = fragment_scripts(&blob, &[&action]);
    assert!(fragments.is_empty());
}

#[test]
fn script_walk_stops_at_end_of_blob() {
    // no terminator: the walk ends when the next row would run past the end
    let blob = build_blob(&[(0x10, event_row(1, 2, 0, 0x10).to_vec())], 0x18);
    let script = new_script(&blob, 0x10);
    assert_eq!(script.events.len(), 1);
}

#[test]
fn fragment_discovery_is_one_level() {
    // the discovered fragment at 0x300 itself holds a goto to 0x310,
    // which is not followed
    let blob = build_blob(
        &[
            (0x100, event_row(0, 9, 1, 0x400).to_vec()),
            (0x300, event_row(0, 9, 1, 0x408).to_vec()),
            (0x400, offset_argument_row(0x300)),
            (0x408, offset_argument_row(0x310)),
        ],
        0x500,
    );
    let offsets = [0x00, 0x00, 0x01, 0x00];
    let action = scripts(&blob, &offsets, 1);
    let fragments = fragment_scripts(&blob, &[&action]);
    assert_eq!(fragments.len(), 1);
    assert_eq!(fragments[0].offset, 0x300);
}

#[test]
fn raw_id_with_no_arguments() {
    let event = Event { namespace: 1, code: 1, unk1: 9, arguments: vec![] };
    assert_eq!(event.raw_id(), 0x0101_0000);
}

#[test]
fn fragments_in_first_occurrence_order() {
    // two gotos name 0x310 then 0x300: the fragments come back in that
    // scan order
    let blob = build_blob(
        &[
            (0x100, {
                let mut rows = event_row(0, 9, 1, 0x400).to_vec();
                rows.extend(event_row(0, 7, 1, 0x408));
                rows
            }),
            (0x300, event_row(2, 3, 0, 0x400).to_vec()),
            (0x310, event_row(4, 5, 0, 0x400).to_vec()),
            (0x400, offset_argument_row(0x310)),
            (0x408, offset_argument_row(0x300)),
        ],
        0x500,
    );
    let offsets = [0x00, 0x00, 0x01, 0x00];
    let action = scripts(&blob, &offsets, 1);
    let fragments = fragment_scripts(&blob, &[&action]);
    assert_eq!(fragments.len(), 2);
    assert_eq!(fragments[0].offset, 0x310);
    assert_eq!(fragments[1].offset, 0x300);
}
