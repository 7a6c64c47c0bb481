use aoe_djin::dat::civilization::UnitType;
use aoe_djin::dat::color::Color;
use aoe_djin::dat::effect::EffectCommand;
use aoe_djin::dat::tech::{ResourceCostTrigger, ResourceCostType};
use aoe_djin::dat::terrain::{TerrainRestriction, TerrainRestrictions};
use aoe_djin::dat::text::{read_name, read_text};
use aoe_djin::dat::wire::{
    has_bytes, read_counted, read_list_16, read_list_32, read_list_8, read_sequence, Fault,
    FaultKind, Record,
};
use aoe_djin::dat::{locate, Error, ResourceUsage, ResourceUsageTrigger, ResourceUsageType, Section};

#[test]
fn scalars_are_little_endian() {
    let bytes = [0x34, 0x12, 0xff, 0xff, 0x78, 0x56, 0x34, 0x12, 0xfe, 0xff, 0xff, 0xff, 0x00, 0x80];
    assert_eq!(u8::decode(&bytes, 1), Ok((0x12, 2)));
    assert_eq!(u16::decode(&bytes, 0), Ok((0x1234, 2)));
    assert_eq!(u16::decode(&bytes, 2), Ok((65535, 4)));
    assert_eq!(i16::decode(&bytes, 2), Ok((-1, 4)));
    assert_eq!(i16::decode(&bytes, 12), Ok((i16::MIN, 14)));
    assert_eq!(i16::decode(&bytes, 0), Ok((0x1234, 2)));
    assert_eq!(u32::decode(&bytes, 4), Ok((0x12345678, 8)));
    assert_eq!(u32::decode(&bytes, 8), Ok((0xfffffffe, 12)));
    assert_eq!(i32::decode(&bytes, 8), Ok((-2, 12)));
    assert_eq!(i32::decode(&bytes, 4), Ok((0x12345678, 8)));
    assert_eq!(i32::decode(&[0, 0, 0, 0x80], 0), Ok((i32::MIN, 4)));
    assert_eq!(i32::decode(&[0xff, 0xff, 0xff, 0x7f], 0), Ok((i32::MAX, 4)));
}

#[test]
fn reads_fail_where_the_buffer_ends() {
    let bytes = [1u8, 2, 3];
    assert!(has_bytes(&bytes, 0, 3));
    assert!(has_bytes(&bytes, 3, 0));
    assert!(!has_bytes(&bytes, 1, 3));
    assert!(!has_bytes(&bytes, 4, 0));
    assert!(!has_bytes(&bytes, usize::MAX, 2));
    assert_eq!(u8::decode(&bytes, 2), Ok((3, 3)));
    assert_eq!(u8::decode(&bytes, 3), Err(Fault { kind: FaultKind::Read, offset: 3 }));
    assert_eq!(u16::decode(&bytes, 1), Ok((0x0302, 3)));
    assert_eq!(u16::decode(&bytes, 2), Err(Fault { kind: FaultKind::Read, offset: 2 }));
    assert_eq!(i16::decode(&bytes, 7), Err(Fault { kind: FaultKind::Read, offset: 7 }));
    assert_eq!(u32::decode(&bytes, 0), Err(Fault { kind: FaultKind::Read, offset: 0 }));
    assert_eq!(i32::decode(&[0xff, 0xff, 0xff, 0xff], 0), Ok((-1, 4)));
}

#[test]
fn sequences_stop_at_the_first_failure() {
    let bytes = [1u8, 0, 2, 0, 3, 0, 4];
    assert_eq!(read_sequence::<u16>(&bytes, 0, 3), Ok((vec![1, 2, 3], 6)));
    assert_eq!(read_sequence::<u16>(&bytes, 2, 0), Ok((vec![], 2)));
    assert_eq!(
        read_sequence::<u16>(&bytes, 0, 4),
        Err(Fault { kind: FaultKind::Read, offset: 6 })
    );
    assert_eq!(
        read_sequence::<ResourceUsageTrigger>(&bytes, 0, 3),
        Err(Fault { kind: FaultKind::Discriminant, offset: 2 })
    );
}

#[test]
fn counts_larger_than_the_rest_of_the_buffer_are_refused() {
    let bytes = [3u8, 0, 9, 8, 7];
    assert_eq!(read_list_16::<u8>(&bytes, 0), Ok((vec![9, 8, 7], 5)));
    assert_eq!(read_list_8::<u8>(&bytes, 0), Ok((vec![0, 9, 8], 4)));
    assert_eq!(read_list_8::<u8>(&bytes, 2), Err(Fault { kind: FaultKind::Read, offset: 2 }));
    assert_eq!(read_list_16::<u8>(&bytes, 2), Err(Fault { kind: FaultKind::Read, offset: 2 }));
    assert_eq!(read_list_16::<u16>(&bytes, 0), Err(Fault { kind: FaultKind::Read, offset: 4 }));
    assert_eq!(read_list_16::<u8>(&bytes, 4), Err(Fault { kind: FaultKind::Read, offset: 4 }));
    assert_eq!(
        read_list_32::<u8>(&[0xff, 0xff, 0xff, 0xff, 1], 0),
        Err(Fault { kind: FaultKind::Read, offset: 0 })
    );
    assert_eq!(read_list_32::<u8>(&[1, 0, 0, 0, 42], 0), Ok((vec![42], 5)));
    assert_eq!(read_list_32::<u8>(&[0, 0, 0, 0], 0), Ok((vec![], 4)));
    assert_eq!(read_counted::<u8>(&bytes, 0, 2, 3), Ok((vec![9, 8, 7], 5)));
    assert_eq!(
        read_counted::<u8>(&bytes, 0, 2, 4),
        Err(Fault { kind: FaultKind::Read, offset: 0 })
    );
    assert_eq!(
        read_counted::<u8>(&bytes, 1, 9, 0),
        Err(Fault { kind: FaultKind::Read, offset: 1 })
    );
}

#[test]
fn texts_must_be_utf8() {
    let bytes = b"\x05\x00H\xc3\xa9llo\xff";
    assert_eq!(read_text(bytes, 2, 5), Ok(("H\u{e9}ll".to_string(), 7)));
    assert_eq!(read_text(bytes, 2, 0), Ok((String::new(), 2)));
    assert_eq!(read_text(bytes, 3, 1), Err(Fault { kind: FaultKind::Read, offset: 3 }));
    assert_eq!(read_text(bytes, 8, 1), Err(Fault { kind: FaultKind::Read, offset: 8 }));
    assert_eq!(read_text(bytes, 2, 8), Err(Fault { kind: FaultKind::Read, offset: 2 }));
    assert_eq!(read_text(b"VER 7.4\0", 0, 8), Ok(("VER 7.4\0".to_string(), 8)));
    assert_eq!(read_name(bytes, 0), Ok(("H\u{e9}ll".to_string(), 7)));
    assert_eq!(read_name(b"\x09\x00Fletching", 0), Ok(("Fletching".to_string(), 11)));
    assert_eq!(read_name(b"\x02\x00a", 0), Err(Fault { kind: FaultKind::Read, offset: 0 }));
    assert_eq!(read_name(b"\x01\x00\xff", 0), Err(Fault { kind: FaultKind::Read, offset: 0 }));
    assert_eq!(read_name(b"\x01", 0), Err(Fault { kind: FaultKind::Read, offset: 0 }));
}

#[test]
fn resource_types_keep_their_sparse_codes() {
    let codes = [
        (0u16, ResourceUsageType::Food),
        (1, ResourceUsageType::Wood),
        (2, ResourceUsageType::Stone),
        (3, ResourceUsageType::Gold),
        (4, ResourceUsageType::Pop),
        (214, ResourceUsageType::Free),
        (215, ResourceUsageType::DecreaseSharedUnitCount),
        (218, ResourceUsageType::TownCenter),
        (219, ResourceUsageType::TeamBonusCounter),
        (65535, ResourceUsageType::NoResource),
    ];
    for (code, kind) in codes {
        assert_eq!(ResourceUsageType::from_code(code), Some(kind));
        assert_eq!(kind.code(), code);
    }
    for code in 0..=u16::MAX {
        match ResourceUsageType::from_code(code) {
            Some(kind) => assert_eq!(kind.code(), code),
            None => assert!(codes.iter().all(|(known, _)| *known != code)),
        }
    }
    assert_eq!(ResourceUsageType::from_code(5), None);
    assert_eq!(ResourceUsageType::from_code(216), None);
    assert_eq!(ResourceUsageType::from_code(65534), None);
    assert_eq!(ResourceUsageType::NoResource.code() as i16, -1);
}

#[test]
fn other_enumerations_keep_their_codes() {
    assert_eq!(ResourceUsageTrigger::from_code(0), Some(ResourceUsageTrigger::OnCreate));
    assert_eq!(ResourceUsageTrigger::from_code(1), Some(ResourceUsageTrigger::OnQueue));
    assert_eq!(ResourceUsageTrigger::from_code(2), None);
    assert_eq!(ResourceUsageTrigger::OnQueue.code(), 1);
    assert_eq!(ResourceCostTrigger::from_code(1), Some(ResourceCostTrigger::OnQueue));
    assert_eq!(ResourceCostTrigger::from_code(255), None);
    assert_eq!(ResourceCostType::from_code(65535), Some(ResourceCostType::NoResource));
    assert_eq!(ResourceCostType::from_code(4), None);
    assert_eq!(ResourceCostType::Gold.code(), 3);
    for code in 0..=u8::MAX {
        match UnitType::from_code(code) {
            Some(kind) => assert_eq!(kind.code(), code),
            None => assert!(![10, 15, 20, 25, 30, 40, 50, 60, 70, 80, 90].contains(&code)),
        }
    }
    assert_eq!(UnitType::from_code(70), Some(UnitType::Creatable));
    assert_eq!(UnitType::from_code(80), Some(UnitType::Building));
    assert_eq!(UnitType::from_code(0), None);
}

#[test]
fn resource_usage_is_six_bytes() {
    let bytes = [0xda, 0x00, 0xf6, 0xff, 0x01, 0x00, 0xff, 0xff, 0x00, 0x00, 0x00, 0x00];
    assert_eq!(
        ResourceUsage::decode(&bytes, 0),
        Ok((
            ResourceUsage {
                attribute: ResourceUsageType::TownCenter,
                amount: -10,
                flag: ResourceUsageTrigger::OnQueue,
            },
            6
        ))
    );
    assert_eq!(
        ResourceUsage::decode(&bytes, 6),
        Ok((
            ResourceUsage {
                attribute: ResourceUsageType::NoResource,
                amount: 0,
                flag: ResourceUsageTrigger::OnCreate,
            },
            12
        ))
    );
    assert_eq!(
        ResourceUsage::decode(&bytes, 2),
        Err(Fault { kind: FaultKind::Discriminant, offset: 2 })
    );
    assert_eq!(ResourceUsage::decode(&bytes, 8), Err(Fault { kind: FaultKind::Read, offset: 12 }));
    assert_eq!(ResourceUsage::decode(&bytes, 11), Err(Fault { kind: FaultKind::Read, offset: 11 }));
}

#[test]
fn fixed_records_are_read_field_by_field() {
    let mut bytes = vec![9u8];
    for field in 1..=9i32 {
        bytes.extend_from_slice(&(-field).to_le_bytes());
    }
    let (color, next) = Color::decode(&bytes, 1).unwrap();
    assert_eq!(next, 37);
    assert_eq!(
        color,
        Color {
            id: -1,
            base: -2,
            outline: -3,
            selection_1: -4,
            selection_2: -5,
            minimap_1: -6,
            minimap_2: -7,
            minimap_3: -8,
            statistics_text: -9,
        }
    );
    assert_eq!(Color::decode(&bytes, 2), Err(Fault { kind: FaultKind::Read, offset: 2 }));
    let command = [101u8, 0x10, 0x00, 0xff, 0xff, 0x02, 0x01, 0x00, 0x00, 0x80, 0x3f];
    assert_eq!(
        EffectCommand::decode(&command, 0),
        Ok((EffectCommand { command_type: 101, a: 16, b: -1, c: 258, d: 1.0f32.to_bits() }, 11))
    );
}

#[test]
fn restriction_rows_hold_passability_before_graphics() {
    let mut bytes = Vec::new();
    for value in [10u32, 20] {
        bytes.extend_from_slice(&value.to_le_bytes());
    }
    for value in [1i32, 2, 3, 4, 5, 6, 7, 8] {
        bytes.extend_from_slice(&value.to_le_bytes());
    }
    let (row, next) = TerrainRestriction::read(&bytes, 0, 2).unwrap();
    assert_eq!(next, 40);
    assert_eq!(row.passability, vec![10, 20]);
    assert_eq!(row.pass_graphics[0].exit_tile_sprite_id, 1);
    assert_eq!(row.pass_graphics[1].walk_sprite_rate, 8);
    let (matrix, next) = TerrainRestrictions::read(&bytes, 0, 2, 1).unwrap();
    assert_eq!(next, 40);
    assert_eq!(matrix.inner[0].passability, vec![10]);
    assert_eq!(matrix.inner[0].pass_graphics[0].exit_tile_sprite_id, 20);
    assert_eq!(matrix.inner[0].pass_graphics[0].walk_sprite_rate, 3);
    assert_eq!(matrix.inner[1].passability, vec![4]);
    assert_eq!(matrix.inner[1].pass_graphics[0].exit_tile_sprite_id, 5);
    assert_eq!(matrix.inner[1].pass_graphics[0].walk_sprite_rate, 8);
    assert_eq!(
        TerrainRestrictions::read(&bytes, 0, 3, 1),
        Err(Fault { kind: FaultKind::Read, offset: 40 })
    );
    assert_eq!(TerrainRestrictions::read(&bytes, 40, 0, 9).unwrap().1, 40);
}

#[test]
fn faults_are_located_in_their_section() {
    assert_eq!(
        locate(Section::Techs, Fault { kind: FaultKind::Read, offset: 17 }),
        Error::Read { section: Section::Techs, offset: 17 }
    );
    assert_eq!(
        locate(Section::Civilizations, Fault { kind: FaultKind::Discriminant, offset: 3 }),
        Error::Discriminant { section: Section::Civilizations, offset: 3 }
    );
}
