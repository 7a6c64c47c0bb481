use aoe_djin::dat::civilization::{
    Civilization, ClassAmount, Creatable, Type50, Unit, UnitPayload, UnitType,
};
use aoe_djin::dat::effect::{Effect, EffectCommand};
use aoe_djin::dat::tech::{ResourceCostTrigger, ResourceCostType, TechResourcesCost};
use aoe_djin::dat::{
    DatFile, Error, Misc, ResourceUsage, ResourceUsageTrigger, ResourceUsageType, Section,
};
use flate2::write::DeflateEncoder;
use flate2::Compression;
use std::io::Write;

fn put_u16(out: &mut Vec<u8>, value: u16) {
    out.extend_from_slice(&value.to_le_bytes());
}

fn put_i16(out: &mut Vec<u8>, value: i16) {
    out.extend_from_slice(&value.to_le_bytes());
}

fn put_u32(out: &mut Vec<u8>, value: u32) {
    out.extend_from_slice(&value.to_le_bytes());
}

fn put_i32(out: &mut Vec<u8>, value: i32) {
    out.extend_from_slice(&value.to_le_bytes());
}

fn put_name(out: &mut Vec<u8>, name: &str) {
    put_u16(out, name.len() as u16);
    out.extend_from_slice(name.as_bytes());
}

fn put_unit(out: &mut Vec<u8>, code: u8, id: i16, name: &str) {
    out.push(code);
    put_i16(out, id);
    put_i16(out, 6);
    put_i16(out, 45);
    put_u32(out, 4.0f32.to_bits());
    put_name(out, name);
    if code == 70 {
        put_u32(out, 2.0f32.to_bits());
        put_u16(out, 2);
        put_i16(out, 3);
        put_i16(out, 0);
        put_i16(out, 4);
        put_i16(out, 1);
        put_u16(out, 1);
        put_i16(out, 4);
        put_i16(out, 6);
        put_u16(out, 0);
        put_i16(out, 60);
        put_u16(out, 1);
        put_u16(out, 3);
        put_i16(out, 20);
        put_u16(out, 1);
        put_u16(out, 65535);
        put_i16(out, 0);
        put_u16(out, 0);
    }
}

fn put_tech(out: &mut Vec<u8>, name: &str, effect_id: i16, costs: [(u16, i16, u8); 3]) {
    put_i16(out, 1);
    put_i16(out, -1);
    put_i16(out, 103);
    put_i16(out, 30);
    put_i16(out, effect_id);
    put_i16(out, 0);
    put_i16(out, 34);
    out.push(7);
    for required in [101, -1, -1, -1, -1, -1] {
        put_i16(out, required);
    }
    for (kind, amount, flag) in costs {
        put_u16(out, kind);
        put_i16(out, amount);
        out.push(flag);
    }
    put_name(out, name);
}

struct Shape {
    rows: u16,
    columns: u16,
    colors: u16,
    sounds: u16,
    civilizations: u16,
}

const REFERENCE: Shape = Shape { rows: 31, columns: 110, colors: 16, sounds: 685, civilizations: 38 };

const SMALL: Shape = Shape { rows: 2, columns: 3, colors: 1, sounds: 2, civilizations: 2 };

fn sample(shape: &Shape) -> Vec<u8> {
    let mut out = Vec::new();
    out.extend_from_slice(b"VER 7.4\0");
    put_u16(&mut out, shape.rows);
    put_u16(&mut out, shape.columns);
    for row in 0..shape.rows {
        put_u32(&mut out, 1000 + row as u32);
    }
    for row in 0..shape.rows {
        put_u32(&mut out, 2000 + row as u32);
    }
    for row in 0..shape.rows {
        for column in 0..shape.columns {
            put_u32(&mut out, ((row + column) as f32).to_bits());
        }
        for column in 0..shape.columns {
            put_i32(&mut out, -1);
            put_i32(&mut out, column as i32);
            put_i32(&mut out, row as i32);
            put_u32(&mut out, 1.5f32.to_bits());
        }
    }
    put_u16(&mut out, shape.colors);
    for color in 0..shape.colors {
        for field in 0..9 {
            put_i32(&mut out, color as i32 * 16 + field);
        }
    }
    put_u16(&mut out, shape.sounds);
    for sound in 0..shape.sounds {
        put_i16(&mut out, sound as i16);
        put_i16(&mut out, -2);
        put_i32(&mut out, 300000);
        put_u16(&mut out, 100);
    }
    put_u16(&mut out, 2);
    for (id, name) in [(0i16, "ARCHER_ATTACK"), (1i16, "ARCHER_DEATH")] {
        put_i16(&mut out, id);
        put_i32(&mut out, 2 + id as i32);
        out.push(20);
        put_u16(&mut out, 10);
        put_u16(&mut out, 8);
        put_name(&mut out, name);
    }
    put_u16(&mut out, 1);
    out.push(1);
    out.push(0);
    put_i32(&mut out, 15001);
    put_i32(&mut out, -1);
    out.extend_from_slice(&[82, 83, 84]);
    put_name(&mut out, "Grass");
    put_u32(&mut out, 1);
    for field in 0..9 {
        put_i32(&mut out, field - 4);
    }
    put_u32(&mut out, 3);
    put_name(&mut out, "Fletching");
    put_u16(&mut out, 2);
    out.push(4);
    put_i16(&mut out, -1);
    put_i16(&mut out, 0);
    put_i16(&mut out, 9);
    put_u32(&mut out, 1.0f32.to_bits());
    out.push(4);
    put_i16(&mut out, -1);
    put_i16(&mut out, 0);
    put_i16(&mut out, 12);
    put_u32(&mut out, 1.0f32.to_bits());
    put_name(&mut out, "Loom");
    put_u16(&mut out, 0);
    put_name(&mut out, "Bodkin Arrow");
    put_u16(&mut out, 1);
    out.push(0);
    put_i16(&mut out, 4);
    put_i16(&mut out, 9);
    put_i16(&mut out, -1);
    put_u32(&mut out, 0);
    put_u32(&mut out, 2);
    out.push(1);
    put_u16(&mut out, 1);
    put_i16(&mut out, 1);
    put_i16(&mut out, 0);
    out.push(1);
    put_i16(&mut out, 7);
    put_i16(&mut out, -1);
    put_i16(&mut out, -1);
    out.push(0);
    put_u16(&mut out, 0);
    put_u16(&mut out, shape.civilizations);
    for civilization in 0..shape.civilizations {
        out.push(1);
        put_i16(&mut out, 254);
        put_i16(&mut out, civilization as i16);
        out.push(2);
        put_name(&mut out, if civilization == 0 { "Gaia" } else { "Britons" });
        put_u16(&mut out, 2);
        put_u32(&mut out, 200.0f32.to_bits());
        put_u32(&mut out, 100.0f32.to_bits());
        put_u16(&mut out, 3);
        put_unit(&mut out, 70, 4, "Archer");
        put_unit(&mut out, 80, 109, "Town Center");
        put_unit(&mut out, 10, 59, "Forage Bush");
    }
    put_u16(&mut out, 3);
    put_tech(&mut out, "Loom", 1, [(3, 50, 1), (65535, 0, 0), (65535, 0, 0)]);
    put_tech(&mut out, "Fletching", 0, [(0, 100, 1), (3, 50, 1), (65535, 0, 0)]);
    put_tech(&mut out, "Unfinished", 3, [(65535, 0, 0), (65535, 0, 0), (65535, 0, 0)]);
    for counter in 1..=7u32 {
        put_u32(&mut out, counter * 11);
    }
    out.push(1);
    put_i32(&mut out, 1);
    out.push(2);
    out.push(1);
    put_i32(&mut out, 109);
    out.push(2);
    put_i32(&mut out, 4);
    put_i32(&mut out, 59);
    out.push(1);
    put_i32(&mut out, 22);
    put_u16(&mut out, 1);
    put_i32(&mut out, 200);
    out.push(2);
    put_i32(&mut out, 87);
    put_i32(&mut out, 0);
    put_i32(&mut out, 1);
    out.push(1);
    put_i32(&mut out, 199);
    out
}

fn deflate(raw: &[u8]) -> Vec<u8> {
    let mut encoder = DeflateEncoder::new(Vec::new(), Compression::default());
    encoder.write_all(raw).unwrap();
    encoder.finish().unwrap()
}

fn archer() -> Unit {
    Unit {
        unit_type: UnitType::Creatable,
        id: 4,
        class: 6,
        hit_points: 45,
        line_of_sight: 4.0f32.to_bits(),
        name: "Archer".to_string(),
        payload: UnitPayload::Extended {
            type_50: Type50 {
                reload_time: 2.0f32.to_bits(),
                armor: vec![
                    ClassAmount { class: 3, amount: 0 },
                    ClassAmount { class: 4, amount: 1 },
                ],
                attacks: vec![ClassAmount { class: 4, amount: 6 }],
            },
            creatable: Creatable {
                resources_costs: vec![
                    ResourceUsage {
                        attribute: ResourceUsageType::Food,
                        amount: 60,
                        flag: ResourceUsageTrigger::OnQueue,
                    },
                    ResourceUsage {
                        attribute: ResourceUsageType::Gold,
                        amount: 20,
                        flag: ResourceUsageTrigger::OnQueue,
                    },
                    ResourceUsage {
                        attribute: ResourceUsageType::NoResource,
                        amount: 0,
                        flag: ResourceUsageTrigger::OnCreate,
                    },
                ],
            },
        },
    }
}

#[test]
fn should_read_dat_file() {
    let dat_file = DatFile::from_compressed(&deflate(&sample(&REFERENCE))).unwrap();
    // Version
    assert_eq!(dat_file.game_version.game_version, "VER 7.4\0".to_string());

    // Terrain Header
    assert_eq!(dat_file.terrain_header.terrain_restriction_size, 31);
    assert_eq!(dat_file.terrain_header.restriction_size, 110);
    assert_eq!(dat_file.terrain_header.terrain_restriction_size, 31);
    assert_eq!(dat_file.terrain_header.terrain_tables_pointer.len(), 31);
    assert_eq!(dat_file.terrain_header.terrains_pointer.len(), 31);

    // Terrain restrictions
    assert_eq!(dat_file.terrain_restrictions.inner.len(), 31);
    for el in dat_file.terrain_restrictions.inner.iter() {
        assert_eq!(el.pass_graphics.len(), 110);
        assert_eq!(el.passability.len(), 110);
    }

    // Colors
    assert_eq!(dat_file.color_table.colors.len(), 16);
    assert_eq!(dat_file.sound_table.sounds.len(), 685);
    assert_eq!(dat_file.civilizations.civilizations.len(), 38);

    let fletching = dat_file
        .techs
        .techs
        .iter()
        .find(|tech| tech.name == "Fletching")
        .expect("Could not find fletching");

    // Fletching cost 100 Food and 50 gold
    let expected = vec![
        TechResourcesCost {
            amount: 100,
            flag: ResourceCostTrigger::OnQueue,
            resource_type: ResourceCostType::Food,
        },
        TechResourcesCost {
            amount: 50,
            flag: ResourceCostTrigger::OnQueue,
            resource_type: ResourceCostType::Gold,
        },
        TechResourcesCost {
            amount: 0,
            flag: ResourceCostTrigger::OnCreate,
            resource_type: ResourceCostType::NoResource,
        },
    ];
    for cost in expected.iter() {
        assert!(fletching.research_resource_cost.contains(cost));
    }
}

#[test]
fn decodes_every_field_of_a_small_file() {
    let raw = sample(&SMALL);
    let file = DatFile::decode(&raw).unwrap();
    assert_eq!(file.terrain_header.terrain_tables_pointer, vec![1000, 1001]);
    assert_eq!(file.terrain_header.terrains_pointer, vec![2000, 2001]);
    let row = &file.terrain_restrictions.inner[1];
    assert_eq!(row.passability, vec![1.0f32.to_bits(), 2.0f32.to_bits(), 3.0f32.to_bits()]);
    assert_eq!(row.pass_graphics[2].exit_tile_sprite_id, -1);
    assert_eq!(row.pass_graphics[2].enter_tile_sprite_id, 2);
    assert_eq!(row.pass_graphics[2].walk_tile_sprite_id, 1);
    assert_eq!(f32::from_bits(row.pass_graphics[2].walk_sprite_rate), 1.5);
    assert_eq!(file.color_table.colors[0].id, 0);
    assert_eq!(file.color_table.colors[0].statistics_text, 8);
    assert_eq!(file.sound_table.sounds[1].id, 1);
    assert_eq!(file.sound_table.sounds[1].play_delay, -2);
    assert_eq!(file.sound_table.sounds[1].cache_time, 300000);
    assert_eq!(file.sound_table.sounds[1].total_probability, 100);
    assert_eq!(file.sprite_table.sprites[1].name, "ARCHER_DEATH");
    assert_eq!(file.sprite_table.sprites[1].slp_id, 3);
    assert_eq!(file.sprite_table.sprites[1].layer, 20);
    assert_eq!(file.sprite_table.sprites[1].frame_count, 10);
    assert_eq!(file.sprite_table.sprites[1].angle_count, 8);
    assert_eq!(file.terrain_block.terrains[0].name, "Grass");
    assert_eq!(file.terrain_block.terrains[0].slp_id, 15001);
    assert_eq!(file.terrain_block.terrains[0].sound_id, -1);
    assert_eq!(file.terrain_block.terrains[0].color_low, 84);
    assert_eq!(file.random_map.maps[0].map_id, -4);
    assert_eq!(file.random_map.maps[0].land_coverage, 4);
    assert_eq!(
        file.effects.effects[0],
        Effect {
            name: "Fletching".to_string(),
            commands: vec![
                EffectCommand { command_type: 4, a: -1, b: 0, c: 9, d: 1.0f32.to_bits() },
                EffectCommand { command_type: 4, a: -1, b: 0, c: 12, d: 1.0f32.to_bits() },
            ],
        }
    );
    assert_eq!(file.effects.effects[2].commands[0].c, -1);
    assert_eq!(file.units.headers.len(), 2);
    assert_eq!(file.units.headers[0].exists, 1);
    assert_eq!(file.units.headers[0].tasks[0].action_type, 7);
    assert_eq!(file.units.headers[1].tasks.len(), 0);
    let britons: &Civilization = &file.civilizations.civilizations[1];
    assert_eq!(britons.name, "Britons");
    assert_eq!(britons.tech_tree_id, 254);
    assert_eq!(britons.team_bonus_id, 1);
    assert_eq!(britons.resources, vec![200.0f32.to_bits(), 100.0f32.to_bits()]);
    assert_eq!(britons.units[0], archer());
    assert_eq!(britons.units[1].name, "Town Center");
    assert_eq!(britons.units[1].id, 109);
    assert_eq!(file.techs.techs[0].name, "Loom");
    assert_eq!(file.techs.techs[0].required_techs, vec![101, -1, -1, -1, -1, -1]);
    assert_eq!(file.techs.techs[0].research_location, 103);
    assert_eq!(file.techs.techs[0].civilization, -1);
    assert_eq!(file.techs.techs[0].button_id, 7);
    assert_eq!(
        file.misc,
        Misc {
            time_slice: 11,
            unit_kill_rate: 22,
            unit_kill_total: 33,
            unit_hit_point_rate: 44,
            unit_hit_point_total: 55,
            razing_kill_rate: 66,
            razing_kill_total: 77,
        }
    );
    assert_eq!(file.tech_tree.ages[0].buildings, vec![109]);
    assert_eq!(file.tech_tree.ages[0].units, vec![4, 59]);
    assert_eq!(file.tech_tree.ages[0].techs, vec![22]);
    assert_eq!(file.tech_tree.research_connections[0].id, 200);
    assert_eq!(file.tech_tree.research_connections[0].upper_building, 87);
    assert_eq!(file.tech_tree.research_connections[0].required_techs, vec![199]);
}

#[test]
fn restriction_matrix_has_the_shape_of_the_header() {
    for (rows, columns) in [(0u16, 0u16), (0, 5), (4, 0), (1, 1), (7, 3)] {
        let shape = Shape { rows, columns, colors: 1, sounds: 1, civilizations: 1 };
        let file = DatFile::decode(&sample(&shape)).unwrap();
        assert_eq!(file.terrain_header.terrain_tables_pointer.len(), rows as usize);
        assert_eq!(file.terrain_header.terrains_pointer.len(), rows as usize);
        assert_eq!(file.terrain_restrictions.inner.len(), rows as usize);
        for row in file.terrain_restrictions.inner.iter() {
            assert_eq!(row.passability.len(), columns as usize);
            assert_eq!(row.pass_graphics.len(), columns as usize);
        }
    }
}

#[test]
fn decoding_twice_gives_equal_files() {
    let compressed = deflate(&sample(&SMALL));
    let first = DatFile::from_compressed(&compressed);
    let second = DatFile::from_compressed(&compressed);
    assert!(first.is_ok());
    assert_eq!(first, second);
    let broken = &compressed[..compressed.len() / 2];
    assert_eq!(DatFile::from_compressed(broken), DatFile::from_compressed(broken));
}

#[test]
fn container_is_inflated_before_it_is_decoded() {
    let raw = sample(&SMALL);
    let compressed = deflate(&raw);
    assert_ne!(raw, compressed);
    assert_eq!(DatFile::from_compressed(&compressed), DatFile::decode(&raw));
    assert_eq!(DatFile::from_inflated(Ok(raw.clone())), DatFile::decode(&raw));
}

#[test]
fn only_trainable_units_carry_the_extended_records() {
    let file = DatFile::decode(&sample(&SMALL)).unwrap();
    let mut trainable = 0;
    let mut others = 0;
    for civilization in file.civilizations.civilizations.iter() {
        for unit in civilization.units.iter() {
            if unit.unit_type == UnitType::Creatable {
                trainable += 1;
                assert!(unit.type_50().is_some());
                assert!(unit.creatable().is_some());
                assert_eq!(unit.type_50().unwrap().attacks.len(), 1);
                assert_eq!(unit.creatable().unwrap().resources_costs.len(), 3);
            } else {
                others += 1;
                assert_eq!(unit.payload, UnitPayload::Base);
                assert!(unit.type_50().is_none());
                assert!(unit.creatable().is_none());
            }
        }
    }
    assert_eq!(trainable, 2);
    assert_eq!(others, 4);
}

#[test]
fn technology_resolves_to_the_effect_of_its_row() {
    let file = DatFile::decode(&sample(&SMALL)).unwrap();
    let fletching = &file.techs.techs[1];
    assert_eq!(fletching.effect_id, 0);
    assert_eq!(file.effect_of(fletching).unwrap().name, "Fletching");
    let loom = &file.techs.techs[0];
    assert_eq!(file.effect_of(loom).unwrap().name, "Loom");
    let unfinished = &file.techs.techs[2];
    assert_eq!(unfinished.effect_id, 3);
    assert_eq!(file.effect_of(unfinished), None);
    assert_eq!(file.effects.get(2).unwrap().name, "Bodkin Arrow");
    assert_eq!(file.effects.get(3), None);
    assert_eq!(file.effects.get(-1), None);
    assert_eq!(file.effects.get(i16::MAX), None);
    assert_eq!(file.effects.get(i16::MIN), None);
}

#[test]
fn stream_cut_short_never_decodes() {
    let raw = sample(&SMALL);
    let whole = DatFile::decode(&raw);
    assert!(whole.is_ok());
    for kept in 0..raw.len() {
        match DatFile::decode(&raw[..kept]) {
            Ok(_) => panic!("decoded {} of {} bytes", kept, raw.len()),
            Err(Error::Read { offset, .. }) => assert!(offset <= kept),
            Err(other) => panic!("{:?} after {} bytes", other, kept),
        }
    }
}

#[test]
fn bytes_behind_the_last_section_are_not_looked_at() {
    let raw = sample(&SMALL);
    let mut longer = raw.clone();
    longer.extend_from_slice(&[0xff, 0x00, 0x80]);
    assert_eq!(DatFile::decode(&longer), DatFile::decode(&raw));
}

#[test]
fn container_cut_short_fails_or_gives_the_whole_file() {
    let compressed = deflate(&sample(&SMALL));
    let whole = DatFile::from_compressed(&compressed);
    assert!(whole.is_ok());
    for kept in 0..compressed.len() {
        let cut = DatFile::from_compressed(&compressed[..kept]);
        assert!(cut.is_err() || cut == whole, "{} bytes kept", kept);
    }
    assert_eq!(DatFile::from_compressed(&[]), Err(Error::Decompression));
}

#[test]
fn container_that_is_no_deflate_stream_is_refused() {
    assert_eq!(DatFile::from_compressed(&[0xff; 64]), Err(Error::Decompression));
    let failed = std::io::Error::new(std::io::ErrorKind::UnexpectedEof, "cut");
    assert_eq!(DatFile::from_inflated(Err(failed)), Err(Error::Decompression));
}

#[test]
fn failure_names_the_section_and_the_offset() {
    assert_eq!(
        DatFile::decode(b"VER 7.4"),
        Err(Error::Read { section: Section::GameVersion, offset: 0 })
    );
    assert_eq!(
        DatFile::decode(b"VER 7.4\0\x01"),
        Err(Error::Read { section: Section::TerrainHeader, offset: 8 })
    );
    assert_eq!(
        DatFile::decode(b"VER 7.4\0\x01\0\x01\0\x07\0\0"),
        Err(Error::Read { section: Section::TerrainHeader, offset: 12 })
    );
    assert_eq!(
        DatFile::decode(b"\xff\xfe\xfd\xfc\xfb\xfa\xf9\xf8rest"),
        Err(Error::Read { section: Section::GameVersion, offset: 0 })
    );
    let header = b"VER 7.4\0\x01\0\x01\0\x07\0\0\0\x08\0\0\0";
    assert_eq!(
        DatFile::decode(header),
        Err(Error::Read { section: Section::TerrainRestrictions, offset: 20 })
    );
    let mut colors = b"VER 7.4\0\0\0\0\0".to_vec();
    colors.extend_from_slice(&[2, 0]);
    colors.extend_from_slice(&[0; 36]);
    assert_eq!(
        DatFile::decode(&colors),
        Err(Error::Read { section: Section::ColorTable, offset: 50 })
    );
    colors.extend_from_slice(&[0; 36]);
    assert_eq!(
        DatFile::decode(&colors),
        Err(Error::Read { section: Section::SoundTable, offset: 86 })
    );
}

#[test]
fn unknown_codes_are_refused_where_they_stand() {
    let raw = sample(&SMALL);
    let whole = DatFile::decode(&raw).unwrap();
    assert_eq!(whole.civilizations.civilizations[0].units[0].unit_type, UnitType::Creatable);
    let name = raw.windows(6).position(|window| window == b"Archer").unwrap();
    let kind = name - 2 - 10 - 1;
    assert_eq!(raw[kind], 70);
    let mut unknown_unit = raw.clone();
    unknown_unit[kind] = 71;
    assert_eq!(
        DatFile::decode(&unknown_unit),
        Err(Error::Discriminant { section: Section::Civilizations, offset: kind })
    );
    let usage = name + 6 + 4 + 2 + 8 + 2 + 4;
    assert_eq!(&raw[usage..usage + 6], &[0, 0, 60, 0, 1, 0]);
    let mut unknown_resource = raw.clone();
    unknown_resource[usage] = 5;
    assert_eq!(
        DatFile::decode(&unknown_resource),
        Err(Error::Discriminant { section: Section::Civilizations, offset: usage })
    );
    let mut unknown_trigger = raw.clone();
    unknown_trigger[usage + 4] = 2;
    assert_eq!(
        DatFile::decode(&unknown_trigger),
        Err(Error::Discriminant { section: Section::Civilizations, offset: usage + 4 })
    );
    let mut sentinel = raw.clone();
    sentinel[usage] = 0xff;
    sentinel[usage + 1] = 0xff;
    let decoded = DatFile::decode(&sentinel).unwrap();
    let costs = &decoded.civilizations.civilizations[0].units[0].creatable().unwrap().resources_costs;
    assert_eq!(costs[0].attribute, ResourceUsageType::NoResource);
    assert_eq!(costs[0].amount, 60);
}

#[test]
fn unknown_cost_codes_are_refused_in_the_technologies() {
    let raw = sample(&SMALL);
    let name = raw.windows(10).position(|window| window == b"Unfinished").unwrap();
    let costs = name - 2 - 15;
    assert_eq!(&raw[costs..costs + 5], &[0xff, 0xff, 0, 0, 0]);
    let mut unknown_type = raw.clone();
    unknown_type[costs] = 4;
    unknown_type[costs + 1] = 0;
    assert_eq!(
        DatFile::decode(&unknown_type),
        Err(Error::Discriminant { section: Section::Techs, offset: costs })
    );
    let mut unknown_trigger = raw.clone();
    unknown_trigger[costs + 4] = 9;
    assert_eq!(
        DatFile::decode(&unknown_trigger),
        Err(Error::Discriminant { section: Section::Techs, offset: costs + 4 })
    );
}
