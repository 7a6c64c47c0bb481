//! The data file, its sections and the pipeline that decodes them in file
//! order.
pub mod civilization;
pub mod color;
pub mod effect;
pub mod random_map;
pub mod resource;
pub mod sound;
pub mod sprite;
pub mod tech;
pub mod tech_tree;
pub mod terrain;
pub mod terrain_block;
pub mod text;
pub mod unit;
pub mod wire;
pub mod zlib;

pub use resource::{ResourceUsage, ResourceUsageTrigger, ResourceUsageType};

use crate::dat::civilization::{Civilizations, CivilizationsModel};
use crate::dat::color::{ColorTable, ColorTableModel};
use crate::dat::effect::{Effect, EffectModel, Effects, EffectsModel};
use crate::dat::random_map::{RandomMap, RandomMapModel};
use crate::dat::sound::{SoundTable, SoundTableModel};
use crate::dat::sprite::{SpriteTable, SpriteTableModel};
use crate::dat::tech::{Tech, Techs, TechsModel};
use crate::dat::tech_tree::{TechTree, TechTreeModel};
use crate::dat::terrain::{
    lemma_restrictions_local, lemma_restrictions_refusal_stands, lemma_restrictions_shape,
    lemma_restrictions_within, parse_restrictions, TerrainHeader, TerrainHeaderModel,
    TerrainRestrictions, TerrainRestrictionsModel,
};
use crate::dat::terrain_block::{TerrainBlock, TerrainBlockModel};
use crate::dat::text::{lemma_text_local, lemma_text_within, parse_text, read_text};
use crate::dat::unit::{Units, UnitsModel};
use crate::dat::wire::{
    fail, has_bytes, holds, is_prefix, le_u32, same_bytes, u32_at, unreadable, Fault, FaultKind,
    Parsed, Record,
};
use crate::dat::zlib::{decompress, inflated};
use vstd::prelude::*;

verus! {

/// The version of the game that wrote the file.
#[derive(Clone, Debug, PartialEq, Eq)]
pub struct GameVersion {
    pub game_version: String,
}

/// What a value of `GameVersion` stands for.
pub struct GameVersionModel {
    pub game_version: Seq<char>,
}

impl View for GameVersion {
    type V = GameVersionModel;

    open spec fn view(&self) -> GameVersionModel {
        GameVersionModel {
            game_version: self.game_version@,
        }
    }
}

impl Record for GameVersion {
    /// A text of eight bytes, the first thing in the stream.
    open spec fn parse(bytes: Seq<u8>, at: int) -> Parsed<GameVersionModel> {
        let game_version = parse_text(bytes, at, 8);
        if game_version is Failure {
            fail(game_version)
        } else {
            Parsed::Value {
                value: GameVersionModel {
                    game_version: game_version->value,
                },
                next: game_version->next,
            }
        }
    }

    fn decode(bytes: &[u8], at: usize) -> (result: Result<(GameVersion, usize), Fault>) {
        let (game_version, next) = read_text(bytes, at, 8)?;
        Ok((
            GameVersion {
                game_version,
            },
            next,
        ))
    }

    proof fn lemma_parse_within(bytes: Seq<u8>, at: int) {
        lemma_text_within(bytes, at, 8);
    }

    proof fn lemma_parse_local(a: Seq<u8>, b: Seq<u8>, at: int, upto: int) {
        let whole = Self::parse(a, at);
        if whole is Value && whole->next <= upto {
            lemma_text_within(a, at, 8);
            lemma_text_local(a, b, at, upto, 8);
        }
    }

    proof fn lemma_refusal_stands(short: Seq<u8>, long: Seq<u8>, at: int) {
    }
}

/// Seven counters of kill and hit point rates.
#[derive(Clone, Copy, Debug, PartialEq, Eq, Structural)]
pub struct Misc {
    pub time_slice: u32,
    pub unit_kill_rate: u32,
    pub unit_kill_total: u32,
    pub unit_hit_point_rate: u32,
    pub unit_hit_point_total: u32,
    pub razing_kill_rate: u32,
    pub razing_kill_total: u32,
}

impl View for Misc {
    type V = Misc;

    open spec fn view(&self) -> Misc {
        *self
    }
}

impl Record for Misc {
    /// Seven four-byte values, twenty-eight bytes in all.
    open spec fn parse(bytes: Seq<u8>, at: int) -> Parsed<Misc> {
        if !holds(bytes, at, 28) {
            unreadable(at)
        } else {
            Parsed::Value {
                value: Misc {
                    time_slice: le_u32(bytes, at),
                    unit_kill_rate: le_u32(bytes, at + 4),
                    unit_kill_total: le_u32(bytes, at + 8),
                    unit_hit_point_rate: le_u32(bytes, at + 12),
                    unit_hit_point_total: le_u32(bytes, at + 16),
                    razing_kill_rate: le_u32(bytes, at + 20),
                    razing_kill_total: le_u32(bytes, at + 24),
                },
                next: at + 28,
            }
        }
    }

    fn decode(bytes: &[u8], at: usize) -> (result: Result<(Misc, usize), Fault>) {
        if !has_bytes(bytes, at, 28) {
            return Err(Fault { kind: FaultKind::Read, offset: at });
        }
        Ok((
            Misc {
                time_slice: u32_at(bytes, at),
                unit_kill_rate: u32_at(bytes, at + 4),
                unit_kill_total: u32_at(bytes, at + 8),
                unit_hit_point_rate: u32_at(bytes, at + 12),
                unit_hit_point_total: u32_at(bytes, at + 16),
                razing_kill_rate: u32_at(bytes, at + 20),
                razing_kill_total: u32_at(bytes, at + 24),
            },
            at + 28,
        ))
    }

    proof fn lemma_parse_within(bytes: Seq<u8>, at: int) {
    }

    proof fn lemma_parse_local(a: Seq<u8>, b: Seq<u8>, at: int, upto: int) {
    }

    proof fn lemma_refusal_stands(short: Seq<u8>, long: Seq<u8>, at: int) {
    }
}

/// The sections of the file, in the order in which they stand in it.
#[derive(Clone, Copy, Debug, PartialEq, Eq, Structural)]
pub enum Section {
    GameVersion,
    TerrainHeader,
    TerrainRestrictions,
    ColorTable,
    SoundTable,
    SpriteTable,
    TerrainBlock,
    RandomMap,
    Effects,
    Units,
    Civilizations,
    Techs,
    Misc,
    TechTree,
}

/// Why a file could not be decoded. Every failure is final: after a
/// misread offset nothing behind it can be trusted.
#[derive(Clone, Copy, Debug, PartialEq, Eq, Structural)]
pub enum Error {
    /// The container is no complete deflate stream.
    Decompression,
    /// The buffer ends inside the section, or the section holds a count or
    /// a text that cannot be read, at this byte offset of the inflated
    /// stream.
    Read { section: Section, offset: usize },
    /// The section holds an enumeration code that stands for no known
    /// symbol, at this byte offset of the inflated stream.
    Discriminant { section: Section, offset: usize },
}

/// The whole ruleset: every section of the file, in file order.
#[derive(Clone, Debug, PartialEq, Eq)]
pub struct DatFile {
    pub game_version: GameVersion,
    pub terrain_header: TerrainHeader,
    pub terrain_restrictions: TerrainRestrictions,
    pub color_table: ColorTable,
    pub sound_table: SoundTable,
    pub sprite_table: SpriteTable,
    pub terrain_block: TerrainBlock,
    pub random_map: RandomMap,
    pub effects: Effects,
    pub units: Units,
    pub civilizations: Civilizations,
    pub techs: Techs,
    pub misc: Misc,
    pub tech_tree: TechTree,
}

/// What a value of `DatFile` stands for.
pub struct DatFileModel {
    pub game_version: GameVersionModel,
    pub terrain_header: TerrainHeaderModel,
    pub terrain_restrictions: TerrainRestrictionsModel,
    pub color_table: ColorTableModel,
    pub sound_table: SoundTableModel,
    pub sprite_table: SpriteTableModel,
    pub terrain_block: TerrainBlockModel,
    pub random_map: RandomMapModel,
    pub effects: EffectsModel,
    pub units: UnitsModel,
    pub civilizations: CivilizationsModel,
    pub techs: TechsModel,
    pub misc: Misc,
    pub tech_tree: TechTreeModel,
}

impl View for DatFile {
    type V = DatFileModel;

    open spec fn view(&self) -> DatFileModel {
        DatFileModel {
            game_version: self.game_version@,
            terrain_header: self.terrain_header@,
            terrain_restrictions: self.terrain_restrictions@,
            color_table: self.color_table@,
            sound_table: self.sound_table@,
            sprite_table: self.sprite_table@,
            terrain_block: self.terrain_block@,
            random_map: self.random_map@,
            effects: self.effects@,
            units: self.units@,
            civilizations: self.civilizations@,
            techs: self.techs@,
            misc: self.misc@,
            tech_tree: self.tech_tree@,
        }
    }
}

impl DatFileModel {
    /// What holds of every file that was decoded: the restriction matrix
    /// has the rows and columns that the terrain header gives, the header
    /// has one pointer per row in each of its runs, and every unit carries
    /// its extended sub-records exactly when its kind asks for them.
    pub open spec fn well_formed(self) -> bool {
        &&& self.terrain_restrictions.has_shape(
            self.terrain_header.terrain_restriction_size as nat,
            self.terrain_header.restriction_size as nat,
        )
        &&& self.terrain_header.terrain_tables_pointer.len()
            == self.terrain_header.terrain_restriction_size
        &&& self.terrain_header.terrains_pointer.len()
            == self.terrain_header.terrain_restriction_size
        &&& self.civilizations.well_formed()
    }

    /// The effect that a technology refers to: the row of the effects table
    /// that its effect identifier names, or nothing where the table has no
    /// such row.
    pub open spec fn effect_of(self, effect_id: i16) -> Option<EffectModel> {
        if 0 <= effect_id < self.effects.effects.len() {
            Some(self.effects.effects[effect_id as int])
        } else {
            None
        }
    }
}

/// The mathematical outcome of decoding a whole inflated stream.
pub enum Decoded {
    /// The file, and the offset at which its last section ends.
    File { file: DatFileModel, end: int },
    /// The failure of the first section that could not be read.
    Failure { error: Error },
}

/// The error that a failed read gives in a section.
pub open spec fn section_error(section: Section, kind: FaultKind, offset: int) -> Error {
    match kind {
        FaultKind::Read => Error::Read { section, offset: offset as usize },
        FaultKind::Discriminant => Error::Discriminant { section, offset: offset as usize },
    }
}

/// The outcome of decoding that the failure of a section gives.
pub open spec fn fail_in<V>(section: Section, parsed: Parsed<V>) -> Decoded {
    Decoded::Failure { error: section_error(section, parsed->kind, parsed->offset) }
}

/// What an inflated stream stands for. The sections are read in file
/// order, each where the one before it ends; the restriction matrix takes
/// its two sizes from the terrain header. The first section that fails
/// gives the outcome, and bytes behind the last section are not looked at.
pub open spec fn parse_dat_file(bytes: Seq<u8>) -> Decoded {
    let game_version = GameVersion::parse(bytes, 0);
    let terrain_header = TerrainHeader::parse(bytes, game_version->next);
    let terrain_restrictions = parse_restrictions(
        bytes,
        terrain_header->next,
        terrain_header->value.terrain_restriction_size as nat,
        terrain_header->value.restriction_size as nat,
    );
    let color_table = ColorTable::parse(bytes, terrain_restrictions->next);
    let sound_table = SoundTable::parse(bytes, color_table->next);
    let sprite_table = SpriteTable::parse(bytes, sound_table->next);
    let terrain_block = TerrainBlock::parse(bytes, sprite_table->next);
    let random_map = RandomMap::parse(bytes, terrain_block->next);
    let effects = Effects::parse(bytes, random_map->next);
    let units = Units::parse(bytes, effects->next);
    let civilizations = Civilizations::parse(bytes, units->next);
    let techs = Techs::parse(bytes, civilizations->next);
    let misc = Misc::parse(bytes, techs->next);
    let tech_tree = TechTree::parse(bytes, misc->next);
    if game_version is Failure {
        fail_in(Section::GameVersion, game_version)
    } else if terrain_header is Failure {
        fail_in(Section::TerrainHeader, terrain_header)
    } else if terrain_restrictions is Failure {
        fail_in(Section::TerrainRestrictions, terrain_restrictions)
    } else if color_table is Failure {
        fail_in(Section::ColorTable, color_table)
    } else if sound_table is Failure {
        fail_in(Section::SoundTable, sound_table)
    } else if sprite_table is Failure {
        fail_in(Section::SpriteTable, sprite_table)
    } else if terrain_block is Failure {
        fail_in(Section::TerrainBlock, terrain_block)
    } else if random_map is Failure {
        fail_in(Section::RandomMap, random_map)
    } else if effects is Failure {
        fail_in(Section::Effects, effects)
    } else if units is Failure {
        fail_in(Section::Units, units)
    } else if civilizations is Failure {
        fail_in(Section::Civilizations, civilizations)
    } else if techs is Failure {
        fail_in(Section::Techs, techs)
    } else if misc is Failure {
        fail_in(Section::Misc, misc)
    } else if tech_tree is Failure {
        fail_in(Section::TechTree, tech_tree)
    } else {
        Decoded::File {
            file: DatFileModel {
                game_version: game_version->value,
                terrain_header: terrain_header->value,
                terrain_restrictions: terrain_restrictions->value,
                color_table: color_table->value,
                sound_table: sound_table->value,
                sprite_table: sprite_table->value,
                terrain_block: terrain_block->value,
                random_map: random_map->value,
                effects: effects->value,
                units: units->value,
                civilizations: civilizations->value,
                techs: techs->value,
                misc: misc->value,
                tech_tree: tech_tree->value,
            },
            end: tech_tree->next,
        }
    }
}

/// What a container stands for, given what it inflates to: a container
/// that does not inflate fails, and one that does stands for what the
/// inflated stream stands for.
pub open spec fn parse_container(inflated: Option<Seq<u8>>) -> Decoded {
    match inflated {
        None => Decoded::Failure { error: Error::Decompression },
        Some(bytes) => parse_dat_file(bytes),
    }
}

/// Whether what decoding returned is the outcome `decoded`.
pub open spec fn agrees_file(result: Result<DatFile, Error>, decoded: Decoded) -> bool {
    match result {
        Ok(file) => decoded is File && decoded->file == file@,
        Err(error) => decoded == (Decoded::Failure { error }),
    }
}

/// The error that a failed read gives in a section.
pub fn locate(section: Section, fault: Fault) -> (error: Error)
    ensures
        error == section_error(section, fault.kind, fault.offset as int),
{
    match fault.kind {
        FaultKind::Read => Error::Read { section, offset: fault.offset },
        FaultKind::Discriminant => Error::Discriminant { section, offset: fault.offset },
    }
}

/// Reads one section at `at` and names the section in its failure.
pub fn read_section<T: Record>(bytes: &[u8], at: usize, section: Section) -> (result: Result<
    (T, usize),
    Error,
>)
    ensures
        match result {
            Ok((value, next)) => T::parse(bytes@, at as int) == (Parsed::Value {
                value: value@,
                next: next as int,
            }),
            Err(error) => T::parse(bytes@, at as int) is Failure && (Decoded::Failure { error })
                == fail_in(section, T::parse(bytes@, at as int)),
        },
{
    match T::decode(bytes, at) {
        Ok(read) => Ok(read),
        Err(fault) => Err(locate(section, fault)),
    }
}

impl DatFile {
    /// Decodes an inflated stream: every section in file order, or the
    /// failure of the first section that cannot be read. A file that was
    /// decoded is well formed.
    pub fn decode(bytes: &[u8]) -> (result: Result<DatFile, Error>)
        ensures
            agrees_file(result, parse_dat_file(bytes@)),
            result matches Ok(file) ==> file@.well_formed(),
    {
        let (game_version, at) = read_section::<GameVersion>(bytes, 0, Section::GameVersion)?;
        let (terrain_header, at) = read_section::<TerrainHeader>(
            bytes,
            at,
            Section::TerrainHeader,
        )?;
        let (terrain_restrictions, at) = match TerrainRestrictions::read(
            bytes,
            at,
            terrain_header.terrain_restriction_size as usize,
            terrain_header.restriction_size as usize,
        ) {
            Ok(read) => read,
            Err(fault) => {
                return Err(locate(Section::TerrainRestrictions, fault));
            },
        };
        let (color_table, at) = read_section::<ColorTable>(bytes, at, Section::ColorTable)?;
        let (sound_table, at) = read_section::<SoundTable>(bytes, at, Section::SoundTable)?;
        let (sprite_table, at) = read_section::<SpriteTable>(bytes, at, Section::SpriteTable)?;
        let (terrain_block, at) = read_section::<TerrainBlock>(bytes, at, Section::TerrainBlock)?;
        let (random_map, at) = read_section::<RandomMap>(bytes, at, Section::RandomMap)?;
        let (effects, at) = read_section::<Effects>(bytes, at, Section::Effects)?;
        let (units, at) = read_section::<Units>(bytes, at, Section::Units)?;
        let (civilizations, at) = read_section::<Civilizations>(
            bytes,
            at,
            Section::Civilizations,
        )?;
        let (techs, at) = read_section::<Techs>(bytes, at, Section::Techs)?;
        let (misc, at) = read_section::<Misc>(bytes, at, Section::Misc)?;
        let (tech_tree, _) = read_section::<TechTree>(bytes, at, Section::TechTree)?;
        proof {
            lemma_parsed_file_well_formed(bytes@);
        }
        Ok(
            DatFile {
                game_version,
                terrain_header,
                terrain_restrictions,
                color_table,
                sound_table,
                sprite_table,
                terrain_block,
                random_map,
                effects,
                units,
                civilizations,
                techs,
                misc,
                tech_tree,
            },
        )
    }

    /// Decodes what inflating a container gave: a container that did not
    /// inflate fails with `Error::Decompression`, and one that did is
    /// decoded as `decode` says.
    pub fn from_inflated(outcome: Result<Vec<u8>, std::io::Error>) -> (result: Result<
        DatFile,
        Error,
    >)
        ensures
            agrees_file(
                result,
                parse_container(
                    match outcome {
                        Ok(bytes) => Some(bytes@),
                        Err(_) => None,
                    },
                ),
            ),
            result matches Ok(file) ==> file@.well_formed(),
    {
        match outcome {
            Ok(bytes) => Self::decode(bytes.as_slice()),
            Err(_) => Err(Error::Decompression),
        }
    }

    /// Decodes a container: inflates it, then decodes the inflated stream.
    /// The result is a function of the compressed bytes alone.
    pub fn from_compressed(compressed: &[u8]) -> (result: Result<DatFile, Error>)
        ensures
            agrees_file(result, parse_container(inflated(compressed@))),
            result matches Ok(file) ==> file@.well_formed(),
    {
        Self::from_inflated(decompress(compressed))
    }

    /// The effect that a technology of this file refers to, or nothing
    /// where its effect identifier names no row of the effects table.
    pub fn effect_of(&self, tech: &Tech) -> (result: Option<&Effect>)
        ensures
            match result {
                Some(effect) => self@.effect_of(tech.effect_id) == Some(effect@),
                None => self@.effect_of(tech.effect_id) is None,
            },
            result matches Some(effect) ==> *effect == self.effects.effects@[tech.effect_id as int],
    {
        self.effects.get(tech.effect_id)
    }
}

impl Error {
    /// Whether the error names a byte offset, and one that lies in a stream
    /// of `length` bytes.
    pub open spec fn reported_within(self, length: nat) -> bool {
        match self {
            Error::Decompression => false,
            Error::Read { offset, .. } => offset <= length,
            Error::Discriminant { offset, .. } => offset <= length,
        }
    }
}

/// What the lemmas of a record say of a section, for a place that may lie
/// outside the buffer.
proof fn lemma_section<T: Record>(a: Seq<u8>, b: Seq<u8>, at: int, upto: int)
    requires
        same_bytes(a, b, 0, upto),
    ensures
        0 <= at <= a.len() ==> {
            &&& T::parse(a, at) matches Parsed::Value { next, .. } ==> at < next <= a.len()
            &&& T::parse(a, at) matches Parsed::Failure { offset, .. } ==> at <= offset <= a.len()
            &&& T::parse(a, at) is Value && T::parse(a, at)->next <= upto ==> T::parse(b, at)
                == T::parse(a, at)
        },
{
    if 0 <= at <= a.len() {
        T::lemma_parse_within(a, at);
        T::lemma_parse_local(a, b, at, upto);
    }
}

/// What `lemma_refusal_stands` says of a section, for a place that may lie
/// outside the buffer.
proof fn lemma_section_refusal<T: Record>(short: Seq<u8>, long: Seq<u8>, at: int)
    requires
        is_prefix(short, long),
    ensures
        0 <= at <= short.len() && T::parse(short, at).is_refusal() ==> T::parse(long, at)
            == T::parse(short, at),
{
    if 0 <= at <= short.len() {
        T::lemma_refusal_stands(short, long, at);
    }
}

/// A file that was decoded ends inside the stream, and a failure names a
/// section and a byte offset inside the stream.
pub proof fn lemma_file_within(bytes: Seq<u8>)
    requires
        bytes.len() <= usize::MAX,
    ensures
        parse_dat_file(bytes) matches Decoded::File { end, .. } ==> 0 <= end <= bytes.len(),
        parse_dat_file(bytes) matches Decoded::Failure { error } ==> error.reported_within(
            bytes.len(),
        ),
{
    let game_version = GameVersion::parse(bytes, 0);
    lemma_section::<GameVersion>(bytes, bytes, 0, 0);
    let terrain_header = TerrainHeader::parse(bytes, game_version->next);
    lemma_section::<TerrainHeader>(bytes, bytes, game_version->next, 0);
    let rows = terrain_header->value.terrain_restriction_size as nat;
    let columns = terrain_header->value.restriction_size as nat;
    let terrain_restrictions = parse_restrictions(bytes, terrain_header->next, rows, columns);
    if game_version is Value && terrain_header is Value {
        lemma_restrictions_within(bytes, terrain_header->next, rows, columns);
    }
    let color_table = ColorTable::parse(bytes, terrain_restrictions->next);
    lemma_section::<ColorTable>(bytes, bytes, terrain_restrictions->next, 0);
    let sound_table = SoundTable::parse(bytes, color_table->next);
    lemma_section::<SoundTable>(bytes, bytes, color_table->next, 0);
    let sprite_table = SpriteTable::parse(bytes, sound_table->next);
    lemma_section::<SpriteTable>(bytes, bytes, sound_table->next, 0);
    let terrain_block = TerrainBlock::parse(bytes, sprite_table->next);
    lemma_section::<TerrainBlock>(bytes, bytes, sprite_table->next, 0);
    let random_map = RandomMap::parse(bytes, terrain_block->next);
    lemma_section::<RandomMap>(bytes, bytes, terrain_block->next, 0);
    let effects = Effects::parse(bytes, random_map->next);
    lemma_section::<Effects>(bytes, bytes, random_map->next, 0);
    let units = Units::parse(bytes, effects->next);
    lemma_section::<Units>(bytes, bytes, effects->next, 0);
    let civilizations = Civilizations::parse(bytes, units->next);
    lemma_section::<Civilizations>(bytes, bytes, units->next, 0);
    let techs = Techs::parse(bytes, civilizations->next);
    lemma_section::<Techs>(bytes, bytes, civilizations->next, 0);
    let misc = Misc::parse(bytes, techs->next);
    lemma_section::<Misc>(bytes, bytes, techs->next, 0);
    lemma_section::<TechTree>(bytes, bytes, misc->next, 0);
}

/// A file depends on the bytes that it spans and on nothing else: a stream
/// with the same bytes up to the end of the file holds the same file.
pub proof fn lemma_file_local(a: Seq<u8>, b: Seq<u8>, upto: int)
    requires
        same_bytes(a, b, 0, upto),
    ensures
        parse_dat_file(a) matches Decoded::File { end, .. } && end <= upto ==> parse_dat_file(b)
            == parse_dat_file(a),
{
    let game_version = GameVersion::parse(a, 0);
    lemma_section::<GameVersion>(a, b, 0, upto);
    let terrain_header = TerrainHeader::parse(a, game_version->next);
    lemma_section::<TerrainHeader>(a, b, game_version->next, upto);
    let rows = terrain_header->value.terrain_restriction_size as nat;
    let columns = terrain_header->value.restriction_size as nat;
    let terrain_restrictions = parse_restrictions(a, terrain_header->next, rows, columns);
    if game_version is Value && terrain_header is Value {
        lemma_restrictions_within(a, terrain_header->next, rows, columns);
        lemma_restrictions_local(a, b, terrain_header->next, upto, rows, columns);
    }
    let color_table = ColorTable::parse(a, terrain_restrictions->next);
    lemma_section::<ColorTable>(a, b, terrain_restrictions->next, upto);
    let sound_table = SoundTable::parse(a, color_table->next);
    lemma_section::<SoundTable>(a, b, color_table->next, upto);
    let sprite_table = SpriteTable::parse(a, sound_table->next);
    lemma_section::<SpriteTable>(a, b, sound_table->next, upto);
    let terrain_block = TerrainBlock::parse(a, sprite_table->next);
    lemma_section::<TerrainBlock>(a, b, sprite_table->next, upto);
    let random_map = RandomMap::parse(a, terrain_block->next);
    lemma_section::<RandomMap>(a, b, terrain_block->next, upto);
    let effects = Effects::parse(a, random_map->next);
    lemma_section::<Effects>(a, b, random_map->next, upto);
    let units = Units::parse(a, effects->next);
    lemma_section::<Units>(a, b, effects->next, upto);
    let civilizations = Civilizations::parse(a, units->next);
    lemma_section::<Civilizations>(a, b, units->next, upto);
    let techs = Techs::parse(a, civilizations->next);
    lemma_section::<Techs>(a, b, civilizations->next, upto);
    let misc = Misc::parse(a, techs->next);
    lemma_section::<Misc>(a, b, techs->next, upto);
    lemma_section::<TechTree>(a, b, misc->next, upto);
}

/// The refusal of an unknown code stands whatever follows the beginning of
/// the stream in which it was found.
pub proof fn lemma_file_refusal_stands(short: Seq<u8>, long: Seq<u8>)
    requires
        is_prefix(short, long),
    ensures
        parse_dat_file(short) matches Decoded::Failure { error: Error::Discriminant { .. } }
            ==> parse_dat_file(long) == parse_dat_file(short),
{
    let whole = short.len() as int;
    let game_version = GameVersion::parse(short, 0);
    lemma_section::<GameVersion>(short, long, 0, whole);
    lemma_section_refusal::<GameVersion>(short, long, 0);
    let terrain_header = TerrainHeader::parse(short, game_version->next);
    lemma_section::<TerrainHeader>(short, long, game_version->next, whole);
    lemma_section_refusal::<TerrainHeader>(short, long, game_version->next);
    let rows = terrain_header->value.terrain_restriction_size as nat;
    let columns = terrain_header->value.restriction_size as nat;
    let terrain_restrictions = parse_restrictions(short, terrain_header->next, rows, columns);
    if game_version is Value && terrain_header is Value {
        lemma_restrictions_within(short, terrain_header->next, rows, columns);
        lemma_restrictions_local(short, long, terrain_header->next, whole, rows, columns);
        lemma_restrictions_refusal_stands(short, long, terrain_header->next, rows, columns);
    }
    let color_table = ColorTable::parse(short, terrain_restrictions->next);
    lemma_section::<ColorTable>(short, long, terrain_restrictions->next, whole);
    lemma_section_refusal::<ColorTable>(short, long, terrain_restrictions->next);
    let sound_table = SoundTable::parse(short, color_table->next);
    lemma_section::<SoundTable>(short, long, color_table->next, whole);
    lemma_section_refusal::<SoundTable>(short, long, color_table->next);
    let sprite_table = SpriteTable::parse(short, sound_table->next);
    lemma_section::<SpriteTable>(short, long, sound_table->next, whole);
    lemma_section_refusal::<SpriteTable>(short, long, sound_table->next);
    let terrain_block = TerrainBlock::parse(short, sprite_table->next);
    lemma_section::<TerrainBlock>(short, long, sprite_table->next, whole);
    lemma_section_refusal::<TerrainBlock>(short, long, sprite_table->next);
    let random_map = RandomMap::parse(short, terrain_block->next);
    lemma_section::<RandomMap>(short, long, terrain_block->next, whole);
    lemma_section_refusal::<RandomMap>(short, long, terrain_block->next);
    let effects = Effects::parse(short, random_map->next);
    lemma_section::<Effects>(short, long, random_map->next, whole);
    lemma_section_refusal::<Effects>(short, long, random_map->next);
    let units = Units::parse(short, effects->next);
    lemma_section::<Units>(short, long, effects->next, whole);
    lemma_section_refusal::<Units>(short, long, effects->next);
    let civilizations = Civilizations::parse(short, units->next);
    lemma_section::<Civilizations>(short, long, units->next, whole);
    lemma_section_refusal::<Civilizations>(short, long, units->next);
    let techs = Techs::parse(short, civilizations->next);
    lemma_section::<Techs>(short, long, civilizations->next, whole);
    lemma_section_refusal::<Techs>(short, long, civilizations->next);
    let misc = Misc::parse(short, techs->next);
    lemma_section::<Misc>(short, long, techs->next, whole);
    lemma_section_refusal::<Misc>(short, long, techs->next);
    lemma_section::<TechTree>(short, long, misc->next, whole);
    lemma_section_refusal::<TechTree>(short, long, misc->next);
}

/// Cutting an inflated stream short never gives a file that the whole
/// stream does not give. The first `kept` bytes decode exactly when the
/// whole stream decodes and its file ends within them, and then they decode
/// to that file. A stream cut inside its file fails with a read error, in
/// a named section and at a byte offset inside what was kept.
pub proof fn lemma_truncation(bytes: Seq<u8>, kept: int)
    requires
        0 <= kept <= bytes.len(),
        bytes.len() <= usize::MAX,
    ensures
        parse_dat_file(bytes.take(kept)) is File <==> parse_dat_file(bytes) is File
            && parse_dat_file(bytes)->end <= kept,
        parse_dat_file(bytes.take(kept)) is File ==> parse_dat_file(bytes.take(kept))
            == parse_dat_file(bytes),
        parse_dat_file(bytes) is File && kept < parse_dat_file(bytes)->end ==> (parse_dat_file(
            bytes.take(kept),
        ) matches Decoded::Failure { error: Error::Read { offset, .. } } && offset <= kept),
{
    let cut = bytes.take(kept);
    lemma_file_within(cut);
    lemma_file_local(cut, bytes, kept);
    lemma_file_local(bytes, cut, kept);
    lemma_file_refusal_stands(cut, bytes);
}

/// Every file that an inflated stream decodes to is well formed.
pub proof fn lemma_parsed_file_well_formed(bytes: Seq<u8>)
    ensures
        parse_dat_file(bytes) matches Decoded::File { file, .. } ==> file.well_formed(),
{
    let game_version = GameVersion::parse(bytes, 0);
    let terrain_header = TerrainHeader::parse(bytes, game_version->next);
    TerrainHeader::lemma_parsed_pointer_counts(bytes, game_version->next);
    lemma_restrictions_shape(
        bytes,
        terrain_header->next,
        terrain_header->value.terrain_restriction_size as nat,
        terrain_header->value.restriction_size as nat,
    );
    if let Decoded::File { file, end } = parse_dat_file(bytes) {
        let units = Units::parse(bytes, Effects::parse(bytes, RandomMap::parse(bytes,
            TerrainBlock::parse(bytes, SpriteTable::parse(bytes, SoundTable::parse(bytes,
            ColorTable::parse(bytes, parse_restrictions(
                bytes,
                terrain_header->next,
                terrain_header->value.terrain_restriction_size as nat,
                terrain_header->value.restriction_size as nat,
            )->next)->next)->next)->next)->next)->next)->next);
        Civilizations::lemma_parsed_well_formed(bytes, units->next);
    }
}

/// Decoding is a function of the compressed bytes: whatever two runs of
/// `DatFile::from_compressed` return on the same container, they return
/// files that stand for the same, or the same error.
pub proof fn lemma_decoding_is_a_function(
    compressed: Seq<u8>,
    first: Result<DatFile, Error>,
    second: Result<DatFile, Error>,
)
    requires
        agrees_file(first, parse_container(inflated(compressed))),
        agrees_file(second, parse_container(inflated(compressed))),
    ensures
        match (first, second) {
            (Ok(a), Ok(b)) => a@ == b@,
            (Err(a), Err(b)) => a == b,
            _ => false,
        },
{
}

/// A technology whose effect identifier lies within the effects table
/// refers to the row of that number and to no other; one whose identifier
/// is negative, or at or beyond the length of the table, refers to nothing.
pub proof fn lemma_effect_reference(file: DatFileModel, effect_id: i16)
    ensures
        0 <= effect_id < file.effects.effects.len() ==> file.effect_of(effect_id) == Some(
            file.effects.effects[effect_id as int],
        ),
        effect_id < 0 || effect_id >= file.effects.effects.len() ==> file.effect_of(effect_id)
            is None,
{
}

} // verus!
