//! The block of terrains.
use crate::dat::text::{lemma_name_local, lemma_name_within, parse_name, read_name};
use crate::dat::wire::{
    fail, has_bytes, holds, i32_at, le_u32, lemma_list_16_local, lemma_list_16_refusal_stands,
    lemma_list_16_within, parse_list_16, read_list_16, signed_32, u8_at, unreadable, views, Fault,
    FaultKind, Parsed, Record,
};
use vstd::prelude::*;

verus! {

/// One kind of ground: how it is drawn, how it sounds and how it shows on the
/// minimap.
#[derive(Clone, Debug, PartialEq, Eq)]
pub struct Terrain {
    pub enabled: u8,
    pub random: u8,
    pub slp_id: i32,
    pub sound_id: i32,
    pub color_high: u8,
    pub color_medium: u8,
    pub color_low: u8,
    pub name: String,
}

/// What a value of `Terrain` stands for.
pub struct TerrainModel {
    pub enabled: u8,
    pub random: u8,
    pub slp_id: i32,
    pub sound_id: i32,
    pub color_high: u8,
    pub color_medium: u8,
    pub color_low: u8,
    pub name: Seq<char>,
}

impl View for Terrain {
    type V = TerrainModel;

    open spec fn view(&self) -> TerrainModel {
        TerrainModel {
            enabled: self.enabled,
            random: self.random,
            slp_id: self.slp_id,
            sound_id: self.sound_id,
            color_high: self.color_high,
            color_medium: self.color_medium,
            color_low: self.color_low,
            name: self.name@,
        }
    }
}

impl Record for Terrain {
    /// Two one-byte flags, the four-byte signed numbers of the frame archive
    /// and of the sound, three one-byte minimap colors, then the name.
    open spec fn parse(bytes: Seq<u8>, at: int) -> Parsed<TerrainModel> {
        let name = parse_name(bytes, at + 13);
        if !holds(bytes, at, 13) {
            unreadable(at)
        } else if name is Failure {
            fail(name)
        } else {
            Parsed::Value {
                value: TerrainModel {
                    enabled: bytes[at],
                    random: bytes[at + 1],
                    slp_id: signed_32(le_u32(bytes, at + 2)),
                    sound_id: signed_32(le_u32(bytes, at + 6)),
                    color_high: bytes[at + 10],
                    color_medium: bytes[at + 11],
                    color_low: bytes[at + 12],
                    name: name->value,
                },
                next: name->next,
            }
        }
    }

    fn decode(bytes: &[u8], at: usize) -> (result: Result<(Terrain, usize), Fault>) {
        if !has_bytes(bytes, at, 13) {
            return Err(Fault { kind: FaultKind::Read, offset: at });
        }
        let (name, next) = read_name(bytes, at + 13)?;
        Ok((
            Terrain {
                enabled: u8_at(bytes, at),
                random: u8_at(bytes, at + 1),
                slp_id: i32_at(bytes, at + 2),
                sound_id: i32_at(bytes, at + 6),
                color_high: u8_at(bytes, at + 10),
                color_medium: u8_at(bytes, at + 11),
                color_low: u8_at(bytes, at + 12),
                name,
            },
            next,
        ))
    }

    proof fn lemma_parse_within(bytes: Seq<u8>, at: int) {
        if holds(bytes, at, 13) {
            lemma_name_within(bytes, at + 13);
        }
    }

    proof fn lemma_parse_local(a: Seq<u8>, b: Seq<u8>, at: int, upto: int) {
        let whole = Self::parse(a, at);
        if whole is Value && whole->next <= upto {
            lemma_name_within(a, at + 13);
            lemma_name_local(a, b, at + 13, upto);
        }
    }

    proof fn lemma_refusal_stands(short: Seq<u8>, long: Seq<u8>, at: int) {
        if holds(short, at, 13) {
        }
    }
}

/// The kinds of ground, in file order.
#[derive(Clone, Debug, PartialEq, Eq)]
pub struct TerrainBlock {
    pub terrains: Vec<Terrain>,
}

/// What a value of `TerrainBlock` stands for.
pub struct TerrainBlockModel {
    pub terrains: Seq<TerrainModel>,
}

impl View for TerrainBlock {
    type V = TerrainBlockModel;

    open spec fn view(&self) -> TerrainBlockModel {
        TerrainBlockModel {
            terrains: views(self.terrains@),
        }
    }
}

impl Record for TerrainBlock {
    /// A two-byte count, then that many terrains.
    open spec fn parse(bytes: Seq<u8>, at: int) -> Parsed<TerrainBlockModel> {
        let terrains = parse_list_16::<Terrain>(bytes, at);
        if terrains is Failure {
            fail(terrains)
        } else {
            Parsed::Value {
                value: TerrainBlockModel {
                    terrains: terrains->value,
                },
                next: terrains->next,
            }
        }
    }

    fn decode(bytes: &[u8], at: usize) -> (result: Result<(TerrainBlock, usize), Fault>) {
        let (terrains, next) = read_list_16::<Terrain>(bytes, at)?;
        Ok((
            TerrainBlock {
                terrains,
            },
            next,
        ))
    }

    proof fn lemma_parse_within(bytes: Seq<u8>, at: int) {
        lemma_list_16_within::<Terrain>(bytes, at);
    }

    proof fn lemma_parse_local(a: Seq<u8>, b: Seq<u8>, at: int, upto: int) {
        let whole = Self::parse(a, at);
        if whole is Value && whole->next <= upto {
            lemma_list_16_within::<Terrain>(a, at);
            lemma_list_16_local::<Terrain>(a, b, at, upto);
        }
    }

    proof fn lemma_refusal_stands(short: Seq<u8>, long: Seq<u8>, at: int) {
        lemma_list_16_refusal_stands::<Terrain>(short, long, at);
    }
}

} // verus!
