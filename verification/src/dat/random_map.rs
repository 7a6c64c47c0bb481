//! The descriptor of the random-map generator.
use crate::dat::wire::{
    fail, has_bytes, holds, i32_at, le_u32, lemma_list_32_local, lemma_list_32_refusal_stands,
    lemma_list_32_within, parse_list_32, read_list_32, signed_32, unreadable, views, Fault,
    FaultKind, Parsed, Record,
};
use vstd::prelude::*;

verus! {

/// The frame of one random map: its borders, its water and its base terrain.
#[derive(Clone, Copy, Debug, PartialEq, Eq, Structural)]
pub struct MapInfo {
    pub map_id: i32,
    pub border_south_west: i32,
    pub border_north_west: i32,
    pub border_north_east: i32,
    pub border_south_east: i32,
    pub border_usage: i32,
    pub water_shape: i32,
    pub base_terrain: i32,
    pub land_coverage: i32,
}

impl View for MapInfo {
    type V = MapInfo;

    open spec fn view(&self) -> MapInfo {
        *self
    }
}

impl Record for MapInfo {
    /// Nine four-byte signed values, thirty-six bytes in all.
    open spec fn parse(bytes: Seq<u8>, at: int) -> Parsed<MapInfo> {
        if !holds(bytes, at, 36) {
            unreadable(at)
        } else {
            Parsed::Value {
                value: MapInfo {
                    map_id: signed_32(le_u32(bytes, at)),
                    border_south_west: signed_32(le_u32(bytes, at + 4)),
                    border_north_west: signed_32(le_u32(bytes, at + 8)),
                    border_north_east: signed_32(le_u32(bytes, at + 12)),
                    border_south_east: signed_32(le_u32(bytes, at + 16)),
                    border_usage: signed_32(le_u32(bytes, at + 20)),
                    water_shape: signed_32(le_u32(bytes, at + 24)),
                    base_terrain: signed_32(le_u32(bytes, at + 28)),
                    land_coverage: signed_32(le_u32(bytes, at + 32)),
                },
                next: at + 36,
            }
        }
    }

    fn decode(bytes: &[u8], at: usize) -> (result: Result<(MapInfo, usize), Fault>) {
        if !has_bytes(bytes, at, 36) {
            return Err(Fault { kind: FaultKind::Read, offset: at });
        }
        Ok((
            MapInfo {
                map_id: i32_at(bytes, at),
                border_south_west: i32_at(bytes, at + 4),
                border_north_west: i32_at(bytes, at + 8),
                border_north_east: i32_at(bytes, at + 12),
                border_south_east: i32_at(bytes, at + 16),
                border_usage: i32_at(bytes, at + 20),
                water_shape: i32_at(bytes, at + 24),
                base_terrain: i32_at(bytes, at + 28),
                land_coverage: i32_at(bytes, at + 32),
            },
            at + 36,
        ))
    }

    proof fn lemma_parse_within(bytes: Seq<u8>, at: int) {
    }

    proof fn lemma_parse_local(a: Seq<u8>, b: Seq<u8>, at: int, upto: int) {
    }

    proof fn lemma_refusal_stands(short: Seq<u8>, long: Seq<u8>, at: int) {
    }
}

/// The descriptor of the random-map generator: one entry per map.
#[derive(Clone, Debug, PartialEq, Eq)]
pub struct RandomMap {
    pub maps: Vec<MapInfo>,
}

/// What a value of `RandomMap` stands for.
pub struct RandomMapModel {
    pub maps: Seq<MapInfo>,
}

impl View for RandomMap {
    type V = RandomMapModel;

    open spec fn view(&self) -> RandomMapModel {
        RandomMapModel {
            maps: views(self.maps@),
        }
    }
}

impl Record for RandomMap {
    /// A four-byte count, then that many map entries.
    open spec fn parse(bytes: Seq<u8>, at: int) -> Parsed<RandomMapModel> {
        let maps = parse_list_32::<MapInfo>(bytes, at);
        if maps is Failure {
            fail(maps)
        } else {
            Parsed::Value {
                value: RandomMapModel {
                    maps: maps->value,
                },
                next: maps->next,
            }
        }
    }

    fn decode(bytes: &[u8], at: usize) -> (result: Result<(RandomMap, usize), Fault>) {
        let (maps, next) = read_list_32::<MapInfo>(bytes, at)?;
        Ok((
            RandomMap {
                maps,
            },
            next,
        ))
    }

    proof fn lemma_parse_within(bytes: Seq<u8>, at: int) {
        lemma_list_32_within::<MapInfo>(bytes, at);
    }

    proof fn lemma_parse_local(a: Seq<u8>, b: Seq<u8>, at: int, upto: int) {
        let whole = Self::parse(a, at);
        if whole is Value && whole->next <= upto {
            lemma_list_32_within::<MapInfo>(a, at);
            lemma_list_32_local::<MapInfo>(a, b, at, upto);
        }
    }

    proof fn lemma_refusal_stands(short: Seq<u8>, long: Seq<u8>, at: int) {
        lemma_list_32_refusal_stands::<MapInfo>(short, long, at);
    }
}

} // verus!
