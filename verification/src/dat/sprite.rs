//! The table of sprites.
use crate::dat::text::{lemma_name_local, lemma_name_within, parse_name, read_name};
use crate::dat::wire::{
    fail, has_bytes, holds, i16_at, i32_at, le_u16, le_u32, lemma_list_16_local,
    lemma_list_16_refusal_stands, lemma_list_16_within, parse_list_16, read_list_16, signed_16,
    signed_32, u16_at, u8_at, unreadable, views, Fault, FaultKind, Parsed, Record,
};
use vstd::prelude::*;

verus! {

/// One sprite: where its frames are stored and how many it has.
#[derive(Clone, Debug, PartialEq, Eq)]
pub struct Sprite {
    pub id: i16,
    pub slp_id: i32,
    pub layer: u8,
    pub frame_count: u16,
    pub angle_count: u16,
    pub name: String,
}

/// What a value of `Sprite` stands for.
pub struct SpriteModel {
    pub id: i16,
    pub slp_id: i32,
    pub layer: u8,
    pub frame_count: u16,
    pub angle_count: u16,
    pub name: Seq<char>,
}

impl View for Sprite {
    type V = SpriteModel;

    open spec fn view(&self) -> SpriteModel {
        SpriteModel {
            id: self.id,
            slp_id: self.slp_id,
            layer: self.layer,
            frame_count: self.frame_count,
            angle_count: self.angle_count,
            name: self.name@,
        }
    }
}

impl Record for Sprite {
    /// The two-byte signed identifier, the four-byte signed number of the
    /// frame archive, the one-byte layer, the two-byte frame count and the
    /// two-byte angle count, then the name.
    open spec fn parse(bytes: Seq<u8>, at: int) -> Parsed<SpriteModel> {
        let name = parse_name(bytes, at + 11);
        if !holds(bytes, at, 11) {
            unreadable(at)
        } else if name is Failure {
            fail(name)
        } else {
            Parsed::Value {
                value: SpriteModel {
                    id: signed_16(le_u16(bytes, at)),
                    slp_id: signed_32(le_u32(bytes, at + 2)),
                    layer: bytes[at + 6],
                    frame_count: le_u16(bytes, at + 7),
                    angle_count: le_u16(bytes, at + 9),
                    name: name->value,
                },
                next: name->next,
            }
        }
    }

    fn decode(bytes: &[u8], at: usize) -> (result: Result<(Sprite, usize), Fault>) {
        if !has_bytes(bytes, at, 11) {
            return Err(Fault { kind: FaultKind::Read, offset: at });
        }
        let (name, next) = read_name(bytes, at + 11)?;
        Ok((
            Sprite {
                id: i16_at(bytes, at),
                slp_id: i32_at(bytes, at + 2),
                layer: u8_at(bytes, at + 6),
                frame_count: u16_at(bytes, at + 7),
                angle_count: u16_at(bytes, at + 9),
                name,
            },
            next,
        ))
    }

    proof fn lemma_parse_within(bytes: Seq<u8>, at: int) {
        if holds(bytes, at, 11) {
            lemma_name_within(bytes, at + 11);
        }
    }

    proof fn lemma_parse_local(a: Seq<u8>, b: Seq<u8>, at: int, upto: int) {
        let whole = Self::parse(a, at);
        if whole is Value && whole->next <= upto {
            lemma_name_within(a, at + 11);
            lemma_name_local(a, b, at + 11, upto);
        }
    }

    proof fn lemma_refusal_stands(short: Seq<u8>, long: Seq<u8>, at: int) {
        if holds(short, at, 11) {
        }
    }
}

/// The sprites, in file order.
#[derive(Clone, Debug, PartialEq, Eq)]
pub struct SpriteTable {
    pub sprites: Vec<Sprite>,
}

/// What a value of `SpriteTable` stands for.
pub struct SpriteTableModel {
    pub sprites: Seq<SpriteModel>,
}

impl View for SpriteTable {
    type V = SpriteTableModel;

    open spec fn view(&self) -> SpriteTableModel {
        SpriteTableModel {
            sprites: views(self.sprites@),
        }
    }
}

impl Record for SpriteTable {
    /// A two-byte count, then that many sprites.
    open spec fn parse(bytes: Seq<u8>, at: int) -> Parsed<SpriteTableModel> {
        let sprites = parse_list_16::<Sprite>(bytes, at);
        if sprites is Failure {
            fail(sprites)
        } else {
            Parsed::Value {
                value: SpriteTableModel {
                    sprites: sprites->value,
                },
                next: sprites->next,
            }
        }
    }

    fn decode(bytes: &[u8], at: usize) -> (result: Result<(SpriteTable, usize), Fault>) {
        let (sprites, next) = read_list_16::<Sprite>(bytes, at)?;
        Ok((
            SpriteTable {
                sprites,
            },
            next,
        ))
    }

    proof fn lemma_parse_within(bytes: Seq<u8>, at: int) {
        lemma_list_16_within::<Sprite>(bytes, at);
    }

    proof fn lemma_parse_local(a: Seq<u8>, b: Seq<u8>, at: int, upto: int) {
        let whole = Self::parse(a, at);
        if whole is Value && whole->next <= upto {
            lemma_list_16_within::<Sprite>(a, at);
            lemma_list_16_local::<Sprite>(a, b, at, upto);
        }
    }

    proof fn lemma_refusal_stands(short: Seq<u8>, long: Seq<u8>, at: int) {
        lemma_list_16_refusal_stands::<Sprite>(short, long, at);
    }
}

} // verus!
