//! The table of player colors.
use crate::dat::wire::{
    fail, has_bytes, holds, i32_at, le_u32, lemma_list_16_local, lemma_list_16_refusal_stands,
    lemma_list_16_within, parse_list_16, read_list_16, signed_32, unreadable, views, Fault,
    FaultKind, Parsed, Record,
};
use vstd::prelude::*;

verus! {

/// One player color: indices into the palette for each use of the color.
#[derive(Clone, Copy, Debug, PartialEq, Eq, Structural)]
pub struct Color {
    pub id: i32,
    /// The first palette index of the color.
    pub base: i32,
    pub outline: i32,
    pub selection_1: i32,
    pub selection_2: i32,
    pub minimap_1: i32,
    pub minimap_2: i32,
    pub minimap_3: i32,
    pub statistics_text: i32,
}

impl View for Color {
    type V = Color;

    open spec fn view(&self) -> Color {
        *self
    }
}

impl Record for Color {
    /// Nine four-byte signed values, thirty-six bytes in all.
    open spec fn parse(bytes: Seq<u8>, at: int) -> Parsed<Color> {
        if !holds(bytes, at, 36) {
            unreadable(at)
        } else {
            Parsed::Value {
                value: Color {
                    id: signed_32(le_u32(bytes, at)),
                    base: signed_32(le_u32(bytes, at + 4)),
                    outline: signed_32(le_u32(bytes, at + 8)),
                    selection_1: signed_32(le_u32(bytes, at + 12)),
                    selection_2: signed_32(le_u32(bytes, at + 16)),
                    minimap_1: signed_32(le_u32(bytes, at + 20)),
                    minimap_2: signed_32(le_u32(bytes, at + 24)),
                    minimap_3: signed_32(le_u32(bytes, at + 28)),
                    statistics_text: signed_32(le_u32(bytes, at + 32)),
                },
                next: at + 36,
            }
        }
    }

    fn decode(bytes: &[u8], at: usize) -> (result: Result<(Color, usize), Fault>) {
        if !has_bytes(bytes, at, 36) {
            return Err(Fault { kind: FaultKind::Read, offset: at });
        }
        Ok((
            Color {
                id: i32_at(bytes, at),
                base: i32_at(bytes, at + 4),
                outline: i32_at(bytes, at + 8),
                selection_1: i32_at(bytes, at + 12),
                selection_2: i32_at(bytes, at + 16),
                minimap_1: i32_at(bytes, at + 20),
                minimap_2: i32_at(bytes, at + 24),
                minimap_3: i32_at(bytes, at + 28),
                statistics_text: i32_at(bytes, at + 32),
            },
            at + 36,
        ))
    }

    proof fn lemma_parse_within(bytes: Seq<u8>, at: int) {
    }

    proof fn lemma_parse_local(a: Seq<u8>, b: Seq<u8>, at: int, upto: int) {
    }

    proof fn lemma_refusal_stands(short: Seq<u8>, long: Seq<u8>, at: int) {
    }
}

/// The player colors, in file order.
#[derive(Clone, Debug, PartialEq, Eq)]
pub struct ColorTable {
    pub colors: Vec<Color>,
}

/// What a value of `ColorTable` stands for.
pub struct ColorTableModel {
    pub colors: Seq<Color>,
}

impl View for ColorTable {
    type V = ColorTableModel;

    open spec fn view(&self) -> ColorTableModel {
        ColorTableModel {
            colors: views(self.colors@),
        }
    }
}

impl Record for ColorTable {
    /// A two-byte count, then that many colors.
    open spec fn parse(bytes: Seq<u8>, at: int) -> Parsed<ColorTableModel> {
        let colors = parse_list_16::<Color>(bytes, at);
        if colors is Failure {
            fail(colors)
        } else {
            Parsed::Value {
                value: ColorTableModel {
                    colors: colors->value,
                },
                next: colors->next,
            }
        }
    }

    fn decode(bytes: &[u8], at: usize) -> (result: Result<(ColorTable, usize), Fault>) {
        let (colors, next) = read_list_16::<Color>(bytes, at)?;
        Ok((
            ColorTable {
                colors,
            },
            next,
        ))
    }

    proof fn lemma_parse_within(bytes: Seq<u8>, at: int) {
        lemma_list_16_within::<Color>(bytes, at);
    }

    proof fn lemma_parse_local(a: Seq<u8>, b: Seq<u8>, at: int, upto: int) {
        let whole = Self::parse(a, at);
        if whole is Value && whole->next <= upto {
            lemma_list_16_within::<Color>(a, at);
            lemma_list_16_local::<Color>(a, b, at, upto);
        }
    }

    proof fn lemma_refusal_stands(short: Seq<u8>, long: Seq<u8>, at: int) {
        lemma_list_16_refusal_stands::<Color>(short, long, at);
    }
}

} // verus!
