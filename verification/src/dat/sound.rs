//! The table of sounds.
use crate::dat::wire::{
    fail, has_bytes, holds, i16_at, i32_at, le_u16, le_u32, lemma_list_16_local,
    lemma_list_16_refusal_stands, lemma_list_16_within, parse_list_16, read_list_16, signed_16,
    signed_32, u16_at, unreadable, views, Fault, FaultKind, Parsed, Record,
};
use vstd::prelude::*;

verus! {

/// One sound: when it plays and how long it stays cached.
#[derive(Clone, Copy, Debug, PartialEq, Eq, Structural)]
pub struct Sound {
    pub id: i16,
    pub play_delay: i16,
    pub cache_time: i32,
    pub total_probability: u16,
}

impl View for Sound {
    type V = Sound;

    open spec fn view(&self) -> Sound {
        *self
    }
}

impl Record for Sound {
    /// The identifier and the delay as two-byte signed values, the cache time
    /// as a four-byte signed value, then the two-byte total probability: ten
    /// bytes in all.
    open spec fn parse(bytes: Seq<u8>, at: int) -> Parsed<Sound> {
        if !holds(bytes, at, 10) {
            unreadable(at)
        } else {
            Parsed::Value {
                value: Sound {
                    id: signed_16(le_u16(bytes, at)),
                    play_delay: signed_16(le_u16(bytes, at + 2)),
                    cache_time: signed_32(le_u32(bytes, at + 4)),
                    total_probability: le_u16(bytes, at + 8),
                },
                next: at + 10,
            }
        }
    }

    fn decode(bytes: &[u8], at: usize) -> (result: Result<(Sound, usize), Fault>) {
        if !has_bytes(bytes, at, 10) {
            return Err(Fault { kind: FaultKind::Read, offset: at });
        }
        Ok((
            Sound {
                id: i16_at(bytes, at),
                play_delay: i16_at(bytes, at + 2),
                cache_time: i32_at(bytes, at + 4),
                total_probability: u16_at(bytes, at + 8),
            },
            at + 10,
        ))
    }

    proof fn lemma_parse_within(bytes: Seq<u8>, at: int) {
    }

    proof fn lemma_parse_local(a: Seq<u8>, b: Seq<u8>, at: int, upto: int) {
    }

    proof fn lemma_refusal_stands(short: Seq<u8>, long: Seq<u8>, at: int) {
    }
}

/// The sounds, in file order.
#[derive(Clone, Debug, PartialEq, Eq)]
pub struct SoundTable {
    pub sounds: Vec<Sound>,
}

/// What a value of `SoundTable` stands for.
pub struct SoundTableModel {
    pub sounds: Seq<Sound>,
}

impl View for SoundTable {
    type V = SoundTableModel;

    open spec fn view(&self) -> SoundTableModel {
        SoundTableModel {
            sounds: views(self.sounds@),
        }
    }
}

impl Record for SoundTable {
    /// A two-byte count, then that many sounds.
    open spec fn parse(bytes: Seq<u8>, at: int) -> Parsed<SoundTableModel> {
        let sounds = parse_list_16::<Sound>(bytes, at);
        if sounds is Failure {
            fail(sounds)
        } else {
            Parsed::Value {
                value: SoundTableModel {
                    sounds: sounds->value,
                },
                next: sounds->next,
            }
        }
    }

    fn decode(bytes: &[u8], at: usize) -> (result: Result<(SoundTable, usize), Fault>) {
        let (sounds, next) = read_list_16::<Sound>(bytes, at)?;
        Ok((
            SoundTable {
                sounds,
            },
            next,
        ))
    }

    proof fn lemma_parse_within(bytes: Seq<u8>, at: int) {
        lemma_list_16_within::<Sound>(bytes, at);
    }

    proof fn lemma_parse_local(a: Seq<u8>, b: Seq<u8>, at: int, upto: int) {
        let whole = Self::parse(a, at);
        if whole is Value && whole->next <= upto {
            lemma_list_16_within::<Sound>(a, at);
            lemma_list_16_local::<Sound>(a, b, at, upto);
        }
    }

    proof fn lemma_refusal_stands(short: Seq<u8>, long: Seq<u8>, at: int) {
        lemma_list_16_refusal_stands::<Sound>(short, long, at);
    }
}

} // verus!
