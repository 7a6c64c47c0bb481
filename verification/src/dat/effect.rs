//! Effects and their commands.
use crate::dat::text::{lemma_name_local, lemma_name_within, parse_name, read_name};
use crate::dat::wire::{
    fail, has_bytes, holds, i16_at, le_u16, le_u32, lemma_list_16_local,
    lemma_list_16_refusal_stands, lemma_list_16_within, lemma_list_32_local,
    lemma_list_32_refusal_stands, lemma_list_32_within, parse_list_16, parse_list_32, read_list_16,
    read_list_32, signed_16, u32_at, u8_at, unreadable, views, Fault, FaultKind, Parsed, Record,
};
use vstd::prelude::*;

verus! {

/// One operation of an effect. What the four operands mean depends on the
/// command type; they are kept as stored.
#[derive(Clone, Copy, Debug, PartialEq, Eq, Structural)]
pub struct EffectCommand {
    pub command_type: u8,
    pub a: i16,
    pub b: i16,
    pub c: i16,
    /// The bit pattern of the last operand, which most command types read as
    /// a single-precision number.
    pub d: u32,
}

impl View for EffectCommand {
    type V = EffectCommand;

    open spec fn view(&self) -> EffectCommand {
        *self
    }
}

impl Record for EffectCommand {
    /// The one-byte command type, three two-byte signed operands, then the
    /// four bytes of the last operand: eleven bytes in all.
    open spec fn parse(bytes: Seq<u8>, at: int) -> Parsed<EffectCommand> {
        if !holds(bytes, at, 11) {
            unreadable(at)
        } else {
            Parsed::Value {
                value: EffectCommand {
                    command_type: bytes[at],
                    a: signed_16(le_u16(bytes, at + 1)),
                    b: signed_16(le_u16(bytes, at + 3)),
                    c: signed_16(le_u16(bytes, at + 5)),
                    d: le_u32(bytes, at + 7),
                },
                next: at + 11,
            }
        }
    }

    fn decode(bytes: &[u8], at: usize) -> (result: Result<(EffectCommand, usize), Fault>) {
        if !has_bytes(bytes, at, 11) {
            return Err(Fault { kind: FaultKind::Read, offset: at });
        }
        Ok((
            EffectCommand {
                command_type: u8_at(bytes, at),
                a: i16_at(bytes, at + 1),
                b: i16_at(bytes, at + 3),
                c: i16_at(bytes, at + 5),
                d: u32_at(bytes, at + 7),
            },
            at + 11,
        ))
    }

    proof fn lemma_parse_within(bytes: Seq<u8>, at: int) {
    }

    proof fn lemma_parse_local(a: Seq<u8>, b: Seq<u8>, at: int, upto: int) {
    }

    proof fn lemma_refusal_stands(short: Seq<u8>, long: Seq<u8>, at: int) {
    }
}

/// A named list of operations, which a technology refers to by its row in the
/// table.
#[derive(Clone, Debug, PartialEq, Eq)]
pub struct Effect {
    pub name: String,
    pub commands: Vec<EffectCommand>,
}

/// What a value of `Effect` stands for.
pub struct EffectModel {
    pub name: Seq<char>,
    pub commands: Seq<EffectCommand>,
}

impl View for Effect {
    type V = EffectModel;

    open spec fn view(&self) -> EffectModel {
        EffectModel {
            name: self.name@,
            commands: views(self.commands@),
        }
    }
}

impl Record for Effect {
    /// The name, then a two-byte count and that many commands.
    open spec fn parse(bytes: Seq<u8>, at: int) -> Parsed<EffectModel> {
        let name = parse_name(bytes, at);
        let commands = parse_list_16::<EffectCommand>(bytes, name->next);
        if name is Failure {
            fail(name)
        } else if commands is Failure {
            fail(commands)
        } else {
            Parsed::Value {
                value: EffectModel {
                    name: name->value,
                    commands: commands->value,
                },
                next: commands->next,
            }
        }
    }

    fn decode(bytes: &[u8], at: usize) -> (result: Result<(Effect, usize), Fault>) {
        let (name, after_name) = read_name(bytes, at)?;
        let (commands, next) = read_list_16::<EffectCommand>(bytes, after_name)?;
        Ok((
            Effect {
                name,
                commands,
            },
            next,
        ))
    }

    proof fn lemma_parse_within(bytes: Seq<u8>, at: int) {
        lemma_name_within(bytes, at);
        let name = parse_name(bytes, at);
        if name is Value {
            lemma_list_16_within::<EffectCommand>(bytes, name->next);
        }
    }

    proof fn lemma_parse_local(a: Seq<u8>, b: Seq<u8>, at: int, upto: int) {
        let whole = Self::parse(a, at);
        if whole is Value && whole->next <= upto {
            let name = parse_name(a, at);
            lemma_name_within(a, at);
            lemma_list_16_within::<EffectCommand>(a, name->next);
            lemma_name_local(a, b, at, upto);
            lemma_list_16_local::<EffectCommand>(a, b, name->next, upto);
        }
    }

    proof fn lemma_refusal_stands(short: Seq<u8>, long: Seq<u8>, at: int) {
        let name = parse_name(short, at);
        lemma_name_within(short, at);
        if name is Value {
            lemma_name_local(short, long, at, short.len() as int);
            lemma_list_16_refusal_stands::<EffectCommand>(short, long, name->next);
        }
    }
}

/// The effects, in file order. A technology names one by its index here.
#[derive(Clone, Debug, PartialEq, Eq)]
pub struct Effects {
    pub effects: Vec<Effect>,
}

/// What a value of `Effects` stands for.
pub struct EffectsModel {
    pub effects: Seq<EffectModel>,
}

impl View for Effects {
    type V = EffectsModel;

    open spec fn view(&self) -> EffectsModel {
        EffectsModel {
            effects: views(self.effects@),
        }
    }
}

impl Record for Effects {
    /// A four-byte count, then that many effects.
    open spec fn parse(bytes: Seq<u8>, at: int) -> Parsed<EffectsModel> {
        let effects = parse_list_32::<Effect>(bytes, at);
        if effects is Failure {
            fail(effects)
        } else {
            Parsed::Value {
                value: EffectsModel {
                    effects: effects->value,
                },
                next: effects->next,
            }
        }
    }

    fn decode(bytes: &[u8], at: usize) -> (result: Result<(Effects, usize), Fault>) {
        let (effects, next) = read_list_32::<Effect>(bytes, at)?;
        Ok((
            Effects {
                effects,
            },
            next,
        ))
    }

    proof fn lemma_parse_within(bytes: Seq<u8>, at: int) {
        lemma_list_32_within::<Effect>(bytes, at);
    }

    proof fn lemma_parse_local(a: Seq<u8>, b: Seq<u8>, at: int, upto: int) {
        let whole = Self::parse(a, at);
        if whole is Value && whole->next <= upto {
            lemma_list_32_within::<Effect>(a, at);
            lemma_list_32_local::<Effect>(a, b, at, upto);
        }
    }

    proof fn lemma_refusal_stands(short: Seq<u8>, long: Seq<u8>, at: int) {
        lemma_list_32_refusal_stands::<Effect>(short, long, at);
    }
}

impl Effects {
    /// The effect in the row that `effect_id` names, or nothing where the
    /// table has no such row: a negative identifier, or one at or beyond
    /// the length of the table, names none.
    pub fn get(&self, effect_id: i16) -> (result: Option<&Effect>)
        ensures
            0 <= effect_id < self.effects@.len() ==> result == Some(
                &self.effects@[effect_id as int],
            ),
            effect_id < 0 || effect_id >= self.effects@.len() ==> result is None,
    {
        if effect_id < 0 {
            return None;
        }
        let row = effect_id as usize;
        if row < self.effects.len() {
            Some(&self.effects[row])
        } else {
            None
        }
    }
}

} // verus!
