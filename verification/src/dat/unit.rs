//! Unit headers: the tasks of each unit slot.
use crate::dat::wire::{
    fail, has_bytes, holds, i16_at, le_u16, lemma_list_16_local, lemma_list_16_refusal_stands,
    lemma_list_16_within, lemma_list_32_local, lemma_list_32_refusal_stands, lemma_list_32_within,
    parse_list_16, parse_list_32, read_list_16, read_list_32, signed_16, u8_at, unreadable, views,
    Fault, FaultKind, Parsed, Record,
};
use vstd::prelude::*;

verus! {

/// One task that a unit can be given.
#[derive(Clone, Copy, Debug, PartialEq, Eq, Structural)]
pub struct UnitTask {
    pub task_type: i16,
    pub id: i16,
    pub is_default: u8,
    pub action_type: i16,
    pub class_id: i16,
    pub unit_id: i16,
}

impl View for UnitTask {
    type V = UnitTask;

    open spec fn view(&self) -> UnitTask {
        *self
    }
}

impl Record for UnitTask {
    /// The two-byte signed task type and identifier, a one-byte default flag,
    /// then the two-byte signed action type, class and unit: eleven bytes in
    /// all.
    open spec fn parse(bytes: Seq<u8>, at: int) -> Parsed<UnitTask> {
        if !holds(bytes, at, 11) {
            unreadable(at)
        } else {
            Parsed::Value {
                value: UnitTask {
                    task_type: signed_16(le_u16(bytes, at)),
                    id: signed_16(le_u16(bytes, at + 2)),
                    is_default: bytes[at + 4],
                    action_type: signed_16(le_u16(bytes, at + 5)),
                    class_id: signed_16(le_u16(bytes, at + 7)),
                    unit_id: signed_16(le_u16(bytes, at + 9)),
                },
                next: at + 11,
            }
        }
    }

    fn decode(bytes: &[u8], at: usize) -> (result: Result<(UnitTask, usize), Fault>) {
        if !has_bytes(bytes, at, 11) {
            return Err(Fault { kind: FaultKind::Read, offset: at });
        }
        Ok((
            UnitTask {
                task_type: i16_at(bytes, at),
                id: i16_at(bytes, at + 2),
                is_default: u8_at(bytes, at + 4),
                action_type: i16_at(bytes, at + 5),
                class_id: i16_at(bytes, at + 7),
                unit_id: i16_at(bytes, at + 9),
            },
            at + 11,
        ))
    }

    proof fn lemma_parse_within(bytes: Seq<u8>, at: int) {
    }

    proof fn lemma_parse_local(a: Seq<u8>, b: Seq<u8>, at: int, upto: int) {
    }

    proof fn lemma_refusal_stands(short: Seq<u8>, long: Seq<u8>, at: int) {
    }
}

/// The tasks of one unit slot.
#[derive(Clone, Debug, PartialEq, Eq)]
pub struct UnitHeader {
    pub exists: u8,
    pub tasks: Vec<UnitTask>,
}

/// What a value of `UnitHeader` stands for.
pub struct UnitHeaderModel {
    pub exists: u8,
    pub tasks: Seq<UnitTask>,
}

impl View for UnitHeader {
    type V = UnitHeaderModel;

    open spec fn view(&self) -> UnitHeaderModel {
        UnitHeaderModel {
            exists: self.exists,
            tasks: views(self.tasks@),
        }
    }
}

impl Record for UnitHeader {
    /// A one-byte flag that tells whether the slot is in use, then a two-byte
    /// count and that many tasks.
    open spec fn parse(bytes: Seq<u8>, at: int) -> Parsed<UnitHeaderModel> {
        let tasks = parse_list_16::<UnitTask>(bytes, at + 1);
        if !holds(bytes, at, 1) {
            unreadable(at)
        } else if tasks is Failure {
            fail(tasks)
        } else {
            Parsed::Value {
                value: UnitHeaderModel {
                    exists: bytes[at],
                    tasks: tasks->value,
                },
                next: tasks->next,
            }
        }
    }

    fn decode(bytes: &[u8], at: usize) -> (result: Result<(UnitHeader, usize), Fault>) {
        if !has_bytes(bytes, at, 1) {
            return Err(Fault { kind: FaultKind::Read, offset: at });
        }
        let (tasks, next) = read_list_16::<UnitTask>(bytes, at + 1)?;
        Ok((
            UnitHeader {
                exists: u8_at(bytes, at),
                tasks,
            },
            next,
        ))
    }

    proof fn lemma_parse_within(bytes: Seq<u8>, at: int) {
        if holds(bytes, at, 1) {
            lemma_list_16_within::<UnitTask>(bytes, at + 1);
        }
    }

    proof fn lemma_parse_local(a: Seq<u8>, b: Seq<u8>, at: int, upto: int) {
        let whole = Self::parse(a, at);
        if whole is Value && whole->next <= upto {
            lemma_list_16_within::<UnitTask>(a, at + 1);
            lemma_list_16_local::<UnitTask>(a, b, at + 1, upto);
        }
    }

    proof fn lemma_refusal_stands(short: Seq<u8>, long: Seq<u8>, at: int) {
        if holds(short, at, 1) {
            lemma_list_16_refusal_stands::<UnitTask>(short, long, at + 1);
        }
    }
}

/// The unit slots with their tasks, in file order.
#[derive(Clone, Debug, PartialEq, Eq)]
pub struct Units {
    pub headers: Vec<UnitHeader>,
}

/// What a value of `Units` stands for.
pub struct UnitsModel {
    pub headers: Seq<UnitHeaderModel>,
}

impl View for Units {
    type V = UnitsModel;

    open spec fn view(&self) -> UnitsModel {
        UnitsModel {
            headers: views(self.headers@),
        }
    }
}

impl Record for Units {
    /// A four-byte count, then that many unit headers.
    open spec fn parse(bytes: Seq<u8>, at: int) -> Parsed<UnitsModel> {
        let headers = parse_list_32::<UnitHeader>(bytes, at);
        if headers is Failure {
            fail(headers)
        } else {
            Parsed::Value {
                value: UnitsModel {
                    headers: headers->value,
                },
                next: headers->next,
            }
        }
    }

    fn decode(bytes: &[u8], at: usize) -> (result: Result<(Units, usize), Fault>) {
        let (headers, next) = read_list_32::<UnitHeader>(bytes, at)?;
        Ok((
            Units {
                headers,
            },
            next,
        ))
    }

    proof fn lemma_parse_within(bytes: Seq<u8>, at: int) {
        lemma_list_32_within::<UnitHeader>(bytes, at);
    }

    proof fn lemma_parse_local(a: Seq<u8>, b: Seq<u8>, at: int, upto: int) {
        let whole = Self::parse(a, at);
        if whole is Value && whole->next <= upto {
            lemma_list_32_within::<UnitHeader>(a, at);
            lemma_list_32_local::<UnitHeader>(a, b, at, upto);
        }
    }

    proof fn lemma_refusal_stands(short: Seq<u8>, long: Seq<u8>, at: int) {
        lemma_list_32_refusal_stands::<UnitHeader>(short, long, at);
    }
}

} // verus!
