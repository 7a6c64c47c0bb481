//! Technologies and what researching them costs.
use crate::dat::text::{lemma_name_local, lemma_name_within, parse_name, read_name};
use crate::dat::wire::{
    fail, has_bytes, holds, i16_at, le_u16, lemma_list_16_local, lemma_list_16_refusal_stands,
    lemma_list_16_within, lemma_sequence_local, lemma_sequence_refusal_stands,
    lemma_sequence_within, parse_list_16, parse_sequence, read_list_16, read_sequence, signed_16,
    u16_at, u8_at, unreadable, views, Fault, FaultKind, Parsed, Record,
};
use vstd::prelude::*;

verus! {

/// The resource in which a research cost is paid.
#[derive(Clone, Copy, Debug, PartialEq, Eq, PartialOrd, Structural)]
pub enum ResourceCostType {
    Food,
    Wood,
    Stone,
    Gold,
    /// No resource: the entry is unused. Stored as 65535, which is -1 in a
    /// signed field of the same width.
    NoResource,
}

impl ResourceCostType {
    /// The symbol that a stored code stands for, if any.
    pub open spec fn of_code(code: u16) -> Option<ResourceCostType> {
        if code == 0 {
            Some(ResourceCostType::Food)
        } else if code == 1 {
            Some(ResourceCostType::Wood)
        } else if code == 2 {
            Some(ResourceCostType::Stone)
        } else if code == 3 {
            Some(ResourceCostType::Gold)
        } else if code == 65535 {
            Some(ResourceCostType::NoResource)
        } else {
            None
        }
    }

    /// The code under which a symbol is stored.
    pub open spec fn code_of(self) -> u16 {
        match self {
            ResourceCostType::Food => 0,
            ResourceCostType::Wood => 1,
            ResourceCostType::Stone => 2,
            ResourceCostType::Gold => 3,
            ResourceCostType::NoResource => 65535,
        }
    }

    /// The symbol that a stored code stands for, if any.
    pub fn from_code(code: u16) -> (result: Option<ResourceCostType>)
        ensures
            result == Self::of_code(code),
    {
        if code == 0 {
            Some(ResourceCostType::Food)
        } else if code == 1 {
            Some(ResourceCostType::Wood)
        } else if code == 2 {
            Some(ResourceCostType::Stone)
        } else if code == 3 {
            Some(ResourceCostType::Gold)
        } else if code == 65535 {
            Some(ResourceCostType::NoResource)
        } else {
            None
        }
    }

    /// The code under which this symbol is stored.
    pub fn code(&self) -> (code: u16)
        ensures
            code == self.code_of(),
    {
        match self {
            ResourceCostType::Food => 0,
            ResourceCostType::Wood => 1,
            ResourceCostType::Stone => 2,
            ResourceCostType::Gold => 3,
            ResourceCostType::NoResource => 65535,
        }
    }

    /// Every symbol is found again from its code, and a code that stands for
    /// a symbol is the code of that symbol.
    pub proof fn lemma_code_round_trip(symbol: ResourceCostType, code: u16)
        ensures
            Self::of_code(symbol.code_of()) == Some(symbol),
            Self::of_code(code) matches Some(found) ==> found.code_of() == code,
    {
    }
}

impl View for ResourceCostType {
    type V = ResourceCostType;

    open spec fn view(&self) -> ResourceCostType {
        *self
    }
}

impl Record for ResourceCostType {
    /// A two-byte code; one that stands for no resource is refused where it
    /// stands.
    open spec fn parse(bytes: Seq<u8>, at: int) -> Parsed<ResourceCostType> {
        if !holds(bytes, at, 2) {
            unreadable(at)
        } else {
            match Self::of_code(le_u16(bytes, at)) {
                Some(value) => Parsed::Value { value, next: at + 2 },
                None => Parsed::Failure { kind: FaultKind::Discriminant, offset: at },
            }
        }
    }

    fn decode(bytes: &[u8], at: usize) -> (result: Result<(ResourceCostType, usize), Fault>) {
        if !has_bytes(bytes, at, 2) {
            return Err(Fault { kind: FaultKind::Read, offset: at });
        }
        match Self::from_code(u16_at(bytes, at)) {
            Some(value) => Ok((value, at + 2)),
            None => Err(Fault { kind: FaultKind::Discriminant, offset: at }),
        }
    }

    proof fn lemma_parse_within(bytes: Seq<u8>, at: int) {
    }

    proof fn lemma_parse_local(a: Seq<u8>, b: Seq<u8>, at: int, upto: int) {
    }

    proof fn lemma_refusal_stands(short: Seq<u8>, long: Seq<u8>, at: int) {
    }
}

/// When a research cost is counted.
#[derive(Clone, Copy, Debug, PartialEq, Eq, PartialOrd, Structural)]
pub enum ResourceCostTrigger {
    OnCreate,
    OnQueue,
}

impl ResourceCostTrigger {
    /// The symbol that a stored code stands for, if any.
    pub open spec fn of_code(code: u8) -> Option<ResourceCostTrigger> {
        if code == 0 {
            Some(ResourceCostTrigger::OnCreate)
        } else if code == 1 {
            Some(ResourceCostTrigger::OnQueue)
        } else {
            None
        }
    }

    /// The code under which a symbol is stored.
    pub open spec fn code_of(self) -> u8 {
        match self {
            ResourceCostTrigger::OnCreate => 0,
            ResourceCostTrigger::OnQueue => 1,
        }
    }

    /// The symbol that a stored code stands for, if any.
    pub fn from_code(code: u8) -> (result: Option<ResourceCostTrigger>)
        ensures
            result == Self::of_code(code),
    {
        if code == 0 {
            Some(ResourceCostTrigger::OnCreate)
        } else if code == 1 {
            Some(ResourceCostTrigger::OnQueue)
        } else {
            None
        }
    }

    /// The code under which this symbol is stored.
    pub fn code(&self) -> (code: u8)
        ensures
            code == self.code_of(),
    {
        match self {
            ResourceCostTrigger::OnCreate => 0,
            ResourceCostTrigger::OnQueue => 1,
        }
    }

    /// Every symbol is found again from its code, and a code that stands for
    /// a symbol is the code of that symbol.
    pub proof fn lemma_code_round_trip(symbol: ResourceCostTrigger, code: u8)
        ensures
            Self::of_code(symbol.code_of()) == Some(symbol),
            Self::of_code(code) matches Some(found) ==> found.code_of() == code,
    {
    }
}

impl View for ResourceCostTrigger {
    type V = ResourceCostTrigger;

    open spec fn view(&self) -> ResourceCostTrigger {
        *self
    }
}

impl Record for ResourceCostTrigger {
    /// A one-byte code; one that stands for no trigger is refused where it
    /// stands.
    open spec fn parse(bytes: Seq<u8>, at: int) -> Parsed<ResourceCostTrigger> {
        if !holds(bytes, at, 1) {
            unreadable(at)
        } else {
            match Self::of_code(bytes[at]) {
                Some(value) => Parsed::Value { value, next: at + 1 },
                None => Parsed::Failure { kind: FaultKind::Discriminant, offset: at },
            }
        }
    }

    fn decode(bytes: &[u8], at: usize) -> (result: Result<(ResourceCostTrigger, usize), Fault>) {
        if !has_bytes(bytes, at, 1) {
            return Err(Fault { kind: FaultKind::Read, offset: at });
        }
        match Self::from_code(u8_at(bytes, at)) {
            Some(value) => Ok((value, at + 1)),
            None => Err(Fault { kind: FaultKind::Discriminant, offset: at }),
        }
    }

    proof fn lemma_parse_within(bytes: Seq<u8>, at: int) {
    }

    proof fn lemma_parse_local(a: Seq<u8>, b: Seq<u8>, at: int, upto: int) {
    }

    proof fn lemma_refusal_stands(short: Seq<u8>, long: Seq<u8>, at: int) {
    }
}

/// One amount of one resource that researching a technology costs.
#[derive(Clone, Copy, Debug, PartialEq, Eq, Structural)]
pub struct TechResourcesCost {
    pub resource_type: ResourceCostType,
    pub amount: i16,
    pub flag: ResourceCostTrigger,
}

impl View for TechResourcesCost {
    type V = TechResourcesCost;

    open spec fn view(&self) -> TechResourcesCost {
        *self
    }
}

impl Record for TechResourcesCost {
    /// The resource type, then the two-byte signed amount, then the trigger:
    /// five bytes.
    open spec fn parse(bytes: Seq<u8>, at: int) -> Parsed<TechResourcesCost> {
        let resource_type = ResourceCostType::parse(bytes, at);
        let amount = i16::parse(bytes, resource_type->next);
        let flag = ResourceCostTrigger::parse(bytes, amount->next);
        if resource_type is Failure {
            fail(resource_type)
        } else if amount is Failure {
            fail(amount)
        } else if flag is Failure {
            fail(flag)
        } else {
            Parsed::Value {
                value: TechResourcesCost {
                    resource_type: resource_type->value,
                    amount: amount->value,
                    flag: flag->value,
                },
                next: flag->next,
            }
        }
    }

    fn decode(bytes: &[u8], at: usize) -> (result: Result<(TechResourcesCost, usize), Fault>) {
        let (resource_type, after_resource_type) = ResourceCostType::decode(bytes, at)?;
        let (amount, after_amount) = i16::decode(bytes, after_resource_type)?;
        let (flag, next) = ResourceCostTrigger::decode(bytes, after_amount)?;
        Ok((
            TechResourcesCost {
                resource_type,
                amount,
                flag,
            },
            next,
        ))
    }

    proof fn lemma_parse_within(bytes: Seq<u8>, at: int) {
        ResourceCostType::lemma_parse_within(bytes, at);
        let resource_type = ResourceCostType::parse(bytes, at);
        if resource_type is Value {
            i16::lemma_parse_within(bytes, resource_type->next);
            let amount = i16::parse(bytes, resource_type->next);
            if amount is Value {
                ResourceCostTrigger::lemma_parse_within(bytes, amount->next);
            }
        }
    }

    proof fn lemma_parse_local(a: Seq<u8>, b: Seq<u8>, at: int, upto: int) {
        let whole = Self::parse(a, at);
        if whole is Value && whole->next <= upto {
            let resource_type = ResourceCostType::parse(a, at);
            ResourceCostType::lemma_parse_within(a, at);
            let amount = i16::parse(a, resource_type->next);
            i16::lemma_parse_within(a, resource_type->next);
            ResourceCostTrigger::lemma_parse_within(a, amount->next);
            ResourceCostType::lemma_parse_local(a, b, at, upto);
            i16::lemma_parse_local(a, b, resource_type->next, upto);
            ResourceCostTrigger::lemma_parse_local(a, b, amount->next, upto);
        }
    }

    proof fn lemma_refusal_stands(short: Seq<u8>, long: Seq<u8>, at: int) {
        let resource_type = ResourceCostType::parse(short, at);
        ResourceCostType::lemma_parse_within(short, at);
        ResourceCostType::lemma_refusal_stands(short, long, at);
        if resource_type is Value {
            ResourceCostType::lemma_parse_local(short, long, at, short.len() as int);
            let amount = i16::parse(short, resource_type->next);
            i16::lemma_parse_within(short, resource_type->next);
            i16::lemma_refusal_stands(short, long, resource_type->next);
            if amount is Value {
                i16::lemma_parse_local(short, long, resource_type->next, short.len() as int);
                ResourceCostTrigger::lemma_refusal_stands(short, long, amount->next);
            }
        }
    }
}

/// One technology: what it requires, what it costs, and the effect that it
/// applies.
#[derive(Clone, Debug, PartialEq, Eq)]
pub struct Tech {
    pub required_tech_count: i16,
    pub civilization: i16,
    pub research_location: i16,
    pub research_time: i16,
    /// The row of the effects table that researching applies; a row that the
    /// table does not have stands for no effect.
    pub effect_id: i16,
    pub tech_type: i16,
    pub icon_id: i16,
    pub button_id: u8,
    pub required_techs: Vec<i16>,
    pub research_resource_cost: Vec<TechResourcesCost>,
    pub name: String,
}

/// What a value of `Tech` stands for.
pub struct TechModel {
    pub required_tech_count: i16,
    pub civilization: i16,
    pub research_location: i16,
    pub research_time: i16,
    pub effect_id: i16,
    pub tech_type: i16,
    pub icon_id: i16,
    pub button_id: u8,
    pub required_techs: Seq<i16>,
    pub research_resource_cost: Seq<TechResourcesCost>,
    pub name: Seq<char>,
}

impl View for Tech {
    type V = TechModel;

    open spec fn view(&self) -> TechModel {
        TechModel {
            required_tech_count: self.required_tech_count,
            civilization: self.civilization,
            research_location: self.research_location,
            research_time: self.research_time,
            effect_id: self.effect_id,
            tech_type: self.tech_type,
            icon_id: self.icon_id,
            button_id: self.button_id,
            required_techs: views(self.required_techs@),
            research_resource_cost: views(self.research_resource_cost@),
            name: self.name@,
        }
    }
}

impl Record for Tech {
    /// Seven two-byte signed values and the one-byte button, fifteen bytes in
    /// all; then the six two-byte signed required technologies, the three
    /// resource costs, and the name.
    open spec fn parse(bytes: Seq<u8>, at: int) -> Parsed<TechModel> {
        let required_techs = parse_sequence::<i16>(bytes, at + 15, 6);
        let research_resource_cost = parse_sequence::<TechResourcesCost>(
            bytes,
            required_techs->next, 3,
        );
        let name = parse_name(bytes, research_resource_cost->next);
        if !holds(bytes, at, 15) {
            unreadable(at)
        } else if required_techs is Failure {
            fail(required_techs)
        } else if research_resource_cost is Failure {
            fail(research_resource_cost)
        } else if name is Failure {
            fail(name)
        } else {
            Parsed::Value {
                value: TechModel {
                    required_tech_count: signed_16(le_u16(bytes, at)),
                    civilization: signed_16(le_u16(bytes, at + 2)),
                    research_location: signed_16(le_u16(bytes, at + 4)),
                    research_time: signed_16(le_u16(bytes, at + 6)),
                    effect_id: signed_16(le_u16(bytes, at + 8)),
                    tech_type: signed_16(le_u16(bytes, at + 10)),
                    icon_id: signed_16(le_u16(bytes, at + 12)),
                    button_id: bytes[at + 14],
                    required_techs: required_techs->value,
                    research_resource_cost: research_resource_cost->value,
                    name: name->value,
                },
                next: name->next,
            }
        }
    }

    fn decode(bytes: &[u8], at: usize) -> (result: Result<(Tech, usize), Fault>) {
        if !has_bytes(bytes, at, 15) {
            return Err(Fault { kind: FaultKind::Read, offset: at });
        }
        let (required_techs, after_required_techs) = read_sequence::<i16>(bytes, at + 15, 6)?;
        let (research_resource_cost, after_research_resource_cost) = read_sequence::<TechResourcesCost>(
            bytes,
            after_required_techs,
            3,
        )?;
        let (name, next) = read_name(bytes, after_research_resource_cost)?;
        Ok((
            Tech {
                required_tech_count: i16_at(bytes, at),
                civilization: i16_at(bytes, at + 2),
                research_location: i16_at(bytes, at + 4),
                research_time: i16_at(bytes, at + 6),
                effect_id: i16_at(bytes, at + 8),
                tech_type: i16_at(bytes, at + 10),
                icon_id: i16_at(bytes, at + 12),
                button_id: u8_at(bytes, at + 14),
                required_techs,
                research_resource_cost,
                name,
            },
            next,
        ))
    }

    proof fn lemma_parse_within(bytes: Seq<u8>, at: int) {
        if holds(bytes, at, 15) {
            lemma_sequence_within::<i16>(bytes, at + 15, 6);
            let required_techs = parse_sequence::<i16>(bytes, at + 15, 6);
            if required_techs is Value {
                lemma_sequence_within::<TechResourcesCost>(bytes, required_techs->next, 3);
                let research_resource_cost = parse_sequence::<TechResourcesCost>(
                    bytes,
                    required_techs->next, 3,
                );
                if research_resource_cost is Value {
                    lemma_name_within(bytes, research_resource_cost->next);
                }
            }
        }
    }

    proof fn lemma_parse_local(a: Seq<u8>, b: Seq<u8>, at: int, upto: int) {
        let whole = Self::parse(a, at);
        if whole is Value && whole->next <= upto {
            let required_techs = parse_sequence::<i16>(a, at + 15, 6);
            lemma_sequence_within::<i16>(a, at + 15, 6);
            let research_resource_cost = parse_sequence::<TechResourcesCost>(
                a,
                required_techs->next, 3,
            );
            lemma_sequence_within::<TechResourcesCost>(a, required_techs->next, 3);
            lemma_name_within(a, research_resource_cost->next);
            lemma_sequence_local::<i16>(a, b, at + 15, upto, 6);
            lemma_sequence_local::<TechResourcesCost>(a, b, required_techs->next, upto, 3);
            lemma_name_local(a, b, research_resource_cost->next, upto);
        }
    }

    proof fn lemma_refusal_stands(short: Seq<u8>, long: Seq<u8>, at: int) {
        if holds(short, at, 15) {
            let required_techs = parse_sequence::<i16>(short, at + 15, 6);
            lemma_sequence_within::<i16>(short, at + 15, 6);
            lemma_sequence_refusal_stands::<i16>(short, long, at + 15, 6);
            if required_techs is Value {
                lemma_sequence_local::<i16>(short, long, at + 15, short.len() as int, 6);
                let research_resource_cost = parse_sequence::<TechResourcesCost>(
                    short,
                    required_techs->next, 3,
                );
                lemma_sequence_within::<TechResourcesCost>(short, required_techs->next, 3);
                lemma_sequence_refusal_stands::<TechResourcesCost>(
                    short,
                    long,
                    required_techs->next, 3,
                );
                if research_resource_cost is Value {
                    lemma_sequence_local::<TechResourcesCost>(
                        short,
                        long,
                        required_techs->next, short.len() as int, 3,
                    );
                }
            }
        }
    }
}

/// The technologies, in file order.
#[derive(Clone, Debug, PartialEq, Eq)]
pub struct Techs {
    pub techs: Vec<Tech>,
}

/// What a value of `Techs` stands for.
pub struct TechsModel {
    pub techs: Seq<TechModel>,
}

impl View for Techs {
    type V = TechsModel;

    open spec fn view(&self) -> TechsModel {
        TechsModel {
            techs: views(self.techs@),
        }
    }
}

impl Record for Techs {
    /// A two-byte count, then that many technologies.
    open spec fn parse(bytes: Seq<u8>, at: int) -> Parsed<TechsModel> {
        let techs = parse_list_16::<Tech>(bytes, at);
        if techs is Failure {
            fail(techs)
        } else {
            Parsed::Value {
                value: TechsModel {
                    techs: techs->value,
                },
                next: techs->next,
            }
        }
    }

    fn decode(bytes: &[u8], at: usize) -> (result: Result<(Techs, usize), Fault>) {
        let (techs, next) = read_list_16::<Tech>(bytes, at)?;
        Ok((
            Techs {
                techs,
            },
            next,
        ))
    }

    proof fn lemma_parse_within(bytes: Seq<u8>, at: int) {
        lemma_list_16_within::<Tech>(bytes, at);
    }

    proof fn lemma_parse_local(a: Seq<u8>, b: Seq<u8>, at: int, upto: int) {
        let whole = Self::parse(a, at);
        if whole is Value && whole->next <= upto {
            lemma_list_16_within::<Tech>(a, at);
            lemma_list_16_local::<Tech>(a, b, at, upto);
        }
    }

    proof fn lemma_refusal_stands(short: Seq<u8>, long: Seq<u8>, at: int) {
        lemma_list_16_refusal_stands::<Tech>(short, long, at);
    }
}

} // verus!
