//! Resource usage entries: what a unit costs or gives, in which resource,
//! and when it is counted.
use crate::dat::wire::{
    fail, has_bytes, holds, le_u16, u16_at, unreadable, Fault, FaultKind, Parsed, Record,
};
use vstd::prelude::*;

verus! {

/// How and when a resource amount is counted.
#[derive(Clone, Copy, Debug, PartialEq, Eq, PartialOrd, Structural)]
pub enum ResourceUsageTrigger {
    OnCreate,
    OnQueue,
}

/// The kind of resource that is given or taken.
#[derive(Clone, Copy, Debug, PartialEq, Eq, PartialOrd, Structural)]
pub enum ResourceUsageType {
    /// Take or give an amount of food to the player.
    Food,
    /// Take or give an amount of wood to the player.
    Wood,
    /// Take or give an amount of stone to the player.
    Stone,
    /// Take or give an amount of gold to the player.
    Gold,
    /// Take or give an amount of population to the player.
    Pop,
    /// A free unit.
    Free,
    /// Decreases the count of a unit that the team shares.
    DecreaseSharedUnitCount,
    /// A town center slot.
    TownCenter,
    /// Decreases the number of units that a team bonus makes available.
    TeamBonusCounter,
    /// No resource: the entry can be ignored. Stored as 65535, which is -1
    /// in a signed field of the same width.
    NoResource,
}

/// One resource amount that a unit costs or gives.
#[derive(Clone, Copy, Debug, PartialEq, Eq, Structural)]
pub struct ResourceUsage {
    /// The kind of resource to give or take.
    pub attribute: ResourceUsageType,
    /// The amount to give or take.
    pub amount: i16,
    /// How and when this is counted.
    pub flag: ResourceUsageTrigger,
}

impl ResourceUsageTrigger {
    /// The trigger that a stored code stands for, if any.
    pub open spec fn of_code(code: u16) -> Option<ResourceUsageTrigger> {
        if code == 0 {
            Some(ResourceUsageTrigger::OnCreate)
        } else if code == 1 {
            Some(ResourceUsageTrigger::OnQueue)
        } else {
            None
        }
    }

    /// The code under which a trigger is stored.
    pub open spec fn code_of(self) -> u16 {
        match self {
            ResourceUsageTrigger::OnCreate => 0,
            ResourceUsageTrigger::OnQueue => 1,
        }
    }

    /// The trigger that a stored code stands for, if any.
    pub fn from_code(code: u16) -> (result: Option<ResourceUsageTrigger>)
        ensures
            result == Self::of_code(code),
    {
        if code == 0 {
            Some(ResourceUsageTrigger::OnCreate)
        } else if code == 1 {
            Some(ResourceUsageTrigger::OnQueue)
        } else {
            None
        }
    }

    /// The code under which this trigger is stored.
    pub fn code(&self) -> (code: u16)
        ensures
            code == self.code_of(),
    {
        match self {
            ResourceUsageTrigger::OnCreate => 0,
            ResourceUsageTrigger::OnQueue => 1,
        }
    }

    /// Every trigger is found again from its code, and a code that stands
    /// for a trigger is the code of that trigger.
    pub proof fn lemma_code_round_trip(trigger: ResourceUsageTrigger, code: u16)
        ensures
            Self::of_code(trigger.code_of()) == Some(trigger),
            Self::of_code(code) matches Some(found) ==> found.code_of() == code,
    {
    }
}

impl ResourceUsageType {
    /// The resource type that a stored code stands for, if any. The codes
    /// are sparse, and 65535 stands for no resource.
    pub open spec fn of_code(code: u16) -> Option<ResourceUsageType> {
        if code == 0 {
            Some(ResourceUsageType::Food)
        } else if code == 1 {
            Some(ResourceUsageType::Wood)
        } else if code == 2 {
            Some(ResourceUsageType::Stone)
        } else if code == 3 {
            Some(ResourceUsageType::Gold)
        } else if code == 4 {
            Some(ResourceUsageType::Pop)
        } else if code == 214 {
            Some(ResourceUsageType::Free)
        } else if code == 215 {
            Some(ResourceUsageType::DecreaseSharedUnitCount)
        } else if code == 218 {
            Some(ResourceUsageType::TownCenter)
        } else if code == 219 {
            Some(ResourceUsageType::TeamBonusCounter)
        } else if code == 65535 {
            Some(ResourceUsageType::NoResource)
        } else {
            None
        }
    }

    /// The code under which a resource type is stored.
    pub open spec fn code_of(self) -> u16 {
        match self {
            ResourceUsageType::Food => 0,
            ResourceUsageType::Wood => 1,
            ResourceUsageType::Stone => 2,
            ResourceUsageType::Gold => 3,
            ResourceUsageType::Pop => 4,
            ResourceUsageType::Free => 214,
            ResourceUsageType::DecreaseSharedUnitCount => 215,
            ResourceUsageType::TownCenter => 218,
            ResourceUsageType::TeamBonusCounter => 219,
            ResourceUsageType::NoResource => 65535,
        }
    }

    /// The resource type that a stored code stands for, if any.
    pub fn from_code(code: u16) -> (result: Option<ResourceUsageType>)
        ensures
            result == Self::of_code(code),
    {
        if code == 0 {
            Some(ResourceUsageType::Food)
        } else if code == 1 {
            Some(ResourceUsageType::Wood)
        } else if code == 2 {
            Some(ResourceUsageType::Stone)
        } else if code == 3 {
            Some(ResourceUsageType::Gold)
        } else if code == 4 {
            Some(ResourceUsageType::Pop)
        } else if code == 214 {
            Some(ResourceUsageType::Free)
        } else if code == 215 {
            Some(ResourceUsageType::DecreaseSharedUnitCount)
        } else if code == 218 {
            Some(ResourceUsageType::TownCenter)
        } else if code == 219 {
            Some(ResourceUsageType::TeamBonusCounter)
        } else if code == 65535 {
            Some(ResourceUsageType::NoResource)
        } else {
            None
        }
    }

    /// The code under which this resource type is stored.
    pub fn code(&self) -> (code: u16)
        ensures
            code == self.code_of(),
    {
        match self {
            ResourceUsageType::Food => 0,
            ResourceUsageType::Wood => 1,
            ResourceUsageType::Stone => 2,
            ResourceUsageType::Gold => 3,
            ResourceUsageType::Pop => 4,
            ResourceUsageType::Free => 214,
            ResourceUsageType::DecreaseSharedUnitCount => 215,
            ResourceUsageType::TownCenter => 218,
            ResourceUsageType::TeamBonusCounter => 219,
            ResourceUsageType::NoResource => 65535,
        }
    }

    /// Every resource type, the one for no resource too, is found again
    /// from its code, and a code that stands for a resource type is the
    /// code of that type.
    pub proof fn lemma_code_round_trip(kind: ResourceUsageType, code: u16)
        ensures
            Self::of_code(kind.code_of()) == Some(kind),
            Self::of_code(code) matches Some(found) ==> found.code_of() == code,
    {
    }
}

impl View for ResourceUsageTrigger {
    type V = ResourceUsageTrigger;

    open spec fn view(&self) -> ResourceUsageTrigger {
        *self
    }
}

impl View for ResourceUsageType {
    type V = ResourceUsageType;

    open spec fn view(&self) -> ResourceUsageType {
        *self
    }
}

impl View for ResourceUsage {
    type V = ResourceUsage;

    open spec fn view(&self) -> ResourceUsage {
        *self
    }
}

impl Record for ResourceUsageTrigger {
    /// A two-byte code; one that stands for no trigger is refused where it
    /// stands.
    open spec fn parse(bytes: Seq<u8>, at: int) -> Parsed<ResourceUsageTrigger> {
        if !holds(bytes, at, 2) {
            unreadable(at)
        } else {
            match Self::of_code(le_u16(bytes, at)) {
                Some(value) => Parsed::Value { value, next: at + 2 },
                None => Parsed::Failure { kind: FaultKind::Discriminant, offset: at },
            }
        }
    }

    fn decode(bytes: &[u8], at: usize) -> (result: Result<(ResourceUsageTrigger, usize), Fault>) {
        if !has_bytes(bytes, at, 2) {
            return Err(Fault { kind: FaultKind::Read, offset: at });
        }
        match Self::from_code(u16_at(bytes, at)) {
            Some(value) => Ok((value, at + 2)),
            None => Err(Fault { kind: FaultKind::Discriminant, offset: at }),
        }
    }

    proof fn lemma_parse_within(bytes: Seq<u8>, at: int) {
    }

    proof fn lemma_parse_local(a: Seq<u8>, b: Seq<u8>, at: int, upto: int) {
    }

    proof fn lemma_refusal_stands(short: Seq<u8>, long: Seq<u8>, at: int) {
    }
}

impl Record for ResourceUsageType {
    /// A two-byte code; one that stands for no resource type is refused
    /// where it stands.
    open spec fn parse(bytes: Seq<u8>, at: int) -> Parsed<ResourceUsageType> {
        if !holds(bytes, at, 2) {
            unreadable(at)
        } else {
            match Self::of_code(le_u16(bytes, at)) {
                Some(value) => Parsed::Value { value, next: at + 2 },
                None => Parsed::Failure { kind: FaultKind::Discriminant, offset: at },
            }
        }
    }

    fn decode(bytes: &[u8], at: usize) -> (result: Result<(ResourceUsageType, usize), Fault>) {
        if !has_bytes(bytes, at, 2) {
            return Err(Fault { kind: FaultKind::Read, offset: at });
        }
        match Self::from_code(u16_at(bytes, at)) {
            Some(value) => Ok((value, at + 2)),
            None => Err(Fault { kind: FaultKind::Discriminant, offset: at }),
        }
    }

    proof fn lemma_parse_within(bytes: Seq<u8>, at: int) {
    }

    proof fn lemma_parse_local(a: Seq<u8>, b: Seq<u8>, at: int, upto: int) {
    }

    proof fn lemma_refusal_stands(short: Seq<u8>, long: Seq<u8>, at: int) {
    }
}

impl Record for ResourceUsage {
    /// The resource type, then the amount, then the trigger: six bytes.
    open spec fn parse(bytes: Seq<u8>, at: int) -> Parsed<ResourceUsage> {
        let attribute = ResourceUsageType::parse(bytes, at);
        let amount = i16::parse(bytes, at + 2);
        let flag = ResourceUsageTrigger::parse(bytes, at + 4);
        if attribute is Failure {
            fail(attribute)
        } else if amount is Failure {
            fail(amount)
        } else if flag is Failure {
            fail(flag)
        } else {
            Parsed::Value {
                value: ResourceUsage {
                    attribute: attribute->value,
                    amount: amount->value,
                    flag: flag->value,
                },
                next: at + 6,
            }
        }
    }

    fn decode(bytes: &[u8], at: usize) -> (result: Result<(ResourceUsage, usize), Fault>) {
        let (attribute, after_attribute) = ResourceUsageType::decode(bytes, at)?;
        let (amount, after_amount) = i16::decode(bytes, after_attribute)?;
        let (flag, next) = ResourceUsageTrigger::decode(bytes, after_amount)?;
        Ok((ResourceUsage { attribute, amount, flag }, next))
    }

    proof fn lemma_parse_within(bytes: Seq<u8>, at: int) {
    }

    proof fn lemma_parse_local(a: Seq<u8>, b: Seq<u8>, at: int, upto: int) {
    }

    proof fn lemma_refusal_stands(short: Seq<u8>, long: Seq<u8>, at: int) {
    }
}

} // verus!
