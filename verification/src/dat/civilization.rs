//! Civilizations and the units that each of them owns.
use crate::dat::resource::ResourceUsage;
use crate::dat::text::{lemma_name_local, lemma_name_within, parse_name, read_name};
use crate::dat::wire::{
    fail, has_bytes, holds, i16_at, le_u16, le_u32, lemma_list_16_local,
    lemma_list_16_refusal_stands, lemma_list_16_within, lemma_sequence_each, lemma_sequence_length,
    lemma_sequence_local, lemma_sequence_refusal_stands, lemma_sequence_within, parse_list_16,
    parse_sequence, read_list_16, read_sequence, signed_16, u32_at, u8_at, unreadable, views, Fault,
    FaultKind, Parsed, Record,
};
use vstd::prelude::*;

verus! {

/// The kind of a unit. It decides which fields follow the base fields in the
/// stream.
#[derive(Clone, Copy, Debug, PartialEq, Eq, PartialOrd, Structural)]
pub enum UnitType {
    EyeCandy,
    Trees,
    Flag,
    Doppelganger,
    DeadFish,
    Bird,
    Combatant,
    Projectile,
    /// A unit that can be trained: the only kind with combat statistics and
    /// costs behind its base fields.
    Creatable,
    Building,
    AoeTrees,
}

impl UnitType {
    /// The symbol that a stored code stands for, if any.
    pub open spec fn of_code(code: u8) -> Option<UnitType> {
        if code == 10 {
            Some(UnitType::EyeCandy)
        } else if code == 15 {
            Some(UnitType::Trees)
        } else if code == 20 {
            Some(UnitType::Flag)
        } else if code == 25 {
            Some(UnitType::Doppelganger)
        } else if code == 30 {
            Some(UnitType::DeadFish)
        } else if code == 40 {
            Some(UnitType::Bird)
        } else if code == 50 {
            Some(UnitType::Combatant)
        } else if code == 60 {
            Some(UnitType::Projectile)
        } else if code == 70 {
            Some(UnitType::Creatable)
        } else if code == 80 {
            Some(UnitType::Building)
        } else if code == 90 {
            Some(UnitType::AoeTrees)
        } else {
            None
        }
    }

    /// The code under which a symbol is stored.
    pub open spec fn code_of(self) -> u8 {
        match self {
            UnitType::EyeCandy => 10,
            UnitType::Trees => 15,
            UnitType::Flag => 20,
            UnitType::Doppelganger => 25,
            UnitType::DeadFish => 30,
            UnitType::Bird => 40,
            UnitType::Combatant => 50,
            UnitType::Projectile => 60,
            UnitType::Creatable => 70,
            UnitType::Building => 80,
            UnitType::AoeTrees => 90,
        }
    }

    /// The symbol that a stored code stands for, if any.
    pub fn from_code(code: u8) -> (result: Option<UnitType>)
        ensures
            result == Self::of_code(code),
    {
        if code == 10 {
            Some(UnitType::EyeCandy)
        } else if code == 15 {
            Some(UnitType::Trees)
        } else if code == 20 {
            Some(UnitType::Flag)
        } else if code == 25 {
            Some(UnitType::Doppelganger)
        } else if code == 30 {
            Some(UnitType::DeadFish)
        } else if code == 40 {
            Some(UnitType::Bird)
        } else if code == 50 {
            Some(UnitType::Combatant)
        } else if code == 60 {
            Some(UnitType::Projectile)
        } else if code == 70 {
            Some(UnitType::Creatable)
        } else if code == 80 {
            Some(UnitType::Building)
        } else if code == 90 {
            Some(UnitType::AoeTrees)
        } else {
            None
        }
    }

    /// The code under which this symbol is stored.
    pub fn code(&self) -> (code: u8)
        ensures
            code == self.code_of(),
    {
        match self {
            UnitType::EyeCandy => 10,
            UnitType::Trees => 15,
            UnitType::Flag => 20,
            UnitType::Doppelganger => 25,
            UnitType::DeadFish => 30,
            UnitType::Bird => 40,
            UnitType::Combatant => 50,
            UnitType::Projectile => 60,
            UnitType::Creatable => 70,
            UnitType::Building => 80,
            UnitType::AoeTrees => 90,
        }
    }

    /// Every symbol is found again from its code, and a code that stands for
    /// a symbol is the code of that symbol.
    pub proof fn lemma_code_round_trip(symbol: UnitType, code: u8)
        ensures
            Self::of_code(symbol.code_of()) == Some(symbol),
            Self::of_code(code) matches Some(found) ==> found.code_of() == code,
    {
    }
}

impl View for UnitType {
    type V = UnitType;

    open spec fn view(&self) -> UnitType {
        *self
    }
}

impl Record for UnitType {
    /// A one-byte code; one that stands for no kind of unit is refused where
    /// it stands.
    open spec fn parse(bytes: Seq<u8>, at: int) -> Parsed<UnitType> {
        if !holds(bytes, at, 1) {
            unreadable(at)
        } else {
            match Self::of_code(bytes[at]) {
                Some(value) => Parsed::Value { value, next: at + 1 },
                None => Parsed::Failure { kind: FaultKind::Discriminant, offset: at },
            }
        }
    }

    fn decode(bytes: &[u8], at: usize) -> (result: Result<(UnitType, usize), Fault>) {
        if !has_bytes(bytes, at, 1) {
            return Err(Fault { kind: FaultKind::Read, offset: at });
        }
        match Self::from_code(u8_at(bytes, at)) {
            Some(value) => Ok((value, at + 1)),
            None => Err(Fault { kind: FaultKind::Discriminant, offset: at }),
        }
    }

    proof fn lemma_parse_within(bytes: Seq<u8>, at: int) {
    }

    proof fn lemma_parse_local(a: Seq<u8>, b: Seq<u8>, at: int, upto: int) {
    }

    proof fn lemma_refusal_stands(short: Seq<u8>, long: Seq<u8>, at: int) {
    }
}

/// An amount of attack or armor against one class.
#[derive(Clone, Copy, Debug, PartialEq, Eq, Structural)]
pub struct ClassAmount {
    pub class: i16,
    pub amount: i16,
}

impl View for ClassAmount {
    type V = ClassAmount;

    open spec fn view(&self) -> ClassAmount {
        *self
    }
}

impl Record for ClassAmount {
    /// The two-byte signed class, then the two-byte signed amount.
    open spec fn parse(bytes: Seq<u8>, at: int) -> Parsed<ClassAmount> {
        if !holds(bytes, at, 4) {
            unreadable(at)
        } else {
            Parsed::Value {
                value: ClassAmount {
                    class: signed_16(le_u16(bytes, at)),
                    amount: signed_16(le_u16(bytes, at + 2)),
                },
                next: at + 4,
            }
        }
    }

    fn decode(bytes: &[u8], at: usize) -> (result: Result<(ClassAmount, usize), Fault>) {
        if !has_bytes(bytes, at, 4) {
            return Err(Fault { kind: FaultKind::Read, offset: at });
        }
        Ok((
            ClassAmount {
                class: i16_at(bytes, at),
                amount: i16_at(bytes, at + 2),
            },
            at + 4,
        ))
    }

    proof fn lemma_parse_within(bytes: Seq<u8>, at: int) {
    }

    proof fn lemma_parse_local(a: Seq<u8>, b: Seq<u8>, at: int, upto: int) {
    }

    proof fn lemma_refusal_stands(short: Seq<u8>, long: Seq<u8>, at: int) {
    }
}

/// The combat statistics of a unit that can be trained.
#[derive(Clone, Debug, PartialEq, Eq)]
pub struct Type50 {
    /// The bit pattern of the reload time, a single-precision number of
    /// seconds.
    pub reload_time: u32,
    pub armor: Vec<ClassAmount>,
    pub attacks: Vec<ClassAmount>,
}

/// What a value of `Type50` stands for.
pub struct Type50Model {
    pub reload_time: u32,
    pub armor: Seq<ClassAmount>,
    pub attacks: Seq<ClassAmount>,
}

impl View for Type50 {
    type V = Type50Model;

    open spec fn view(&self) -> Type50Model {
        Type50Model {
            reload_time: self.reload_time,
            armor: views(self.armor@),
            attacks: views(self.attacks@),
        }
    }
}

impl Record for Type50 {
    /// The four bytes of the reload time, then a two-byte count and that many
    /// armor entries, then a two-byte count and that many attack entries.
    open spec fn parse(bytes: Seq<u8>, at: int) -> Parsed<Type50Model> {
        let armor = parse_list_16::<ClassAmount>(bytes, at + 4);
        let attacks = parse_list_16::<ClassAmount>(bytes, armor->next);
        if !holds(bytes, at, 4) {
            unreadable(at)
        } else if armor is Failure {
            fail(armor)
        } else if attacks is Failure {
            fail(attacks)
        } else {
            Parsed::Value {
                value: Type50Model {
                    reload_time: le_u32(bytes, at),
                    armor: armor->value,
                    attacks: attacks->value,
                },
                next: attacks->next,
            }
        }
    }

    fn decode(bytes: &[u8], at: usize) -> (result: Result<(Type50, usize), Fault>) {
        if !has_bytes(bytes, at, 4) {
            return Err(Fault { kind: FaultKind::Read, offset: at });
        }
        let (armor, after_armor) = read_list_16::<ClassAmount>(bytes, at + 4)?;
        let (attacks, next) = read_list_16::<ClassAmount>(bytes, after_armor)?;
        Ok((
            Type50 {
                reload_time: u32_at(bytes, at),
                armor,
                attacks,
            },
            next,
        ))
    }

    proof fn lemma_parse_within(bytes: Seq<u8>, at: int) {
        if holds(bytes, at, 4) {
            lemma_list_16_within::<ClassAmount>(bytes, at + 4);
            let armor = parse_list_16::<ClassAmount>(bytes, at + 4);
            if armor is Value {
                lemma_list_16_within::<ClassAmount>(bytes, armor->next);
            }
        }
    }

    proof fn lemma_parse_local(a: Seq<u8>, b: Seq<u8>, at: int, upto: int) {
        let whole = Self::parse(a, at);
        if whole is Value && whole->next <= upto {
            let armor = parse_list_16::<ClassAmount>(a, at + 4);
            lemma_list_16_within::<ClassAmount>(a, at + 4);
            lemma_list_16_within::<ClassAmount>(a, armor->next);
            lemma_list_16_local::<ClassAmount>(a, b, at + 4, upto);
            lemma_list_16_local::<ClassAmount>(a, b, armor->next, upto);
        }
    }

    proof fn lemma_refusal_stands(short: Seq<u8>, long: Seq<u8>, at: int) {
        if holds(short, at, 4) {
            let armor = parse_list_16::<ClassAmount>(short, at + 4);
            lemma_list_16_within::<ClassAmount>(short, at + 4);
            lemma_list_16_refusal_stands::<ClassAmount>(short, long, at + 4);
            if armor is Value {
                lemma_list_16_local::<ClassAmount>(short, long, at + 4, short.len() as int);
                lemma_list_16_refusal_stands::<ClassAmount>(short, long, armor->next);
            }
        }
    }
}

/// What training a unit costs.
#[derive(Clone, Debug, PartialEq, Eq)]
pub struct Creatable {
    pub resources_costs: Vec<ResourceUsage>,
}

/// What a value of `Creatable` stands for.
pub struct CreatableModel {
    pub resources_costs: Seq<ResourceUsage>,
}

impl View for Creatable {
    type V = CreatableModel;

    open spec fn view(&self) -> CreatableModel {
        CreatableModel {
            resources_costs: views(self.resources_costs@),
        }
    }
}

impl Record for Creatable {
    /// Three resource usage entries.
    open spec fn parse(bytes: Seq<u8>, at: int) -> Parsed<CreatableModel> {
        let resources_costs = parse_sequence::<ResourceUsage>(bytes, at, 3);
        if resources_costs is Failure {
            fail(resources_costs)
        } else {
            Parsed::Value {
                value: CreatableModel {
                    resources_costs: resources_costs->value,
                },
                next: resources_costs->next,
            }
        }
    }

    fn decode(bytes: &[u8], at: usize) -> (result: Result<(Creatable, usize), Fault>) {
        let (resources_costs, next) = read_sequence::<ResourceUsage>(bytes, at, 3)?;
        Ok((
            Creatable {
                resources_costs,
            },
            next,
        ))
    }

    proof fn lemma_parse_within(bytes: Seq<u8>, at: int) {
        lemma_sequence_within::<ResourceUsage>(bytes, at, 3);
    }

    proof fn lemma_parse_local(a: Seq<u8>, b: Seq<u8>, at: int, upto: int) {
        let whole = Self::parse(a, at);
        if whole is Value && whole->next <= upto {
            lemma_sequence_within::<ResourceUsage>(a, at, 3);
            lemma_sequence_local::<ResourceUsage>(a, b, at, upto, 3);
        }
    }

    proof fn lemma_refusal_stands(short: Seq<u8>, long: Seq<u8>, at: int) {
        lemma_sequence_refusal_stands::<ResourceUsage>(short, long, at, 3);
    }
}

/// What follows the base fields of a unit in the stream: nothing, or the
/// combat statistics and then the costs. There is no third case.
#[derive(Clone, Debug, PartialEq, Eq)]
pub enum UnitPayload {
    /// Nothing follows: the stream goes on with the next unit.
    Base,
    /// Both sub-records follow, in this order.
    Extended { type_50: Type50, creatable: Creatable },
}

/// What a value of `UnitPayload` stands for.
pub enum UnitPayloadModel {
    Base,
    Extended { type_50: Type50Model, creatable: CreatableModel },
}

impl View for UnitPayload {
    type V = UnitPayloadModel;

    open spec fn view(&self) -> UnitPayloadModel {
        match self {
            UnitPayload::Base => UnitPayloadModel::Base,
            UnitPayload::Extended { type_50, creatable } => UnitPayloadModel::Extended {
                type_50: type_50@,
                creatable: creatable@,
            },
        }
    }
}

/// One unit of a civilization.
#[derive(Clone, Debug, PartialEq, Eq)]
pub struct Unit {
    pub unit_type: UnitType,
    pub id: i16,
    pub class: i16,
    pub hit_points: i16,
    /// The bit pattern of the line of sight, a single-precision number.
    pub line_of_sight: u32,
    pub name: String,
    /// What the kind of the unit put behind its base fields.
    pub payload: UnitPayload,
}

/// What a value of `Unit` stands for.
pub struct UnitModel {
    pub unit_type: UnitType,
    pub id: i16,
    pub class: i16,
    pub hit_points: i16,
    pub line_of_sight: u32,
    pub name: Seq<char>,
    pub payload: UnitPayloadModel,
}

impl UnitModel {
    /// A unit carries the two extended sub-records exactly when its kind is
    /// the one that can be trained.
    pub open spec fn well_formed(self) -> bool {
        self.payload is Extended <==> self.unit_type == UnitType::Creatable
    }
}

impl View for Unit {
    type V = UnitModel;

    open spec fn view(&self) -> UnitModel {
        UnitModel {
            unit_type: self.unit_type,
            id: self.id,
            class: self.class,
            hit_points: self.hit_points,
            line_of_sight: self.line_of_sight,
            name: self.name@,
            payload: self.payload@,
        }
    }
}

impl Unit {
    /// The combat statistics, where the unit has them.
    pub fn type_50(&self) -> (result: Option<&Type50>)
        ensures
            result == match self.payload {
                UnitPayload::Base => None,
                UnitPayload::Extended { type_50, .. } => Some(&type_50),
            },
    {
        match &self.payload {
            UnitPayload::Base => None,
            UnitPayload::Extended { type_50, .. } => Some(type_50),
        }
    }

    /// The costs, where the unit has them.
    pub fn creatable(&self) -> (result: Option<&Creatable>)
        ensures
            result == match self.payload {
                UnitPayload::Base => None,
                UnitPayload::Extended { creatable, .. } => Some(&creatable),
            },
    {
        match &self.payload {
            UnitPayload::Base => None,
            UnitPayload::Extended { creatable, .. } => Some(creatable),
        }
    }

    /// Every unit that the stream holds carries its extended sub-records
    /// exactly when its kind asks for them.
    pub proof fn lemma_parsed_well_formed(bytes: Seq<u8>, at: int)
        ensures
            Unit::parse(bytes, at) matches Parsed::Value { value, .. } ==> value.well_formed(),
    {
    }
}

impl Record for Unit {
    /// The one-byte kind; the two-byte signed identifier, class and hit
    /// points and the four bytes of the line of sight, ten bytes in all; the
    /// name; and then, only where the kind is the one that can be trained,
    /// the combat statistics followed by the costs. For every other kind
    /// the stream holds nothing in their place.
    open spec fn parse(bytes: Seq<u8>, at: int) -> Parsed<UnitModel> {
        let unit_type = UnitType::parse(bytes, at);
        let name = parse_name(bytes, at + 11);
        let type_50 = Type50::parse(bytes, name->next);
        let creatable = Creatable::parse(bytes, type_50->next);
        let base = UnitModel {
            unit_type: unit_type->value,
            id: signed_16(le_u16(bytes, at + 1)),
            class: signed_16(le_u16(bytes, at + 3)),
            hit_points: signed_16(le_u16(bytes, at + 5)),
            line_of_sight: le_u32(bytes, at + 7),
            name: name->value,
            payload: UnitPayloadModel::Base,
        };
        if unit_type is Failure {
            fail(unit_type)
        } else if !holds(bytes, at + 1, 10) {
            unreadable(at + 1)
        } else if name is Failure {
            fail(name)
        } else if unit_type->value != UnitType::Creatable {
            Parsed::Value { value: base, next: name->next }
        } else if type_50 is Failure {
            fail(type_50)
        } else if creatable is Failure {
            fail(creatable)
        } else {
            Parsed::Value {
                value: UnitModel {
                    payload: UnitPayloadModel::Extended {
                        type_50: type_50->value,
                        creatable: creatable->value,
                    },
                    ..base
                },
                next: creatable->next,
            }
        }
    }

    fn decode(bytes: &[u8], at: usize) -> (result: Result<(Unit, usize), Fault>) {
        let (unit_type, after_type) = UnitType::decode(bytes, at)?;
        if !has_bytes(bytes, after_type, 10) {
            return Err(Fault { kind: FaultKind::Read, offset: after_type });
        }
        let id = i16_at(bytes, after_type);
        let class = i16_at(bytes, after_type + 2);
        let hit_points = i16_at(bytes, after_type + 4);
        let line_of_sight = u32_at(bytes, after_type + 6);
        let (name, after_name) = read_name(bytes, after_type + 10)?;
        match unit_type {
            UnitType::Creatable => {
                let (type_50, after_type_50) = Type50::decode(bytes, after_name)?;
                let (creatable, next) = Creatable::decode(bytes, after_type_50)?;
                Ok(
                    (
                        Unit {
                            unit_type,
                            id,
                            class,
                            hit_points,
                            line_of_sight,
                            name,
                            payload: UnitPayload::Extended { type_50, creatable },
                        },
                        next,
                    ),
                )
            },
            _ => Ok(
                (
                    Unit {
                        unit_type,
                        id,
                        class,
                        hit_points,
                        line_of_sight,
                        name,
                        payload: UnitPayload::Base,
                    },
                    after_name,
                ),
            ),
        }
    }

    proof fn lemma_parse_within(bytes: Seq<u8>, at: int) {
        if UnitType::parse(bytes, at) is Value && holds(bytes, at + 1, 10) {
            lemma_name_within(bytes, at + 11);
            let name = parse_name(bytes, at + 11);
            if name is Value {
                Type50::lemma_parse_within(bytes, name->next);
                let type_50 = Type50::parse(bytes, name->next);
                if type_50 is Value {
                    Creatable::lemma_parse_within(bytes, type_50->next);
                }
            }
        }
    }

    proof fn lemma_parse_local(a: Seq<u8>, b: Seq<u8>, at: int, upto: int) {
        let whole = Self::parse(a, at);
        if whole is Value && whole->next <= upto {
            let name = parse_name(a, at + 11);
            lemma_name_within(a, at + 11);
            lemma_name_local(a, b, at + 11, upto);
            if UnitType::parse(a, at)->value == UnitType::Creatable {
                let type_50 = Type50::parse(a, name->next);
                Type50::lemma_parse_within(a, name->next);
                Creatable::lemma_parse_within(a, type_50->next);
                Type50::lemma_parse_local(a, b, name->next, upto);
                Creatable::lemma_parse_local(a, b, type_50->next, upto);
            }
        }
    }

    proof fn lemma_refusal_stands(short: Seq<u8>, long: Seq<u8>, at: int) {
        UnitType::lemma_refusal_stands(short, long, at);
        if UnitType::parse(short, at) is Value && holds(short, at + 1, 10) {
            let name = parse_name(short, at + 11);
            lemma_name_within(short, at + 11);
            if name is Value && UnitType::parse(short, at)->value == UnitType::Creatable {
                lemma_name_local(short, long, at + 11, short.len() as int);
                let type_50 = Type50::parse(short, name->next);
                Type50::lemma_parse_within(short, name->next);
                Type50::lemma_refusal_stands(short, long, name->next);
                if type_50 is Value {
                    Type50::lemma_parse_local(short, long, name->next, short.len() as int);
                    Creatable::lemma_refusal_stands(short, long, type_50->next);
                }
            }
        }
    }
}

/// One civilization with the units that it owns.
#[derive(Clone, Debug, PartialEq, Eq)]
pub struct Civilization {
    pub player_type: u8,
    pub tech_tree_id: i16,
    pub team_bonus_id: i16,
    pub icon_set: u8,
    pub name: String,
    /// The bit patterns of the starting resource values, single-precision
    /// numbers.
    pub resources: Vec<u32>,
    pub units: Vec<Unit>,
}

/// What a value of `Civilization` stands for.
pub struct CivilizationModel {
    pub player_type: u8,
    pub tech_tree_id: i16,
    pub team_bonus_id: i16,
    pub icon_set: u8,
    pub name: Seq<char>,
    pub resources: Seq<u32>,
    pub units: Seq<UnitModel>,
}

impl View for Civilization {
    type V = CivilizationModel;

    open spec fn view(&self) -> CivilizationModel {
        CivilizationModel {
            player_type: self.player_type,
            tech_tree_id: self.tech_tree_id,
            team_bonus_id: self.team_bonus_id,
            icon_set: self.icon_set,
            name: self.name@,
            resources: views(self.resources@),
            units: views(self.units@),
        }
    }
}

impl Record for Civilization {
    /// The one-byte player type, the two-byte signed rows of its technology
    /// tree and team bonus effects and the one-byte icon set, six bytes in
    /// all; then the name, a two-byte count and that many four-byte resource
    /// values, and a two-byte count and that many units.
    open spec fn parse(bytes: Seq<u8>, at: int) -> Parsed<CivilizationModel> {
        let name = parse_name(bytes, at + 6);
        let resources = parse_list_16::<u32>(bytes, name->next);
        let units = parse_list_16::<Unit>(bytes, resources->next);
        if !holds(bytes, at, 6) {
            unreadable(at)
        } else if name is Failure {
            fail(name)
        } else if resources is Failure {
            fail(resources)
        } else if units is Failure {
            fail(units)
        } else {
            Parsed::Value {
                value: CivilizationModel {
                    player_type: bytes[at],
                    tech_tree_id: signed_16(le_u16(bytes, at + 1)),
                    team_bonus_id: signed_16(le_u16(bytes, at + 3)),
                    icon_set: bytes[at + 5],
                    name: name->value,
                    resources: resources->value,
                    units: units->value,
                },
                next: units->next,
            }
        }
    }

    fn decode(bytes: &[u8], at: usize) -> (result: Result<(Civilization, usize), Fault>) {
        if !has_bytes(bytes, at, 6) {
            return Err(Fault { kind: FaultKind::Read, offset: at });
        }
        let (name, after_name) = read_name(bytes, at + 6)?;
        let (resources, after_resources) = read_list_16::<u32>(bytes, after_name)?;
        let (units, next) = read_list_16::<Unit>(bytes, after_resources)?;
        Ok((
            Civilization {
                player_type: u8_at(bytes, at),
                tech_tree_id: i16_at(bytes, at + 1),
                team_bonus_id: i16_at(bytes, at + 3),
                icon_set: u8_at(bytes, at + 5),
                name,
                resources,
                units,
            },
            next,
        ))
    }

    proof fn lemma_parse_within(bytes: Seq<u8>, at: int) {
        if holds(bytes, at, 6) {
            lemma_name_within(bytes, at + 6);
            let name = parse_name(bytes, at + 6);
            if name is Value {
                lemma_list_16_within::<u32>(bytes, name->next);
                let resources = parse_list_16::<u32>(bytes, name->next);
                if resources is Value {
                    lemma_list_16_within::<Unit>(bytes, resources->next);
                }
            }
        }
    }

    proof fn lemma_parse_local(a: Seq<u8>, b: Seq<u8>, at: int, upto: int) {
        let whole = Self::parse(a, at);
        if whole is Value && whole->next <= upto {
            let name = parse_name(a, at + 6);
            lemma_name_within(a, at + 6);
            let resources = parse_list_16::<u32>(a, name->next);
            lemma_list_16_within::<u32>(a, name->next);
            lemma_list_16_within::<Unit>(a, resources->next);
            lemma_name_local(a, b, at + 6, upto);
            lemma_list_16_local::<u32>(a, b, name->next, upto);
            lemma_list_16_local::<Unit>(a, b, resources->next, upto);
        }
    }

    proof fn lemma_refusal_stands(short: Seq<u8>, long: Seq<u8>, at: int) {
        if holds(short, at, 6) {
            let name = parse_name(short, at + 6);
            lemma_name_within(short, at + 6);
            if name is Value {
                lemma_name_local(short, long, at + 6, short.len() as int);
                let resources = parse_list_16::<u32>(short, name->next);
                lemma_list_16_within::<u32>(short, name->next);
                lemma_list_16_refusal_stands::<u32>(short, long, name->next);
                if resources is Value {
                    lemma_list_16_local::<u32>(short, long, name->next, short.len() as int);
                    lemma_list_16_refusal_stands::<Unit>(short, long, resources->next);
                }
            }
        }
    }
}

/// The civilizations, in file order.
#[derive(Clone, Debug, PartialEq, Eq)]
pub struct Civilizations {
    pub civilizations: Vec<Civilization>,
}

/// What a value of `Civilizations` stands for.
pub struct CivilizationsModel {
    pub civilizations: Seq<CivilizationModel>,
}

impl View for Civilizations {
    type V = CivilizationsModel;

    open spec fn view(&self) -> CivilizationsModel {
        CivilizationsModel {
            civilizations: views(self.civilizations@),
        }
    }
}

impl Record for Civilizations {
    /// A two-byte count, then that many civilizations.
    open spec fn parse(bytes: Seq<u8>, at: int) -> Parsed<CivilizationsModel> {
        let civilizations = parse_list_16::<Civilization>(bytes, at);
        if civilizations is Failure {
            fail(civilizations)
        } else {
            Parsed::Value {
                value: CivilizationsModel {
                    civilizations: civilizations->value,
                },
                next: civilizations->next,
            }
        }
    }

    fn decode(bytes: &[u8], at: usize) -> (result: Result<(Civilizations, usize), Fault>) {
        let (civilizations, next) = read_list_16::<Civilization>(bytes, at)?;
        Ok((
            Civilizations {
                civilizations,
            },
            next,
        ))
    }

    proof fn lemma_parse_within(bytes: Seq<u8>, at: int) {
        lemma_list_16_within::<Civilization>(bytes, at);
    }

    proof fn lemma_parse_local(a: Seq<u8>, b: Seq<u8>, at: int, upto: int) {
        let whole = Self::parse(a, at);
        if whole is Value && whole->next <= upto {
            lemma_list_16_within::<Civilization>(a, at);
            lemma_list_16_local::<Civilization>(a, b, at, upto);
        }
    }

    proof fn lemma_refusal_stands(short: Seq<u8>, long: Seq<u8>, at: int) {
        lemma_list_16_refusal_stands::<Civilization>(short, long, at);
    }
}

impl CivilizationModel {
    /// Every unit of the civilization carries its extended sub-records
    /// exactly when its kind asks for them.
    pub open spec fn well_formed(self) -> bool {
        forall|u: int| 0 <= u < self.units.len() ==> (#[trigger] self.units[u]).well_formed()
    }
}

impl CivilizationsModel {
    /// Every civilization of the table is well formed.
    pub open spec fn well_formed(self) -> bool {
        forall|c: int|
            0 <= c < self.civilizations.len() ==> (#[trigger] self.civilizations[c]).well_formed()
    }
}

impl Civilization {
    /// Whatever civilization the stream holds, each of its units has both
    /// extended sub-records or neither, as its kind says.
    pub proof fn lemma_parsed_well_formed(bytes: Seq<u8>, at: int)
        ensures
            Civilization::parse(bytes, at) matches Parsed::Value { value, .. }
                ==> value.well_formed(),
    {
        if let Parsed::Value { value, .. } = Civilization::parse(bytes, at) {
            let name = parse_name(bytes, at + 6);
            let resources = parse_list_16::<u32>(bytes, name->next);
            let start = resources->next;
            let count = le_u16(bytes, start) as nat;
            lemma_sequence_length::<Unit>(bytes, start + 2, count);
            assert forall|u: int| 0 <= u < value.units.len() implies (
            #[trigger] value.units[u]).well_formed() by {
                let place = lemma_sequence_each::<Unit>(bytes, start + 2, count, u);
                Unit::lemma_parsed_well_formed(bytes, place);
            }
        }
    }
}

impl Civilizations {
    /// Whatever table of civilizations the stream holds, each unit of each
    /// civilization has both extended sub-records or neither, as its kind
    /// says.
    pub proof fn lemma_parsed_well_formed(bytes: Seq<u8>, at: int)
        ensures
            Civilizations::parse(bytes, at) matches Parsed::Value { value, .. }
                ==> value.well_formed(),
    {
        if let Parsed::Value { value, .. } = Civilizations::parse(bytes, at) {
            let count = le_u16(bytes, at) as nat;
            lemma_sequence_length::<Civilization>(bytes, at + 2, count);
            assert forall|c: int| 0 <= c < value.civilizations.len() implies (
            #[trigger] value.civilizations[c]).well_formed() by {
                let place = lemma_sequence_each::<Civilization>(bytes, at + 2, count, c);
                Civilization::lemma_parsed_well_formed(bytes, place);
            }
        }
    }
}

} // verus!
