//! The technology tree.
use crate::dat::wire::{
    fail, has_bytes, holds, i32_at, le_u32, lemma_list_16_local, lemma_list_16_refusal_stands,
    lemma_list_16_within, lemma_list_8_local, lemma_list_8_refusal_stands, lemma_list_8_within,
    parse_list_16, parse_list_8, read_list_16, read_list_8, signed_32, u8_at, unreadable, views,
    Fault, FaultKind, Parsed, Record,
};
use vstd::prelude::*;

verus! {

/// One age of the technology tree: what becomes available in it.
#[derive(Clone, Debug, PartialEq, Eq)]
pub struct TechTreeAge {
    pub id: i32,
    pub status: u8,
    pub buildings: Vec<i32>,
    pub units: Vec<i32>,
    pub techs: Vec<i32>,
}

/// What a value of `TechTreeAge` stands for.
pub struct TechTreeAgeModel {
    pub id: i32,
    pub status: u8,
    pub buildings: Seq<i32>,
    pub units: Seq<i32>,
    pub techs: Seq<i32>,
}

impl View for TechTreeAge {
    type V = TechTreeAgeModel;

    open spec fn view(&self) -> TechTreeAgeModel {
        TechTreeAgeModel {
            id: self.id,
            status: self.status,
            buildings: views(self.buildings@),
            units: views(self.units@),
            techs: views(self.techs@),
        }
    }
}

impl Record for TechTreeAge {
    /// The four-byte signed identifier and the one-byte status, then three
    /// lists of four-byte signed identifiers, each behind a one-byte count:
    /// buildings, units, technologies.
    open spec fn parse(bytes: Seq<u8>, at: int) -> Parsed<TechTreeAgeModel> {
        let buildings = parse_list_8::<i32>(bytes, at + 5);
        let units = parse_list_8::<i32>(bytes, buildings->next);
        let techs = parse_list_8::<i32>(bytes, units->next);
        if !holds(bytes, at, 5) {
            unreadable(at)
        } else if buildings is Failure {
            fail(buildings)
        } else if units is Failure {
            fail(units)
        } else if techs is Failure {
            fail(techs)
        } else {
            Parsed::Value {
                value: TechTreeAgeModel {
                    id: signed_32(le_u32(bytes, at)),
                    status: bytes[at + 4],
                    buildings: buildings->value,
                    units: units->value,
                    techs: techs->value,
                },
                next: techs->next,
            }
        }
    }

    fn decode(bytes: &[u8], at: usize) -> (result: Result<(TechTreeAge, usize), Fault>) {
        if !has_bytes(bytes, at, 5) {
            return Err(Fault { kind: FaultKind::Read, offset: at });
        }
        let (buildings, after_buildings) = read_list_8::<i32>(bytes, at + 5)?;
        let (units, after_units) = read_list_8::<i32>(bytes, after_buildings)?;
        let (techs, next) = read_list_8::<i32>(bytes, after_units)?;
        Ok((
            TechTreeAge {
                id: i32_at(bytes, at),
                status: u8_at(bytes, at + 4),
                buildings,
                units,
                techs,
            },
            next,
        ))
    }

    proof fn lemma_parse_within(bytes: Seq<u8>, at: int) {
        if holds(bytes, at, 5) {
            lemma_list_8_within::<i32>(bytes, at + 5);
            let buildings = parse_list_8::<i32>(bytes, at + 5);
            if buildings is Value {
                lemma_list_8_within::<i32>(bytes, buildings->next);
                let units = parse_list_8::<i32>(bytes, buildings->next);
                if units is Value {
                    lemma_list_8_within::<i32>(bytes, units->next);
                }
            }
        }
    }

    proof fn lemma_parse_local(a: Seq<u8>, b: Seq<u8>, at: int, upto: int) {
        let whole = Self::parse(a, at);
        if whole is Value && whole->next <= upto {
            let buildings = parse_list_8::<i32>(a, at + 5);
            lemma_list_8_within::<i32>(a, at + 5);
            let units = parse_list_8::<i32>(a, buildings->next);
            lemma_list_8_within::<i32>(a, buildings->next);
            lemma_list_8_within::<i32>(a, units->next);
            lemma_list_8_local::<i32>(a, b, at + 5, upto);
            lemma_list_8_local::<i32>(a, b, buildings->next, upto);
            lemma_list_8_local::<i32>(a, b, units->next, upto);
        }
    }

    proof fn lemma_refusal_stands(short: Seq<u8>, long: Seq<u8>, at: int) {
        if holds(short, at, 5) {
            let buildings = parse_list_8::<i32>(short, at + 5);
            lemma_list_8_within::<i32>(short, at + 5);
            lemma_list_8_refusal_stands::<i32>(short, long, at + 5);
            if buildings is Value {
                lemma_list_8_local::<i32>(short, long, at + 5, short.len() as int);
                let units = parse_list_8::<i32>(short, buildings->next);
                lemma_list_8_within::<i32>(short, buildings->next);
                lemma_list_8_refusal_stands::<i32>(short, long, buildings->next);
                if units is Value {
                    lemma_list_8_local::<i32>(short, long, buildings->next, short.len() as int);
                    lemma_list_8_refusal_stands::<i32>(short, long, units->next);
                }
            }
        }
    }
}

/// The place of one technology in the tree, and the technologies it depends
/// on.
#[derive(Clone, Debug, PartialEq, Eq)]
pub struct ResearchConnection {
    pub id: i32,
    pub status: u8,
    pub upper_building: i32,
    pub vertical_line: i32,
    pub location_in_age: i32,
    pub required_techs: Vec<i32>,
}

/// What a value of `ResearchConnection` stands for.
pub struct ResearchConnectionModel {
    pub id: i32,
    pub status: u8,
    pub upper_building: i32,
    pub vertical_line: i32,
    pub location_in_age: i32,
    pub required_techs: Seq<i32>,
}

impl View for ResearchConnection {
    type V = ResearchConnectionModel;

    open spec fn view(&self) -> ResearchConnectionModel {
        ResearchConnectionModel {
            id: self.id,
            status: self.status,
            upper_building: self.upper_building,
            vertical_line: self.vertical_line,
            location_in_age: self.location_in_age,
            required_techs: views(self.required_techs@),
        }
    }
}

impl Record for ResearchConnection {
    /// The four-byte signed identifier, the one-byte status and three four-
    /// byte signed values, seventeen bytes in all; then a one-byte count and
    /// that many four-byte signed identifiers of required technologies.
    open spec fn parse(bytes: Seq<u8>, at: int) -> Parsed<ResearchConnectionModel> {
        let required_techs = parse_list_8::<i32>(bytes, at + 17);
        if !holds(bytes, at, 17) {
            unreadable(at)
        } else if required_techs is Failure {
            fail(required_techs)
        } else {
            Parsed::Value {
                value: ResearchConnectionModel {
                    id: signed_32(le_u32(bytes, at)),
                    status: bytes[at + 4],
                    upper_building: signed_32(le_u32(bytes, at + 5)),
                    vertical_line: signed_32(le_u32(bytes, at + 9)),
                    location_in_age: signed_32(le_u32(bytes, at + 13)),
                    required_techs: required_techs->value,
                },
                next: required_techs->next,
            }
        }
    }

    fn decode(bytes: &[u8], at: usize) -> (result: Result<(ResearchConnection, usize), Fault>) {
        if !has_bytes(bytes, at, 17) {
            return Err(Fault { kind: FaultKind::Read, offset: at });
        }
        let (required_techs, next) = read_list_8::<i32>(bytes, at + 17)?;
        Ok((
            ResearchConnection {
                id: i32_at(bytes, at),
                status: u8_at(bytes, at + 4),
                upper_building: i32_at(bytes, at + 5),
                vertical_line: i32_at(bytes, at + 9),
                location_in_age: i32_at(bytes, at + 13),
                required_techs,
            },
            next,
        ))
    }

    proof fn lemma_parse_within(bytes: Seq<u8>, at: int) {
        if holds(bytes, at, 17) {
            lemma_list_8_within::<i32>(bytes, at + 17);
        }
    }

    proof fn lemma_parse_local(a: Seq<u8>, b: Seq<u8>, at: int, upto: int) {
        let whole = Self::parse(a, at);
        if whole is Value && whole->next <= upto {
            lemma_list_8_within::<i32>(a, at + 17);
            lemma_list_8_local::<i32>(a, b, at + 17, upto);
        }
    }

    proof fn lemma_refusal_stands(short: Seq<u8>, long: Seq<u8>, at: int) {
        if holds(short, at, 17) {
            lemma_list_8_refusal_stands::<i32>(short, long, at + 17);
        }
    }
}

/// The technology tree: the ages, and how the technologies depend on one
/// another.
#[derive(Clone, Debug, PartialEq, Eq)]
pub struct TechTree {
    pub ages: Vec<TechTreeAge>,
    pub research_connections: Vec<ResearchConnection>,
}

/// What a value of `TechTree` stands for.
pub struct TechTreeModel {
    pub ages: Seq<TechTreeAgeModel>,
    pub research_connections: Seq<ResearchConnectionModel>,
}

impl View for TechTree {
    type V = TechTreeModel;

    open spec fn view(&self) -> TechTreeModel {
        TechTreeModel {
            ages: views(self.ages@),
            research_connections: views(self.research_connections@),
        }
    }
}

impl Record for TechTree {
    /// A one-byte count and that many ages, then a two-byte count and that
    /// many research connections.
    open spec fn parse(bytes: Seq<u8>, at: int) -> Parsed<TechTreeModel> {
        let ages = parse_list_8::<TechTreeAge>(bytes, at);
        let research_connections = parse_list_16::<ResearchConnection>(bytes, ages->next);
        if ages is Failure {
            fail(ages)
        } else if research_connections is Failure {
            fail(research_connections)
        } else {
            Parsed::Value {
                value: TechTreeModel {
                    ages: ages->value,
                    research_connections: research_connections->value,
                },
                next: research_connections->next,
            }
        }
    }

    fn decode(bytes: &[u8], at: usize) -> (result: Result<(TechTree, usize), Fault>) {
        let (ages, after_ages) = read_list_8::<TechTreeAge>(bytes, at)?;
        let (research_connections, next) = read_list_16::<ResearchConnection>(bytes, after_ages)?;
        Ok((
            TechTree {
                ages,
                research_connections,
            },
            next,
        ))
    }

    proof fn lemma_parse_within(bytes: Seq<u8>, at: int) {
        lemma_list_8_within::<TechTreeAge>(bytes, at);
        let ages = parse_list_8::<TechTreeAge>(bytes, at);
        if ages is Value {
            lemma_list_16_within::<ResearchConnection>(bytes, ages->next);
        }
    }

    proof fn lemma_parse_local(a: Seq<u8>, b: Seq<u8>, at: int, upto: int) {
        let whole = Self::parse(a, at);
        if whole is Value && whole->next <= upto {
            let ages = parse_list_8::<TechTreeAge>(a, at);
            lemma_list_8_within::<TechTreeAge>(a, at);
            lemma_list_16_within::<ResearchConnection>(a, ages->next);
            lemma_list_8_local::<TechTreeAge>(a, b, at, upto);
            lemma_list_16_local::<ResearchConnection>(a, b, ages->next, upto);
        }
    }

    proof fn lemma_refusal_stands(short: Seq<u8>, long: Seq<u8>, at: int) {
        let ages = parse_list_8::<TechTreeAge>(short, at);
        lemma_list_8_within::<TechTreeAge>(short, at);
        lemma_list_8_refusal_stands::<TechTreeAge>(short, long, at);
        if ages is Value {
            lemma_list_8_local::<TechTreeAge>(short, long, at, short.len() as int);
            lemma_list_16_refusal_stands::<ResearchConnection>(short, long, ages->next);
        }
    }
}

} // verus!
