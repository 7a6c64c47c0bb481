//! The terrain header and the matrix of terrain restrictions whose size it
//! gives.
use crate::dat::wire::{
    agrees, fail, has_bytes, holds, i32_at, is_prefix, le_u16, le_u32, lemma_sequence_length,
    lemma_sequence_local, lemma_sequence_refusal_stands, lemma_sequence_within, parse_sequence,
    read_sequence, same_bytes, signed_32, u16_at, u32_at, unreadable, views, Fault, FaultKind,
    Parsed, Record,
};
use vstd::prelude::*;

verus! {

/// How a unit is drawn while it passes over one terrain.
#[derive(Clone, Copy, Debug, PartialEq, Eq, Structural)]
pub struct TerrainPassGraphic {
    pub exit_tile_sprite_id: i32,
    pub enter_tile_sprite_id: i32,
    pub walk_tile_sprite_id: i32,
    /// The bit pattern of the rate, a single-precision number.
    pub walk_sprite_rate: u32,
}

impl View for TerrainPassGraphic {
    type V = TerrainPassGraphic;

    open spec fn view(&self) -> TerrainPassGraphic {
        *self
    }
}

impl Record for TerrainPassGraphic {
    /// Three four-byte signed sprite numbers, then the four bytes of the walk
    /// sprite rate: sixteen bytes in all.
    open spec fn parse(bytes: Seq<u8>, at: int) -> Parsed<TerrainPassGraphic> {
        if !holds(bytes, at, 16) {
            unreadable(at)
        } else {
            Parsed::Value {
                value: TerrainPassGraphic {
                    exit_tile_sprite_id: signed_32(le_u32(bytes, at)),
                    enter_tile_sprite_id: signed_32(le_u32(bytes, at + 4)),
                    walk_tile_sprite_id: signed_32(le_u32(bytes, at + 8)),
                    walk_sprite_rate: le_u32(bytes, at + 12),
                },
                next: at + 16,
            }
        }
    }

    fn decode(bytes: &[u8], at: usize) -> (result: Result<(TerrainPassGraphic, usize), Fault>) {
        if !has_bytes(bytes, at, 16) {
            return Err(Fault { kind: FaultKind::Read, offset: at });
        }
        Ok((
            TerrainPassGraphic {
                exit_tile_sprite_id: i32_at(bytes, at),
                enter_tile_sprite_id: i32_at(bytes, at + 4),
                walk_tile_sprite_id: i32_at(bytes, at + 8),
                walk_sprite_rate: u32_at(bytes, at + 12),
            },
            at + 16,
        ))
    }

    proof fn lemma_parse_within(bytes: Seq<u8>, at: int) {
    }

    proof fn lemma_parse_local(a: Seq<u8>, b: Seq<u8>, at: int, upto: int) {
    }

    proof fn lemma_refusal_stands(short: Seq<u8>, long: Seq<u8>, at: int) {
    }
}

/// The sizes of the restriction matrix, and two runs of pointers that the
/// file keeps beside them: one pointer per row in each.
#[derive(Clone, Debug, PartialEq, Eq)]
pub struct TerrainHeader {
    /// The number of rows of the restriction matrix.
    pub terrain_restriction_size: u16,
    /// The number of columns of the restriction matrix.
    pub restriction_size: u16,
    pub terrain_tables_pointer: Vec<u32>,
    pub terrains_pointer: Vec<u32>,
}

/// What a value of `TerrainHeader` stands for.
pub struct TerrainHeaderModel {
    pub terrain_restriction_size: u16,
    pub restriction_size: u16,
    pub terrain_tables_pointer: Seq<u32>,
    pub terrains_pointer: Seq<u32>,
}

impl View for TerrainHeader {
    type V = TerrainHeaderModel;

    open spec fn view(&self) -> TerrainHeaderModel {
        TerrainHeaderModel {
            terrain_restriction_size: self.terrain_restriction_size,
            restriction_size: self.restriction_size,
            terrain_tables_pointer: views(self.terrain_tables_pointer@),
            terrains_pointer: views(self.terrains_pointer@),
        }
    }
}

impl Record for TerrainHeader {
    /// The two-byte row count and the two-byte column count, then two runs
    /// of four-byte pointers, each with one pointer per row.
    open spec fn parse(bytes: Seq<u8>, at: int) -> Parsed<TerrainHeaderModel> {
        let rows = le_u16(bytes, at);
        let tables = parse_sequence::<u32>(bytes, at + 4, rows as nat);
        let terrains = parse_sequence::<u32>(bytes, tables->next, rows as nat);
        if !holds(bytes, at, 4) {
            unreadable(at)
        } else if tables is Failure {
            fail(tables)
        } else if terrains is Failure {
            fail(terrains)
        } else {
            Parsed::Value {
                value: TerrainHeaderModel {
                    terrain_restriction_size: rows,
                    restriction_size: le_u16(bytes, at + 2),
                    terrain_tables_pointer: tables->value,
                    terrains_pointer: terrains->value,
                },
                next: terrains->next,
            }
        }
    }

    fn decode(bytes: &[u8], at: usize) -> (result: Result<(TerrainHeader, usize), Fault>) {
        if !has_bytes(bytes, at, 4) {
            return Err(Fault { kind: FaultKind::Read, offset: at });
        }
        let terrain_restriction_size = u16_at(bytes, at);
        let restriction_size = u16_at(bytes, at + 2);
        let rows = terrain_restriction_size as usize;
        let (terrain_tables_pointer, after_tables) = read_sequence::<u32>(bytes, at + 4, rows)?;
        let (terrains_pointer, next) = read_sequence::<u32>(bytes, after_tables, rows)?;
        Ok(
            (
                TerrainHeader {
                    terrain_restriction_size,
                    restriction_size,
                    terrain_tables_pointer,
                    terrains_pointer,
                },
                next,
            ),
        )
    }

    proof fn lemma_parse_within(bytes: Seq<u8>, at: int) {
        if holds(bytes, at, 4) {
            let rows = le_u16(bytes, at) as nat;
            lemma_sequence_within::<u32>(bytes, at + 4, rows);
            let tables = parse_sequence::<u32>(bytes, at + 4, rows);
            if tables is Value {
                lemma_sequence_within::<u32>(bytes, tables->next, rows);
            }
        }
    }

    proof fn lemma_parse_local(a: Seq<u8>, b: Seq<u8>, at: int, upto: int) {
        let whole = Self::parse(a, at);
        if whole is Value && whole->next <= upto {
            let rows = le_u16(a, at) as nat;
            let tables = parse_sequence::<u32>(a, at + 4, rows);
            lemma_sequence_within::<u32>(a, at + 4, rows);
            lemma_sequence_within::<u32>(a, tables->next, rows);
            lemma_sequence_local::<u32>(a, b, at + 4, upto, rows);
            lemma_sequence_local::<u32>(a, b, tables->next, upto, rows);
        }
    }

    proof fn lemma_refusal_stands(short: Seq<u8>, long: Seq<u8>, at: int) {
        if holds(short, at, 4) {
            let rows = le_u16(short, at) as nat;
            let tables = parse_sequence::<u32>(short, at + 4, rows);
            lemma_sequence_within::<u32>(short, at + 4, rows);
            lemma_sequence_refusal_stands::<u32>(short, long, at + 4, rows);
            if tables is Value {
                lemma_sequence_local::<u32>(short, long, at + 4, short.len() as int, rows);
                lemma_sequence_refusal_stands::<u32>(short, long, tables->next, rows);
            }
        }
    }
}

impl TerrainHeader {
    /// A header that the stream holds has one pointer per row in each of
    /// its two runs.
    pub proof fn lemma_parsed_pointer_counts(bytes: Seq<u8>, at: int)
        ensures
            TerrainHeader::parse(bytes, at) matches Parsed::Value { value, .. } ==> {
                &&& value.terrain_tables_pointer.len() == value.terrain_restriction_size
                &&& value.terrains_pointer.len() == value.terrain_restriction_size
            },
    {
        let rows = le_u16(bytes, at) as nat;
        let tables = parse_sequence::<u32>(bytes, at + 4, rows);
        lemma_sequence_length::<u32>(bytes, at + 4, rows);
        lemma_sequence_length::<u32>(bytes, tables->next, rows);
    }
}

/// One row of the restriction matrix: for each terrain, how passable it is
/// and how passing over it is drawn.
#[derive(Clone, Debug, PartialEq, Eq)]
pub struct TerrainRestriction {
    /// The bit patterns of the passability values, single-precision
    /// numbers, one per column.
    pub passability: Vec<u32>,
    /// One entry per column.
    pub pass_graphics: Vec<TerrainPassGraphic>,
}

/// What a value of `TerrainRestriction` stands for.
pub struct TerrainRestrictionModel {
    pub passability: Seq<u32>,
    pub pass_graphics: Seq<TerrainPassGraphic>,
}

impl View for TerrainRestriction {
    type V = TerrainRestrictionModel;

    open spec fn view(&self) -> TerrainRestrictionModel {
        TerrainRestrictionModel {
            passability: views(self.passability@),
            pass_graphics: views(self.pass_graphics@),
        }
    }
}

/// The restriction matrix, row by row.
#[derive(Clone, Debug, PartialEq, Eq)]
pub struct TerrainRestrictions {
    pub inner: Vec<TerrainRestriction>,
}

/// What a value of `TerrainRestrictions` stands for.
pub struct TerrainRestrictionsModel {
    pub inner: Seq<TerrainRestrictionModel>,
}

impl View for TerrainRestrictions {
    type V = TerrainRestrictionsModel;

    open spec fn view(&self) -> TerrainRestrictionsModel {
        TerrainRestrictionsModel { inner: views(self.inner@) }
    }
}

impl TerrainRestrictionsModel {
    /// Whether the matrix has `rows` rows of `columns` columns each.
    pub open spec fn has_shape(self, rows: nat, columns: nat) -> bool {
        &&& self.inner.len() == rows
        &&& forall|r: int|
            0 <= r < self.inner.len() ==> (#[trigger] self.inner[r]).passability.len() == columns
                && self.inner[r].pass_graphics.len() == columns
    }
}

/// What one row of `columns` columns stands for: the passability values of
/// the whole row first, then its pass graphics.
pub open spec fn parse_restriction(bytes: Seq<u8>, at: int, columns: nat) -> Parsed<
    TerrainRestrictionModel,
> {
    let passability = parse_sequence::<u32>(bytes, at, columns);
    let pass_graphics = parse_sequence::<TerrainPassGraphic>(bytes, passability->next, columns);
    if passability is Failure {
        fail(passability)
    } else if pass_graphics is Failure {
        fail(pass_graphics)
    } else {
        Parsed::Value {
            value: TerrainRestrictionModel {
                passability: passability->value,
                pass_graphics: pass_graphics->value,
            },
            next: pass_graphics->next,
        }
    }
}

/// What `rows` rows of `columns` columns stand for: the rows before the
/// last, then the last where they end.
pub open spec fn parse_restrictions(bytes: Seq<u8>, at: int, rows: nat, columns: nat) -> Parsed<
    TerrainRestrictionsModel,
>
    decreases rows,
{
    if rows == 0 {
        Parsed::Value { value: TerrainRestrictionsModel { inner: Seq::empty() }, next: at }
    } else {
        let before = parse_restrictions(bytes, at, (rows - 1) as nat, columns);
        let last = parse_restriction(bytes, before->next, columns);
        if before is Failure {
            before
        } else if last is Failure {
            fail(last)
        } else {
            Parsed::Value {
                value: TerrainRestrictionsModel { inner: before->value.inner.push(last->value) },
                next: last->next,
            }
        }
    }
}

impl TerrainRestriction {
    /// Reads one row of `columns` columns at `at`.
    pub fn read(bytes: &[u8], at: usize, columns: usize) -> (result: Result<
        (TerrainRestriction, usize),
        Fault,
    >)
        ensures
            agrees(result, parse_restriction(bytes@, at as int, columns as nat)),
    {
        let (passability, after_passability) = read_sequence::<u32>(bytes, at, columns)?;
        let (pass_graphics, next) = read_sequence::<TerrainPassGraphic>(
            bytes,
            after_passability,
            columns,
        )?;
        Ok((TerrainRestriction { passability, pass_graphics }, next))
    }
}

impl TerrainRestrictions {
    /// Reads the matrix of `rows` rows and `columns` columns at `at`. The
    /// two sizes come from the terrain header, which stands before the
    /// matrix in the file.
    pub fn read(bytes: &[u8], at: usize, rows: usize, columns: usize) -> (result: Result<
        (TerrainRestrictions, usize),
        Fault,
    >)
        ensures
            agrees(result, parse_restrictions(bytes@, at as int, rows as nat, columns as nat)),
            result matches Ok((matrix, _)) ==> matrix@.has_shape(rows as nat, columns as nat),
    {
        let mut inner: Vec<TerrainRestriction> = Vec::new();
        let mut position: usize = at;
        let mut done: usize = 0;
        proof {
            assert(views(inner@) =~= Seq::<TerrainRestrictionModel>::empty());
        }
        while done < rows
            invariant
                done <= rows,
                parse_restrictions(bytes@, at as int, done as nat, columns as nat) == (
                Parsed::Value {
                    value: TerrainRestrictionsModel { inner: views(inner@) },
                    next: position as int,
                }),
            decreases rows - done,
        {
            match TerrainRestriction::read(bytes, position, columns) {
                Err(fault) => {
                    proof {
                        lemma_restrictions_fail_on(
                            bytes@,
                            at as int,
                            (done + 1) as nat,
                            rows as nat,
                            columns as nat,
                        );
                    }
                    return Err(fault);
                },
                Ok((row, next)) => {
                    proof {
                        assert(views(inner@.push(row)) =~= views(inner@).push(row@));
                    }
                    inner.push(row);
                    position = next;
                    done = done + 1;
                },
            }
        }
        proof {
            lemma_restrictions_shape(bytes@, at as int, rows as nat, columns as nat);
        }
        Ok((TerrainRestrictions { inner }, position))
    }
}

/// Once a shorter run of rows fails, every longer run fails in the same
/// way.
pub proof fn lemma_restrictions_fail_on(
    bytes: Seq<u8>,
    at: int,
    failing: nat,
    rows: nat,
    columns: nat,
)
    requires
        failing <= rows,
        parse_restrictions(bytes, at, failing, columns) is Failure,
    ensures
        parse_restrictions(bytes, at, rows, columns) == parse_restrictions(
            bytes,
            at,
            failing,
            columns,
        ),
    decreases rows,
{
    if failing < rows {
        lemma_restrictions_fail_on(bytes, at, failing, (rows - 1) as nat, columns);
    }
}

/// A row that was read lies inside the buffer and has `columns` entries of
/// each kind, and its failure is reported inside the buffer.
pub proof fn lemma_restriction_within(bytes: Seq<u8>, at: int, columns: nat)
    requires
        0 <= at <= bytes.len(),
    ensures
        parse_restriction(bytes, at, columns) matches Parsed::Value { value, next } ==> {
            &&& at <= next <= bytes.len()
            &&& value.passability.len() == columns
            &&& value.pass_graphics.len() == columns
        },
        parse_restriction(bytes, at, columns) matches Parsed::Failure { offset, .. } ==> at
            <= offset <= bytes.len(),
{
    lemma_sequence_within::<u32>(bytes, at, columns);
    lemma_sequence_length::<u32>(bytes, at, columns);
    let passability = parse_sequence::<u32>(bytes, at, columns);
    if passability is Value {
        lemma_sequence_within::<TerrainPassGraphic>(bytes, passability->next, columns);
        lemma_sequence_length::<TerrainPassGraphic>(bytes, passability->next, columns);
    }
}

/// A matrix that was read lies inside the buffer, and its failure is
/// reported inside it.
pub proof fn lemma_restrictions_within(bytes: Seq<u8>, at: int, rows: nat, columns: nat)
    requires
        0 <= at <= bytes.len(),
    ensures
        parse_restrictions(bytes, at, rows, columns) matches Parsed::Value { next, .. } ==> at
            <= next <= bytes.len(),
        parse_restrictions(bytes, at, rows, columns) matches Parsed::Failure { offset, .. } ==> at
            <= offset <= bytes.len(),
    decreases rows,
{
    if rows > 0 {
        lemma_restrictions_within(bytes, at, (rows - 1) as nat, columns);
        let before = parse_restrictions(bytes, at, (rows - 1) as nat, columns);
        if before is Value {
            lemma_restriction_within(bytes, before->next, columns);
        }
    }
}

/// The matrix that the stream holds for `rows` rows and `columns` columns
/// has that many rows, and every row has that many columns.
pub proof fn lemma_restrictions_shape(bytes: Seq<u8>, at: int, rows: nat, columns: nat)
    ensures
        parse_restrictions(bytes, at, rows, columns) matches Parsed::Value { value, .. }
            ==> value.has_shape(rows, columns),
    decreases rows,
{
    if rows > 0 {
        lemma_restrictions_shape(bytes, at, (rows - 1) as nat, columns);
        let before = parse_restrictions(bytes, at, (rows - 1) as nat, columns);
        let passability = parse_sequence::<u32>(bytes, before->next, columns);
        lemma_sequence_length::<u32>(bytes, before->next, columns);
        lemma_sequence_length::<TerrainPassGraphic>(bytes, passability->next, columns);
    }
}

/// A row depends on the bytes that it spans and on nothing else.
pub proof fn lemma_restriction_local(a: Seq<u8>, b: Seq<u8>, at: int, upto: int, columns: nat)
    requires
        0 <= at <= a.len(),
        same_bytes(a, b, at, upto),
    ensures
        parse_restriction(a, at, columns) matches Parsed::Value { next, .. } && next <= upto
            ==> parse_restriction(b, at, columns) == parse_restriction(a, at, columns),
{
    let passability = parse_sequence::<u32>(a, at, columns);
    lemma_sequence_within::<u32>(a, at, columns);
    if passability is Value {
        lemma_sequence_within::<TerrainPassGraphic>(a, passability->next, columns);
        lemma_sequence_local::<u32>(a, b, at, upto, columns);
        lemma_sequence_local::<TerrainPassGraphic>(a, b, passability->next, upto, columns);
    }
}

/// The refusal of an unknown code in a row stands whatever follows the
/// beginning of the buffer in which it was found.
pub proof fn lemma_restriction_refusal_stands(
    short: Seq<u8>,
    long: Seq<u8>,
    at: int,
    columns: nat,
)
    requires
        is_prefix(short, long),
        0 <= at <= short.len(),
    ensures
        parse_restriction(short, at, columns).is_refusal() ==> parse_restriction(long, at, columns)
            == parse_restriction(short, at, columns),
{
    let passability = parse_sequence::<u32>(short, at, columns);
    lemma_sequence_within::<u32>(short, at, columns);
    lemma_sequence_refusal_stands::<u32>(short, long, at, columns);
    if passability is Value {
        lemma_sequence_local::<u32>(short, long, at, short.len() as int, columns);
        lemma_sequence_refusal_stands::<TerrainPassGraphic>(
            short,
            long,
            passability->next,
            columns,
        );
    }
}

/// A matrix depends on the bytes that it spans and on nothing else.
pub proof fn lemma_restrictions_local(
    a: Seq<u8>,
    b: Seq<u8>,
    at: int,
    upto: int,
    rows: nat,
    columns: nat,
)
    requires
        0 <= at <= a.len(),
        same_bytes(a, b, at, upto),
    ensures
        parse_restrictions(a, at, rows, columns) matches Parsed::Value { next, .. } && next
            <= upto ==> parse_restrictions(b, at, rows, columns) == parse_restrictions(
            a,
            at,
            rows,
            columns,
        ),
    decreases rows,
{
    if rows > 0 {
        let before = parse_restrictions(a, at, (rows - 1) as nat, columns);
        if before is Value {
            lemma_restrictions_within(a, at, (rows - 1) as nat, columns);
            lemma_restriction_within(a, before->next, columns);
            lemma_restrictions_local(a, b, at, upto, (rows - 1) as nat, columns);
            lemma_restriction_local(a, b, before->next, upto, columns);
        }
    }
}

/// The refusal of an unknown code in a matrix stands whatever follows the
/// beginning of the buffer in which it was found.
pub proof fn lemma_restrictions_refusal_stands(
    short: Seq<u8>,
    long: Seq<u8>,
    at: int,
    rows: nat,
    columns: nat,
)
    requires
        is_prefix(short, long),
        0 <= at <= short.len(),
    ensures
        parse_restrictions(short, at, rows, columns).is_refusal() ==> parse_restrictions(
            long,
            at,
            rows,
            columns,
        ) == parse_restrictions(short, at, rows, columns),
    decreases rows,
{
    if rows > 0 {
        let before = parse_restrictions(short, at, (rows - 1) as nat, columns);
        lemma_restrictions_refusal_stands(short, long, at, (rows - 1) as nat, columns);
        if before is Value {
            lemma_restrictions_within(short, at, (rows - 1) as nat, columns);
            lemma_restrictions_local(
                short,
                long,
                at,
                short.len() as int,
                (rows - 1) as nat,
                columns,
            );
            lemma_restriction_refusal_stands(short, long, before->next, columns);
        }
    }
}

} // verus!
