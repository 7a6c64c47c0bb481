//! The byte-level reader: little-endian scalars and runs of records, each
//! with the mathematical statement of what it reads.
use vstd::prelude::*;

verus! {

/// Why a read failed.
#[derive(Clone, Copy, Debug, PartialEq, Eq, Structural)]
pub enum FaultKind {
    /// The buffer ends before the value does, or a count or a text cannot
    /// be what the buffer holds.
    Read,
    /// An enumeration code that stands for no known symbol.
    Discriminant,
}

/// A failed read: what went wrong, and the byte offset at which it did.
#[derive(Clone, Copy, Debug, PartialEq, Eq, Structural)]
pub struct Fault {
    pub kind: FaultKind,
    pub offset: usize,
}

/// The mathematical outcome of reading one value at a position of a buffer.
pub enum Parsed<V> {
    /// The value, and the position just behind its last byte.
    Value { value: V, next: int },
    /// The failure, and the offset at which it is reported.
    Failure { kind: FaultKind, offset: int },
}

impl<V> Parsed<V> {
    /// Whether the outcome is the refusal of an unknown code.
    pub open spec fn is_refusal(self) -> bool {
        self matches Parsed::Failure { kind: FaultKind::Discriminant, .. }
    }
}

/// The failure of a value at `at` that the buffer does not hold.
pub open spec fn unreadable<V>(at: int) -> Parsed<V> {
    Parsed::Failure { kind: FaultKind::Read, offset: at }
}

/// The failure of `parsed`, as the outcome of reading a larger value that
/// it is part of.
pub open spec fn fail<A, B>(parsed: Parsed<A>) -> Parsed<B> {
    Parsed::Failure { kind: parsed->kind, offset: parsed->offset }
}

/// Whether what a reader returned is the outcome `parsed`.
pub open spec fn agrees<T: View>(result: Result<(T, usize), Fault>, parsed: Parsed<T::V>) -> bool {
    match result {
        Ok((value, next)) => parsed == (Parsed::Value { value: value@, next: next as int }),
        Err(fault) => parsed == (Parsed::<T::V>::Failure {
            kind: fault.kind,
            offset: fault.offset as int,
        }),
    }
}

/// Whether two buffers are both at least `upto` bytes long and hold the
/// same bytes from `from` up to `upto`.
pub open spec fn same_bytes(a: Seq<u8>, b: Seq<u8>, from: int, upto: int) -> bool {
    &&& upto <= a.len()
    &&& upto <= b.len()
    &&& forall|i: int| from <= i < upto ==> a[i] == b[i]
}

/// Whether `short` is the beginning of `long`.
pub open spec fn is_prefix(short: Seq<u8>, long: Seq<u8>) -> bool {
    same_bytes(short, long, 0, short.len() as int)
}

/// A value with a fixed place in the byte layout.
pub trait Record: View + Sized {
    /// What the bytes from `at` on stand for.
    spec fn parse(bytes: Seq<u8>, at: int) -> Parsed<Self::V>;

    /// Reads the value at `at`.
    fn decode(bytes: &[u8], at: usize) -> (result: Result<(Self, usize), Fault>)
        ensures
            agrees(result, Self::parse(bytes@, at as int)),
    ;

    /// A value takes at least one byte and lies inside the buffer, and a
    /// failure is reported inside the buffer.
    proof fn lemma_parse_within(bytes: Seq<u8>, at: int)
        requires
            0 <= at <= bytes.len(),
        ensures
            Self::parse(bytes, at) matches Parsed::Value { next, .. } ==> at < next <= bytes.len(),
            Self::parse(bytes, at) matches Parsed::Failure { offset, .. } ==> at <= offset
                <= bytes.len(),
    ;

    /// A value depends on the bytes that it spans and on nothing else: a
    /// buffer with the same bytes up to its end holds the same value.
    proof fn lemma_parse_local(a: Seq<u8>, b: Seq<u8>, at: int, upto: int)
        requires
            0 <= at <= a.len(),
            same_bytes(a, b, at, upto),
        ensures
            Self::parse(a, at) matches Parsed::Value { next, .. } && next <= upto ==> Self::parse(
                b,
                at,
            ) == Self::parse(a, at),
    ;

    /// An unknown code is refused whatever follows it: the refusal found in
    /// the beginning of a buffer is found in the whole buffer.
    proof fn lemma_refusal_stands(short: Seq<u8>, long: Seq<u8>, at: int)
        requires
            is_prefix(short, long),
            0 <= at <= short.len(),
        ensures
            Self::parse(short, at).is_refusal() ==> Self::parse(long, at) == Self::parse(short, at),
    ;
}

/// The little-endian value of the two bytes at `at`.
pub open spec fn le_u16(bytes: Seq<u8>, at: int) -> u16 {
    (bytes[at] as int + 256 * (bytes[at + 1] as int)) as u16
}

/// The little-endian value of the four bytes at `at`.
pub open spec fn le_u32(bytes: Seq<u8>, at: int) -> u32 {
    (bytes[at] as int + 256 * (bytes[at + 1] as int) + 65536 * (bytes[at + 2] as int) + 16777216
        * (bytes[at + 3] as int)) as u32
}

/// The signed value that a sixteen-bit pattern stands for in two's
/// complement.
pub open spec fn signed_16(pattern: u16) -> i16 {
    if pattern < 32768 {
        pattern as i16
    } else {
        (pattern - 65536) as i16
    }
}

/// The signed value that a thirty-two-bit pattern stands for in two's
/// complement.
pub open spec fn signed_32(pattern: u32) -> i32 {
    if pattern < 2147483648 {
        pattern as i32
    } else {
        (pattern - 4294967296) as i32
    }
}

/// Whether `size` bytes lie in the buffer from `at` on.
pub open spec fn holds(bytes: Seq<u8>, at: int, size: int) -> bool {
    0 <= at && at + size <= bytes.len()
}

/// Tells whether `size` bytes lie in the buffer from `at` on.
pub fn has_bytes(bytes: &[u8], at: usize, size: usize) -> (result: bool)
    ensures
        result == holds(bytes@, at as int, size as int),
        result ==> at + size <= usize::MAX,
{
    at <= bytes.len() && bytes.len() - at >= size
}

/// The byte at `at`.
pub(crate) fn u8_at(bytes: &[u8], at: usize) -> (value: u8)
    requires
        holds(bytes@, at as int, 1),
    ensures
        value == bytes@[at as int],
{
    bytes[at]
}

/// The little-endian `u16` at `at`.
pub(crate) fn u16_at(bytes: &[u8], at: usize) -> (value: u16)
    requires
        holds(bytes@, at as int, 2),
    ensures
        value == le_u16(bytes@, at as int),
{
    let low: u16 = bytes[at] as u16;
    let high: u16 = bytes[at + 1] as u16;
    low + 256 * high
}

/// The little-endian `u32` at `at`.
pub(crate) fn u32_at(bytes: &[u8], at: usize) -> (value: u32)
    requires
        holds(bytes@, at as int, 4),
    ensures
        value == le_u32(bytes@, at as int),
{
    let b0: u32 = bytes[at] as u32;
    let b1: u32 = bytes[at + 1] as u32;
    let b2: u32 = bytes[at + 2] as u32;
    let b3: u32 = bytes[at + 3] as u32;
    b0 + 256 * b1 + 65536 * b2 + 16777216 * b3
}

/// The little-endian `i16` at `at`.
pub(crate) fn i16_at(bytes: &[u8], at: usize) -> (value: i16)
    requires
        holds(bytes@, at as int, 2),
    ensures
        value == signed_16(le_u16(bytes@, at as int)),
{
    let pattern: u16 = u16_at(bytes, at);
    if pattern < 32768 {
        pattern as i16
    } else {
        (pattern as i32 - 65536) as i16
    }
}

/// The little-endian `i32` at `at`.
pub(crate) fn i32_at(bytes: &[u8], at: usize) -> (value: i32)
    requires
        holds(bytes@, at as int, 4),
    ensures
        value == signed_32(le_u32(bytes@, at as int)),
{
    let pattern: u32 = u32_at(bytes, at);
    if pattern < 2147483648 {
        pattern as i32
    } else {
        (pattern as i64 - 4294967296) as i32
    }
}

impl Record for u8 {
    open spec fn parse(bytes: Seq<u8>, at: int) -> Parsed<u8> {
        if holds(bytes, at, 1) {
            Parsed::Value { value: bytes[at], next: at + 1 }
        } else {
            unreadable(at)
        }
    }

    fn decode(bytes: &[u8], at: usize) -> (result: Result<(u8, usize), Fault>) {
        if has_bytes(bytes, at, 1) {
            Ok((u8_at(bytes, at), at + 1))
        } else {
            Err(Fault { kind: FaultKind::Read, offset: at })
        }
    }

    proof fn lemma_parse_within(bytes: Seq<u8>, at: int) {
    }

    proof fn lemma_parse_local(a: Seq<u8>, b: Seq<u8>, at: int, upto: int) {
    }

    proof fn lemma_refusal_stands(short: Seq<u8>, long: Seq<u8>, at: int) {
    }
}

impl Record for u16 {
    open spec fn parse(bytes: Seq<u8>, at: int) -> Parsed<u16> {
        if holds(bytes, at, 2) {
            Parsed::Value { value: le_u16(bytes, at), next: at + 2 }
        } else {
            unreadable(at)
        }
    }

    fn decode(bytes: &[u8], at: usize) -> (result: Result<(u16, usize), Fault>) {
        if has_bytes(bytes, at, 2) {
            Ok((u16_at(bytes, at), at + 2))
        } else {
            Err(Fault { kind: FaultKind::Read, offset: at })
        }
    }

    proof fn lemma_parse_within(bytes: Seq<u8>, at: int) {
    }

    proof fn lemma_parse_local(a: Seq<u8>, b: Seq<u8>, at: int, upto: int) {
    }

    proof fn lemma_refusal_stands(short: Seq<u8>, long: Seq<u8>, at: int) {
    }
}

impl Record for i16 {
    open spec fn parse(bytes: Seq<u8>, at: int) -> Parsed<i16> {
        if holds(bytes, at, 2) {
            Parsed::Value { value: signed_16(le_u16(bytes, at)), next: at + 2 }
        } else {
            unreadable(at)
        }
    }

    fn decode(bytes: &[u8], at: usize) -> (result: Result<(i16, usize), Fault>) {
        if has_bytes(bytes, at, 2) {
            Ok((i16_at(bytes, at), at + 2))
        } else {
            Err(Fault { kind: FaultKind::Read, offset: at })
        }
    }

    proof fn lemma_parse_within(bytes: Seq<u8>, at: int) {
    }

    proof fn lemma_parse_local(a: Seq<u8>, b: Seq<u8>, at: int, upto: int) {
    }

    proof fn lemma_refusal_stands(short: Seq<u8>, long: Seq<u8>, at: int) {
    }
}

impl Record for u32 {
    open spec fn parse(bytes: Seq<u8>, at: int) -> Parsed<u32> {
        if holds(bytes, at, 4) {
            Parsed::Value { value: le_u32(bytes, at), next: at + 4 }
        } else {
            unreadable(at)
        }
    }

    fn decode(bytes: &[u8], at: usize) -> (result: Result<(u32, usize), Fault>) {
        if has_bytes(bytes, at, 4) {
            Ok((u32_at(bytes, at), at + 4))
        } else {
            Err(Fault { kind: FaultKind::Read, offset: at })
        }
    }

    proof fn lemma_parse_within(bytes: Seq<u8>, at: int) {
    }

    proof fn lemma_parse_local(a: Seq<u8>, b: Seq<u8>, at: int, upto: int) {
    }

    proof fn lemma_refusal_stands(short: Seq<u8>, long: Seq<u8>, at: int) {
    }
}

impl Record for i32 {
    open spec fn parse(bytes: Seq<u8>, at: int) -> Parsed<i32> {
        if holds(bytes, at, 4) {
            Parsed::Value { value: signed_32(le_u32(bytes, at)), next: at + 4 }
        } else {
            unreadable(at)
        }
    }

    fn decode(bytes: &[u8], at: usize) -> (result: Result<(i32, usize), Fault>) {
        if has_bytes(bytes, at, 4) {
            Ok((i32_at(bytes, at), at + 4))
        } else {
            Err(Fault { kind: FaultKind::Read, offset: at })
        }
    }

    proof fn lemma_parse_within(bytes: Seq<u8>, at: int) {
    }

    proof fn lemma_parse_local(a: Seq<u8>, b: Seq<u8>, at: int, upto: int) {
    }

    proof fn lemma_refusal_stands(short: Seq<u8>, long: Seq<u8>, at: int) {
    }
}

/// The views of the items of a sequence, in order.
pub open spec fn views<T: View>(items: Seq<T>) -> Seq<T::V> {
    Seq::new(items.len(), |i: int| items[i]@)
}

/// What `count` records in a row stand for, the first of them at `at`: the
/// records before the last, then the last where they end. The first record
/// that fails gives the failure.
pub open spec fn parse_sequence<T: Record>(bytes: Seq<u8>, at: int, count: nat) -> Parsed<
    Seq<T::V>,
>
    decreases count,
{
    if count == 0 {
        Parsed::Value { value: Seq::empty(), next: at }
    } else {
        match parse_sequence::<T>(bytes, at, (count - 1) as nat) {
            Parsed::Failure { kind, offset } => Parsed::Failure { kind, offset },
            Parsed::Value { value: before, next: middle } => match T::parse(bytes, middle) {
                Parsed::Failure { kind, offset } => Parsed::Failure { kind, offset },
                Parsed::Value { value: last, next } => Parsed::Value {
                    value: before.push(last),
                    next,
                },
            },
        }
    }
}

/// Whether what a reader of a sequence returned is the outcome `parsed`.
pub open spec fn agrees_all<T: View>(
    result: Result<(Vec<T>, usize), Fault>,
    parsed: Parsed<Seq<T::V>>,
) -> bool {
    match result {
        Ok((items, next)) => parsed == (Parsed::Value { value: views(items@), next: next as int }),
        Err(fault) => parsed == (Parsed::<Seq<T::V>>::Failure {
            kind: fault.kind,
            offset: fault.offset as int,
        }),
    }
}

/// Reads `count` records in a row, the first of them at `at`.
pub fn read_sequence<T: Record>(bytes: &[u8], at: usize, count: usize) -> (result: Result<
    (Vec<T>, usize),
    Fault,
>)
    ensures
        agrees_all(result, parse_sequence::<T>(bytes@, at as int, count as nat)),
{
    let mut items: Vec<T> = Vec::new();
    let mut position: usize = at;
    let mut done: usize = 0;
    proof {
        assert(views(items@) =~= Seq::<T::V>::empty());
    }
    while done < count
        invariant
            done <= count,
            parse_sequence::<T>(bytes@, at as int, done as nat) == (Parsed::Value {
                value: views(items@),
                next: position as int,
            }),
        decreases count - done,
    {
        match T::decode(bytes, position) {
            Err(fault) => {
                proof {
                    lemma_sequence_fails_on::<T>(
                        bytes@,
                        at as int,
                        (done + 1) as nat,
                        count as nat,
                    );
                }
                return Err(fault);
            },
            Ok((item, next)) => {
                proof {
                    assert(views(items@.push(item)) =~= views(items@).push(item@));
                }
                items.push(item);
                position = next;
                done = done + 1;
            },
        }
    }
    Ok((items, position))
}

/// Once a shorter run of records fails, every longer run fails in the same
/// way.
pub proof fn lemma_sequence_fails_on<T: Record>(bytes: Seq<u8>, at: int, failing: nat, count: nat)
    requires
        failing <= count,
        parse_sequence::<T>(bytes, at, failing) is Failure,
    ensures
        parse_sequence::<T>(bytes, at, count) == parse_sequence::<T>(bytes, at, failing),
    decreases count,
{
    if failing < count {
        lemma_sequence_fails_on::<T>(bytes, at, failing, (count - 1) as nat);
    }
}

/// A run of `count` records that was read has `count` items.
pub proof fn lemma_sequence_length<T: Record>(bytes: Seq<u8>, at: int, count: nat)
    ensures
        parse_sequence::<T>(bytes, at, count) matches Parsed::Value { value, .. } ==> value.len()
            == count,
    decreases count,
{
    if count > 0 {
        lemma_sequence_length::<T>(bytes, at, (count - 1) as nat);
    }
}

/// A run of records that was read takes at least one byte for each record
/// and lies inside the buffer, and its failure is reported inside the
/// buffer.
pub proof fn lemma_sequence_within<T: Record>(bytes: Seq<u8>, at: int, count: nat)
    requires
        0 <= at <= bytes.len(),
    ensures
        parse_sequence::<T>(bytes, at, count) matches Parsed::Value { next, .. } ==> at + count
            <= next <= bytes.len(),
        parse_sequence::<T>(bytes, at, count) matches Parsed::Failure { offset, .. } ==> at
            <= offset <= bytes.len(),
    decreases count,
{
    if count > 0 {
        lemma_sequence_within::<T>(bytes, at, (count - 1) as nat);
        match parse_sequence::<T>(bytes, at, (count - 1) as nat) {
            Parsed::Value { next: middle, .. } => {
                T::lemma_parse_within(bytes, middle);
            },
            Parsed::Failure { .. } => {},
        }
    }
}

/// A run of records depends on the bytes that it spans and on nothing
/// else.
pub proof fn lemma_sequence_local<T: Record>(
    a: Seq<u8>,
    b: Seq<u8>,
    at: int,
    upto: int,
    count: nat,
)
    requires
        0 <= at <= a.len(),
        same_bytes(a, b, at, upto),
    ensures
        parse_sequence::<T>(a, at, count) matches Parsed::Value { next, .. } && next <= upto
            ==> parse_sequence::<T>(b, at, count) == parse_sequence::<T>(a, at, count),
    decreases count,
{
    if count > 0 {
        let before = parse_sequence::<T>(a, at, (count - 1) as nat);
        if before is Value {
            lemma_sequence_within::<T>(a, at, (count - 1) as nat);
            T::lemma_parse_within(a, before->next);
            lemma_sequence_local::<T>(a, b, at, upto, (count - 1) as nat);
            T::lemma_parse_local(a, b, before->next, upto);
        }
    }
}

/// The refusal of an unknown code in a run of records stands whatever
/// follows the beginning of the buffer in which it was found.
pub proof fn lemma_sequence_refusal_stands<T: Record>(
    short: Seq<u8>,
    long: Seq<u8>,
    at: int,
    count: nat,
)
    requires
        is_prefix(short, long),
        0 <= at <= short.len(),
    ensures
        parse_sequence::<T>(short, at, count).is_refusal() ==> parse_sequence::<T>(long, at, count)
            == parse_sequence::<T>(short, at, count),
    decreases count,
{
    if count > 0 {
        let before = parse_sequence::<T>(short, at, (count - 1) as nat);
        lemma_sequence_refusal_stands::<T>(short, long, at, (count - 1) as nat);
        if before is Value {
            lemma_sequence_within::<T>(short, at, (count - 1) as nat);
            lemma_sequence_local::<T>(short, long, at, short.len() as int, (count - 1) as nat);
            T::lemma_refusal_stands(short, long, before->next);
        }
    }
}

/// Every record of a run that was read was itself read, at the place
/// where the records before it end; the lemma gives that place.
pub proof fn lemma_sequence_each<T: Record>(
    bytes: Seq<u8>,
    at: int,
    count: nat,
    index: int,
) -> (place: int)
    requires
        parse_sequence::<T>(bytes, at, count) is Value,
        0 <= index < count,
    ensures
        place == parse_sequence::<T>(bytes, at, index as nat)->next,
        parse_sequence::<T>(bytes, at, index as nat) is Value,
        T::parse(bytes, place) is Value,
        T::parse(bytes, place)->value == parse_sequence::<T>(bytes, at, count)->value[index],
    decreases count,
{
    let before = parse_sequence::<T>(bytes, at, (count - 1) as nat);
    lemma_sequence_length::<T>(bytes, at, (count - 1) as nat);
    if index == count - 1 {
        before->next
    } else {
        lemma_sequence_each::<T>(bytes, at, (count - 1) as nat, index)
    }
}

/// What a run of `count` records at `body` stands for, where the count was
/// read at `at`. Every record takes at least one byte, so a count larger
/// than the number of bytes left is refused where it was read.
pub open spec fn parse_counted<T: Record>(bytes: Seq<u8>, at: int, body: int, count: nat) -> Parsed<
    Seq<T::V>,
> {
    if count > bytes.len() - body {
        unreadable(at)
    } else {
        parse_sequence::<T>(bytes, body, count)
    }
}

/// Reads a run of `count` records at `body`, where the count was read at
/// `at`.
pub fn read_counted<T: Record>(bytes: &[u8], at: usize, body: usize, count: usize) -> (result:
    Result<(Vec<T>, usize), Fault>)
    ensures
        agrees_all(result, parse_counted::<T>(bytes@, at as int, body as int, count as nat)),
{
    if body > bytes.len() || count > bytes.len() - body {
        Err(Fault { kind: FaultKind::Read, offset: at })
    } else {
        read_sequence(bytes, body, count)
    }
}

/// What a list with a one-byte count in front stands for.
pub open spec fn parse_list_8<T: Record>(bytes: Seq<u8>, at: int) -> Parsed<Seq<T::V>> {
    if holds(bytes, at, 1) {
        parse_counted::<T>(bytes, at, at + 1, bytes[at] as nat)
    } else {
        unreadable(at)
    }
}

/// What a list with a two-byte count in front stands for.
pub open spec fn parse_list_16<T: Record>(bytes: Seq<u8>, at: int) -> Parsed<Seq<T::V>> {
    if holds(bytes, at, 2) {
        parse_counted::<T>(bytes, at, at + 2, le_u16(bytes, at) as nat)
    } else {
        unreadable(at)
    }
}

/// What a list with a four-byte count in front stands for.
pub open spec fn parse_list_32<T: Record>(bytes: Seq<u8>, at: int) -> Parsed<Seq<T::V>> {
    if holds(bytes, at, 4) {
        parse_counted::<T>(bytes, at, at + 4, le_u32(bytes, at) as nat)
    } else {
        unreadable(at)
    }
}

/// Reads a list with a one-byte count in front.
pub fn read_list_8<T: Record>(bytes: &[u8], at: usize) -> (result: Result<(Vec<T>, usize), Fault>)
    ensures
        agrees_all(result, parse_list_8::<T>(bytes@, at as int)),
{
    if has_bytes(bytes, at, 1) {
        let count: u8 = u8_at(bytes, at);
        read_counted(bytes, at, at + 1, count as usize)
    } else {
        Err(Fault { kind: FaultKind::Read, offset: at })
    }
}

/// Reads a list with a two-byte count in front.
pub fn read_list_16<T: Record>(bytes: &[u8], at: usize) -> (result: Result<(Vec<T>, usize), Fault>)
    ensures
        agrees_all(result, parse_list_16::<T>(bytes@, at as int)),
{
    if has_bytes(bytes, at, 2) {
        let count: u16 = u16_at(bytes, at);
        read_counted(bytes, at, at + 2, count as usize)
    } else {
        Err(Fault { kind: FaultKind::Read, offset: at })
    }
}

/// Reads a list with a four-byte count in front.
pub fn read_list_32<T: Record>(bytes: &[u8], at: usize) -> (result: Result<(Vec<T>, usize), Fault>)
    ensures
        agrees_all(result, parse_list_32::<T>(bytes@, at as int)),
{
    if has_bytes(bytes, at, 4) {
        let count: u32 = u32_at(bytes, at);
        if count as u64 > usize::MAX as u64 {
            Err(Fault { kind: FaultKind::Read, offset: at })
        } else {
            read_counted(bytes, at, at + 4, count as usize)
        }
    } else {
        Err(Fault { kind: FaultKind::Read, offset: at })
    }
}

/// A counted run that was read lies inside the buffer, and its failure is
/// reported inside it.
pub proof fn lemma_counted_within<T: Record>(bytes: Seq<u8>, at: int, body: int, count: nat)
    requires
        0 <= at <= body <= bytes.len(),
    ensures
        parse_counted::<T>(bytes, at, body, count) matches Parsed::Value { next, .. } ==> body
            + count <= next <= bytes.len(),
        parse_counted::<T>(bytes, at, body, count) matches Parsed::Failure { offset, .. } ==> at
            <= offset <= bytes.len(),
{
    lemma_sequence_within::<T>(bytes, body, count);
}

/// A counted run depends on the bytes that it spans and on nothing else.
pub proof fn lemma_counted_local<T: Record>(
    a: Seq<u8>,
    b: Seq<u8>,
    at: int,
    body: int,
    upto: int,
    count: nat,
)
    requires
        0 <= body <= a.len(),
        same_bytes(a, b, body, upto),
    ensures
        parse_counted::<T>(a, at, body, count) matches Parsed::Value { next, .. } && next <= upto
            ==> parse_counted::<T>(b, at, body, count) == parse_counted::<T>(a, at, body, count),
{
    lemma_sequence_within::<T>(a, body, count);
    lemma_sequence_local::<T>(a, b, body, upto, count);
}

/// The refusal of an unknown code in a counted run stands whatever follows
/// the beginning of the buffer in which it was found.
pub proof fn lemma_counted_refusal_stands<T: Record>(
    short: Seq<u8>,
    long: Seq<u8>,
    at: int,
    body: int,
    count: nat,
)
    requires
        is_prefix(short, long),
        0 <= body <= short.len(),
    ensures
        parse_counted::<T>(short, at, body, count).is_refusal() ==> parse_counted::<T>(
            long,
            at,
            body,
            count,
        ) == parse_counted::<T>(short, at, body, count),
{
    lemma_sequence_refusal_stands::<T>(short, long, body, count);
}

/// A list with a one-byte count that was read lies inside the buffer, and
/// its failure is reported inside it.
pub proof fn lemma_list_8_within<T: Record>(bytes: Seq<u8>, at: int)
    requires
        0 <= at <= bytes.len(),
    ensures
        parse_list_8::<T>(bytes, at) matches Parsed::Value { next, .. } ==> at + 1 <= next
            <= bytes.len(),
        parse_list_8::<T>(bytes, at) matches Parsed::Failure { offset, .. } ==> at <= offset
            <= bytes.len(),
{
    if holds(bytes, at, 1) {
        lemma_counted_within::<T>(bytes, at, at + 1, bytes[at] as nat);
    }
}

/// A list with a one-byte count depends on the bytes that it spans and on
/// nothing else.
pub proof fn lemma_list_8_local<T: Record>(a: Seq<u8>, b: Seq<u8>, at: int, upto: int)
    requires
        0 <= at <= a.len(),
        same_bytes(a, b, at, upto),
    ensures
        parse_list_8::<T>(a, at) matches Parsed::Value { next, .. } && next <= upto
            ==> parse_list_8::<T>(b, at) == parse_list_8::<T>(a, at),
{
    if holds(a, at, 1) {
        lemma_counted_within::<T>(a, at, at + 1, a[at] as nat);
        lemma_counted_local::<T>(a, b, at, at + 1, upto, a[at] as nat);
    }
}

/// The refusal of an unknown code in a list with a one-byte count stands
/// whatever follows the beginning of the buffer in which it was found.
pub proof fn lemma_list_8_refusal_stands<T: Record>(short: Seq<u8>, long: Seq<u8>, at: int)
    requires
        is_prefix(short, long),
        0 <= at <= short.len(),
    ensures
        parse_list_8::<T>(short, at).is_refusal() ==> parse_list_8::<T>(long, at)
            == parse_list_8::<T>(short, at),
{
    if holds(short, at, 1) {
        lemma_counted_refusal_stands::<T>(short, long, at, at + 1, short[at] as nat);
    }
}

/// A list with a two-byte count that was read lies inside the buffer, and
/// its failure is reported inside it.
pub proof fn lemma_list_16_within<T: Record>(bytes: Seq<u8>, at: int)
    requires
        0 <= at <= bytes.len(),
    ensures
        parse_list_16::<T>(bytes, at) matches Parsed::Value { next, .. } ==> at + 2 <= next
            <= bytes.len(),
        parse_list_16::<T>(bytes, at) matches Parsed::Failure { offset, .. } ==> at <= offset
            <= bytes.len(),
{
    if holds(bytes, at, 2) {
        lemma_counted_within::<T>(bytes, at, at + 2, le_u16(bytes, at) as nat);
    }
}

/// A list with a two-byte count depends on the bytes that it spans and on
/// nothing else.
pub proof fn lemma_list_16_local<T: Record>(a: Seq<u8>, b: Seq<u8>, at: int, upto: int)
    requires
        0 <= at <= a.len(),
        same_bytes(a, b, at, upto),
    ensures
        parse_list_16::<T>(a, at) matches Parsed::Value { next, .. } && next <= upto
            ==> parse_list_16::<T>(b, at) == parse_list_16::<T>(a, at),
{
    if holds(a, at, 2) {
        lemma_counted_within::<T>(a, at, at + 2, le_u16(a, at) as nat);
        lemma_counted_local::<T>(a, b, at, at + 2, upto, le_u16(a, at) as nat);
    }
}

/// The refusal of an unknown code in a list with a two-byte count stands
/// whatever follows the beginning of the buffer in which it was found.
pub proof fn lemma_list_16_refusal_stands<T: Record>(short: Seq<u8>, long: Seq<u8>, at: int)
    requires
        is_prefix(short, long),
        0 <= at <= short.len(),
    ensures
        parse_list_16::<T>(short, at).is_refusal() ==> parse_list_16::<T>(long, at)
            == parse_list_16::<T>(short, at),
{
    if holds(short, at, 2) {
        lemma_counted_refusal_stands::<T>(short, long, at, at + 2, le_u16(short, at) as nat);
    }
}

/// A list with a four-byte count that was read lies inside the buffer, and
/// its failure is reported inside it.
pub proof fn lemma_list_32_within<T: Record>(bytes: Seq<u8>, at: int)
    requires
        0 <= at <= bytes.len(),
    ensures
        parse_list_32::<T>(bytes, at) matches Parsed::Value { next, .. } ==> at + 4 <= next
            <= bytes.len(),
        parse_list_32::<T>(bytes, at) matches Parsed::Failure { offset, .. } ==> at <= offset
            <= bytes.len(),
{
    if holds(bytes, at, 4) {
        lemma_counted_within::<T>(bytes, at, at + 4, le_u32(bytes, at) as nat);
    }
}

/// A list with a four-byte count depends on the bytes that it spans and on
/// nothing else.
pub proof fn lemma_list_32_local<T: Record>(a: Seq<u8>, b: Seq<u8>, at: int, upto: int)
    requires
        0 <= at <= a.len(),
        same_bytes(a, b, at, upto),
    ensures
        parse_list_32::<T>(a, at) matches Parsed::Value { next, .. } && next <= upto
            ==> parse_list_32::<T>(b, at) == parse_list_32::<T>(a, at),
{
    if holds(a, at, 4) {
        lemma_counted_within::<T>(a, at, at + 4, le_u32(a, at) as nat);
        lemma_counted_local::<T>(a, b, at, at + 4, upto, le_u32(a, at) as nat);
    }
}

/// The refusal of an unknown code in a list with a four-byte count stands
/// whatever follows the beginning of the buffer in which it was found.
pub proof fn lemma_list_32_refusal_stands<T: Record>(short: Seq<u8>, long: Seq<u8>, at: int)
    requires
        is_prefix(short, long),
        0 <= at <= short.len(),
    ensures
        parse_list_32::<T>(short, at).is_refusal() ==> parse_list_32::<T>(long, at)
            == parse_list_32::<T>(short, at),
{
    if holds(short, at, 4) {
        lemma_counted_refusal_stands::<T>(short, long, at, at + 4, le_u32(short, at) as nat);
    }
}

} // verus!
