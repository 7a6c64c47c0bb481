//! Text fields: a run of bytes that must be UTF-8.
use crate::dat::wire::{
    agrees, has_bytes, holds, le_u16, same_bytes, u16_at, unreadable, Fault, FaultKind, Parsed,
};
use std::string::FromUtf8Error;
use vstd::prelude::*;
use vstd::slice::{slice_subrange, slice_to_vec};
use vstd::utf8::{decode_utf8, valid_utf8};

verus! {

/// The error of `String::from_utf8`, carried through and never looked
/// into.
#[verifier::external_type_specification]
#[verifier::external_body]
pub struct ExFromUtf8Error(FromUtf8Error);

/// `String::from_utf8` of the standard library: believed to succeed exactly
/// on the byte runs that are UTF-8, and then to give the characters that
/// the bytes encode.
pub assume_specification[ String::from_utf8 ](bytes: Vec<u8>) -> (result: Result<
    String,
    FromUtf8Error,
>)
    ensures
        result is Ok <==> valid_utf8(bytes@),
        result matches Ok(text) ==> text@ == decode_utf8(bytes@),
;

/// What a text of `size` bytes at `at` stands for: its characters, where
/// the buffer holds that many bytes and they are UTF-8.
pub open spec fn parse_text(bytes: Seq<u8>, at: int, size: nat) -> Parsed<Seq<char>> {
    if holds(bytes, at, size as int) && valid_utf8(bytes.subrange(at, at + size)) {
        Parsed::Value { value: decode_utf8(bytes.subrange(at, at + size)), next: at + size }
    } else {
        unreadable(at)
    }
}

/// Reads a text of `size` bytes at `at`.
pub fn read_text(bytes: &[u8], at: usize, size: usize) -> (result: Result<(String, usize), Fault>)
    ensures
        agrees(result, parse_text(bytes@, at as int, size as nat)),
{
    if !has_bytes(bytes, at, size) {
        return Err(Fault { kind: FaultKind::Read, offset: at });
    }
    let raw: Vec<u8> = slice_to_vec(slice_subrange(bytes, at, at + size));
    match String::from_utf8(raw) {
        Ok(text) => Ok((text, at + size)),
        Err(_) => Err(Fault { kind: FaultKind::Read, offset: at }),
    }
}

/// What a name stands for: a two-byte length, then a text of that many
/// bytes. A name that cannot be read is reported where its length stands.
pub open spec fn parse_name(bytes: Seq<u8>, at: int) -> Parsed<Seq<char>> {
    if holds(bytes, at, 2) {
        match parse_text(bytes, at + 2, le_u16(bytes, at) as nat) {
            Parsed::Value { value, next } => Parsed::Value { value, next },
            Parsed::Failure { .. } => unreadable(at),
        }
    } else {
        unreadable(at)
    }
}

/// Reads a name at `at`.
pub fn read_name(bytes: &[u8], at: usize) -> (result: Result<(String, usize), Fault>)
    ensures
        agrees(result, parse_name(bytes@, at as int)),
{
    if !has_bytes(bytes, at, 2) {
        return Err(Fault { kind: FaultKind::Read, offset: at });
    }
    let size: u16 = u16_at(bytes, at);
    match read_text(bytes, at + 2, size as usize) {
        Ok(read) => Ok(read),
        Err(_) => Err(Fault { kind: FaultKind::Read, offset: at }),
    }
}

/// A text that was read lies inside the buffer, and its failure is reported
/// where it starts.
pub proof fn lemma_text_within(bytes: Seq<u8>, at: int, size: nat)
    requires
        0 <= at <= bytes.len(),
    ensures
        parse_text(bytes, at, size) matches Parsed::Value { next, .. } ==> next == at + size
            && next <= bytes.len(),
        parse_text(bytes, at, size) matches Parsed::Failure { offset, .. } ==> offset == at,
{
}

/// A text depends on the bytes that it spans and on nothing else.
pub proof fn lemma_text_local(a: Seq<u8>, b: Seq<u8>, at: int, upto: int, size: nat)
    requires
        0 <= at <= a.len(),
        same_bytes(a, b, at, upto),
    ensures
        parse_text(a, at, size) matches Parsed::Value { next, .. } && next <= upto ==> parse_text(
            b,
            at,
            size,
        ) == parse_text(a, at, size),
{
    if at + size <= upto {
        assert(a.subrange(at, at + size) =~= b.subrange(at, at + size));
    }
}

/// A name that was read lies inside the buffer, and its failure is reported
/// where it starts.
pub proof fn lemma_name_within(bytes: Seq<u8>, at: int)
    requires
        0 <= at <= bytes.len(),
    ensures
        parse_name(bytes, at) matches Parsed::Value { next, .. } ==> at + 2 <= next <= bytes.len(),
        parse_name(bytes, at) matches Parsed::Failure { offset, .. } ==> offset == at,
{
}

/// A name depends on the bytes that it spans and on nothing else.
pub proof fn lemma_name_local(a: Seq<u8>, b: Seq<u8>, at: int, upto: int)
    requires
        0 <= at <= a.len(),
        same_bytes(a, b, at, upto),
    ensures
        parse_name(a, at) matches Parsed::Value { next, .. } && next <= upto ==> parse_name(b, at)
            == parse_name(a, at),
{
    if holds(a, at, 2) {
        lemma_text_local(a, b, at + 2, upto, le_u16(a, at) as nat);
    }
}

} // verus!
