//! AMF0: the encoding of the values in command messages.
//!
//! Nothing here builds a tree of values. Commands are read by walking the
//! bytes: a value is skipped by finding where it ends, and the few fields
//! that the session looks at are picked out on the way. Numbers are kept as
//! the eight bytes they travel in.

use vstd::prelude::*;
use vstd::string::*;
use crate::chunk::wire::{be32, be32_at, get_be32, put_be32, put_range, put_slice};

verus! {

pub const MARKER_NUMBER: u8 = 0x00;

pub const MARKER_BOOLEAN: u8 = 0x01;

pub const MARKER_STRING: u8 = 0x02;

pub const MARKER_OBJECT: u8 = 0x03;

pub const MARKER_NULL: u8 = 0x05;

pub const MARKER_UNDEFINED: u8 = 0x06;

pub const MARKER_ECMA_ARRAY: u8 = 0x08;

pub const MARKER_OBJECT_END: u8 = 0x09;

pub const MARKER_STRICT_ARRAY: u8 = 0x0A;

pub const MARKER_DATE: u8 = 0x0B;

pub const MARKER_LONG_STRING: u8 = 0x0C;

/// How deep objects and arrays may nest for a value to be read.
pub const MAX_DEPTH: u32 = 16;

/// The number 0.0 as it travels.
pub const NUMBER_ZERO: u64 = 0;

/// The number 1.0 as it travels.
pub const NUMBER_ONE: u64 = 0x3FF0_0000_0000_0000;

/// The bytes of a text. All texts of the protocol are ASCII.
pub open spec fn text(s: &str) -> Seq<u8> {
    s.spec_bytes()
}

/// The number that the two bytes from `at` on spell, most significant
/// first.
pub open spec fn be16_at(bytes: Seq<u8>, at: int) -> int {
    bytes[at] as int * 0x100 + bytes[at + 1] as int
}

/// The number that the four bytes from `at` on spell, most significant
/// first.
pub open spec fn count_at(bytes: Seq<u8>, at: int) -> int {
    be32_at(bytes, at) as int
}

/// The number that the eight bytes from `at` on spell, most significant
/// first.
pub open spec fn be64_at(bytes: Seq<u8>, at: int) -> u64 {
    (count_at(bytes, at) * 0x1_0000_0000 + count_at(bytes, at + 4)) as u64
}

/// The two bytes of `v`, most significant first. Meant for `v < 2^16`.
pub open spec fn be16(v: int) -> Seq<u8> {
    seq![(v / 0x100 % 0x100) as u8, (v % 0x100) as u8]
}

/// The eight bytes of `v`, most significant first.
pub open spec fn be64(v: u64) -> Seq<u8> {
    be32((v / 0x1_0000_0000) as u32) + be32((v % 0x1_0000_0000) as u32)
}

/// The position `n` bytes behind `at`, if the bytes reach that far.
pub open spec fn fits(bytes: Seq<u8>, at: int, n: int) -> Option<int> {
    if 0 <= at && 0 <= n && at + n <= bytes.len() {
        Some(at + n)
    } else {
        None
    }
}

/// Where the value that starts at `at` ends, if it is a whole value of a
/// kind that is understood and nests no deeper than `depth`.
pub open spec fn value_end(bytes: Seq<u8>, at: int, depth: nat) -> Option<int>
    decreases depth, bytes.len() - at, 0nat,
{
    if at < 0 || at >= bytes.len() {
        None
    } else if bytes[at] == MARKER_NUMBER {
        fits(bytes, at + 1, 8)
    } else if bytes[at] == MARKER_BOOLEAN {
        fits(bytes, at + 1, 1)
    } else if bytes[at] == MARKER_STRING {
        if at + 3 <= bytes.len() {
            fits(bytes, at + 3, be16_at(bytes, at + 1))
        } else {
            None
        }
    } else if bytes[at] == MARKER_OBJECT {
        if depth == 0 {
            None
        } else {
            properties_end(bytes, at + 1, (depth - 1) as nat)
        }
    } else if bytes[at] == MARKER_NULL || bytes[at] == MARKER_UNDEFINED {
        Some(at + 1)
    } else if bytes[at] == MARKER_ECMA_ARRAY {
        if depth == 0 || at + 5 > bytes.len() {
            None
        } else {
            properties_end(bytes, at + 5, (depth - 1) as nat)
        }
    } else if bytes[at] == MARKER_STRICT_ARRAY {
        if depth == 0 || at + 5 > bytes.len() {
            None
        } else {
            elements_end(bytes, at + 5, count_at(bytes, at + 1) as nat, (depth - 1) as nat)
        }
    } else if bytes[at] == MARKER_DATE {
        fits(bytes, at + 1, 10)
    } else if bytes[at] == MARKER_LONG_STRING {
        if at + 5 <= bytes.len() {
            fits(bytes, at + 5, count_at(bytes, at + 1))
        } else {
            None
        }
    } else {
        None
    }
}

/// Where the list of properties that starts at `at` ends: behind the empty
/// key and the end marker that close it.
pub open spec fn properties_end(bytes: Seq<u8>, at: int, depth: nat) -> Option<int>
    decreases depth, bytes.len() - at, 1nat,
{
    if at < 0 || at + 3 > bytes.len() {
        None
    } else if be16_at(bytes, at) == 0 && bytes[at + 2] == MARKER_OBJECT_END {
        Some(at + 3)
    } else {
        let value_at = at + 2 + be16_at(bytes, at);
        if value_at > bytes.len() {
            None
        } else {
            match value_end(bytes, value_at, depth) {
                Some(next) if at < next <= bytes.len() => properties_end(bytes, next, depth),
                _ => None,
            }
        }
    }
}

/// Where `count` values in a row that start at `at` end.
pub open spec fn elements_end(bytes: Seq<u8>, at: int, count: nat, depth: nat) -> Option<int>
    decreases depth, bytes.len() - at, 2nat + count,
{
    if at < 0 || at > bytes.len() {
        None
    } else if count == 0 {
        Some(at)
    } else {
        match value_end(bytes, at, depth) {
            Some(next) if at < next <= bytes.len() => elements_end(
                bytes,
                next,
                (count - 1) as nat,
                depth,
            ),
            _ => None,
        }
    }
}

/// The string value that starts at `at`, if there is one.
pub open spec fn string_at(bytes: Seq<u8>, at: int) -> Option<Seq<u8>> {
    if 0 <= at && at + 3 <= bytes.len() && bytes[at] == MARKER_STRING && at + 3 + be16_at(
        bytes,
        at + 1,
    ) <= bytes.len() {
        Some(bytes.subrange(at + 3, at + 3 + be16_at(bytes, at + 1)))
    } else {
        None
    }
}

/// The string value of the first property named `key` in the list of
/// properties that starts at `at`, if that property is there and its value
/// is a string.
pub open spec fn string_property(bytes: Seq<u8>, at: int, key: Seq<u8>, depth: nat) -> Option<
    Seq<u8>,
>
    decreases bytes.len() - at,
{
    if at < 0 || at + 3 > bytes.len() {
        None
    } else if be16_at(bytes, at) == 0 && bytes[at + 2] == MARKER_OBJECT_END {
        None
    } else {
        let value_at = at + 2 + be16_at(bytes, at);
        if value_at > bytes.len() {
            None
        } else if bytes.subrange(at + 2, value_at) == key {
            string_at(bytes, value_at)
        } else {
            match value_end(bytes, value_at, depth) {
                Some(next) if at < next <= bytes.len() => string_property(bytes, next, key, depth),
                _ => None,
            }
        }
    }
}

fn get_be16(bytes: &Vec<u8>, at: usize) -> (v: usize)
    requires
        at + 2 <= bytes.len(),
    ensures
        v == be16_at(bytes@, at as int),
        v <= 0xFFFF,
{
    (bytes[at] as usize) * 0x100 + (bytes[at + 1] as usize)
}

fn get_count(bytes: &Vec<u8>, at: usize) -> (v: u64)
    requires
        at + 4 <= bytes.len(),
    ensures
        v == count_at(bytes@, at as int),
        v <= 0xFFFF_FFFF,
{
    get_be32(bytes, at) as u64
}

/// Reads the eight bytes of a number.
pub(crate) fn read_number_bits(bytes: &Vec<u8>, at: usize) -> (v: u64)
    requires
        at + 8 <= bytes.len(),
    ensures
        v == be64_at(bytes@, at as int),
{
    get_count(bytes, at) * 0x1_0000_0000 + get_count(bytes, at + 4)
}

fn skip(bytes: &Vec<u8>, at: usize, n: u64) -> (end: Option<usize>)
    requires
        at <= bytes.len(),
    ensures
        end matches Some(e) ==> fits(bytes@, at as int, n as int) == Some(e as int),
        end is None ==> fits(bytes@, at as int, n as int) is None,
{
    if n <= (bytes.len() - at) as u64 {
        Some(at + n as usize)
    } else {
        None
    }
}

/// Whether the results of a walk in code and in the model agree.
pub open spec fn same_end(end: Option<usize>, model: Option<int>) -> bool {
    match end {
        Some(e) => model == Some(e as int),
        None => model is None,
    }
}

/// Finds where the value that starts at `at` ends.
pub fn find_value_end(bytes: &Vec<u8>, at: usize, depth: u32) -> (end: Option<usize>)
    ensures
        same_end(end, value_end(bytes@, at as int, depth as nat)),
        end matches Some(e) ==> at < e <= bytes.len(),
    decreases depth, bytes.len() - at, 0nat,
{
    if at >= bytes.len() {
        return None;
    }
    let marker = bytes[at];
    if marker == MARKER_NUMBER {
        skip(bytes, at + 1, 8)
    } else if marker == MARKER_BOOLEAN {
        skip(bytes, at + 1, 1)
    } else if marker == MARKER_STRING {
        if bytes.len() - at >= 3 {
            skip(bytes, at + 3, get_be16(bytes, at + 1) as u64)
        } else {
            None
        }
    } else if marker == MARKER_OBJECT {
        if depth == 0 {
            None
        } else {
            find_properties_end(bytes, at + 1, depth - 1)
        }
    } else if marker == MARKER_NULL || marker == MARKER_UNDEFINED {
        Some(at + 1)
    } else if marker == MARKER_ECMA_ARRAY {
        if depth == 0 || bytes.len() - at < 5 {
            None
        } else {
            find_properties_end(bytes, at + 5, depth - 1)
        }
    } else if marker == MARKER_STRICT_ARRAY {
        if depth == 0 || bytes.len() - at < 5 {
            None
        } else {
            find_elements_end(bytes, at + 5, get_count(bytes, at + 1), depth - 1)
        }
    } else if marker == MARKER_DATE {
        skip(bytes, at + 1, 10)
    } else if marker == MARKER_LONG_STRING {
        if bytes.len() - at >= 5 {
            skip(bytes, at + 5, get_count(bytes, at + 1))
        } else {
            None
        }
    } else {
        None
    }
}

/// Finds where the list of properties that starts at `at` ends.
pub fn find_properties_end(bytes: &Vec<u8>, at: usize, depth: u32) -> (end: Option<usize>)
    ensures
        same_end(end, properties_end(bytes@, at as int, depth as nat)),
        end matches Some(e) ==> at < e <= bytes.len(),
    decreases depth, bytes.len() - at, 1nat,
{
    if at > bytes.len() || bytes.len() - at < 3 {
        return None;
    }
    let key_len = get_be16(bytes, at);
    if key_len == 0 && bytes[at + 2] == MARKER_OBJECT_END {
        return Some(at + 3);
    }
    if key_len > bytes.len() - at - 2 {
        return None;
    }
    match find_value_end(bytes, at + 2 + key_len, depth) {
        Some(next) => find_properties_end(bytes, next, depth),
        None => None,
    }
}

/// Finds where `count` values in a row that start at `at` end.
pub fn find_elements_end(bytes: &Vec<u8>, at: usize, count: u64, depth: u32) -> (end: Option<
    usize,
>)
    ensures
        same_end(end, elements_end(bytes@, at as int, count as nat, depth as nat)),
        end matches Some(e) ==> at <= e <= bytes.len(),
    decreases depth, bytes.len() - at, 2nat + count,
{
    if at > bytes.len() {
        return None;
    }
    if count == 0 {
        return Some(at);
    }
    match find_value_end(bytes, at, depth) {
        Some(next) => find_elements_end(bytes, next, count - 1, depth),
        None => None,
    }
}

/// Whether the bytes from `from` up to `to` are those of `literal`.
pub(crate) fn range_is_text(bytes: &Vec<u8>, from: usize, to: usize, literal: &str) -> (same: bool)
    requires
        from <= to <= bytes.len(),
    ensures
        same == (bytes@.subrange(from as int, to as int) == text(literal)),
{
    let lit = literal.as_bytes();
    let ghost range = bytes@.subrange(from as int, to as int);
    if to - from != lit.len() {
        return false;
    }
    let mut i: usize = 0;
    while i < lit.len()
        invariant
            i <= lit@.len(),
            from + lit@.len() == to <= bytes.len(),
            range == bytes@.subrange(from as int, to as int),
            lit@ == text(literal),
            forall|j: int| 0 <= j < i ==> range[j] == lit@[j],
        decreases lit@.len() - i,
    {
        if bytes[from + i] != lit[i] {
            assert(range[i as int] != lit@[i as int]);
            return false;
        }
        i += 1;
    }
    assert(range =~= lit@);
    true
}

/// Whether `bytes` are those of `literal`.
pub fn is_text(bytes: &Vec<u8>, literal: &str) -> (same: bool)
    ensures
        same == (bytes@ == text(literal)),
{
    assert(bytes@.subrange(0, bytes@.len() as int) =~= bytes@);
    range_is_text(bytes, 0, bytes.len(), literal)
}

/// Reads the string value that starts at `at`.
pub fn read_string(bytes: &Vec<u8>, at: usize) -> (s: Option<Vec<u8>>)
    ensures
        match s {
            Some(v) => string_at(bytes@, at as int) == Some(v@),
            None => string_at(bytes@, at as int) is None,
        },
{
    if at > bytes.len() || bytes.len() - at < 3 || bytes[at] != MARKER_STRING {
        return None;
    }
    let n = get_be16(bytes, at + 1);
    if n > bytes.len() - at - 3 {
        return None;
    }
    let mut v: Vec<u8> = Vec::new();
    put_range(&mut v, bytes, at + 3, at + 3 + n);
    assert(v@ =~= bytes@.subrange(at + 3, at + 3 + n));
    Some(v)
}

/// Reads the string value of the first property named `key` in the list of
/// properties that starts at `at`.
pub fn read_string_property(bytes: &Vec<u8>, at: usize, key: &str, depth: u32) -> (s: Option<
    Vec<u8>,
>)
    ensures
        match s {
            Some(v) => string_property(bytes@, at as int, text(key), depth as nat) == Some(v@),
            None => string_property(bytes@, at as int, text(key), depth as nat) is None,
        },
    decreases bytes.len() - at,
{
    if at > bytes.len() || bytes.len() - at < 3 {
        return None;
    }
    let key_len = get_be16(bytes, at);
    if key_len == 0 && bytes[at + 2] == MARKER_OBJECT_END {
        return None;
    }
    if key_len > bytes.len() - at - 2 {
        return None;
    }
    let value_at = at + 2 + key_len;
    if range_is_text(bytes, at + 2, value_at, key) {
        return read_string(bytes, value_at);
    }
    match find_value_end(bytes, value_at, depth) {
        Some(next) => read_string_property(bytes, next, key, depth),
        None => None,
    }
}

/// A string value on the wire: the marker, the length in two bytes, the
/// bytes. Meant for strings of at most 65535 bytes.
pub open spec fn string_value(s: Seq<u8>) -> Seq<u8> {
    seq![MARKER_STRING] + be16(s.len() as int) + s
}

/// A number value on the wire: the marker and the eight bytes.
pub open spec fn number_value(bits: u64) -> Seq<u8> {
    seq![MARKER_NUMBER] + be64(bits)
}

/// The null value on the wire.
pub open spec fn null_value() -> Seq<u8> {
    seq![MARKER_NULL]
}

/// A property on the wire: the length of the key in two bytes, the key,
/// the value.
pub open spec fn property(key: Seq<u8>, value: Seq<u8>) -> Seq<u8> {
    be16(key.len() as int) + key + value
}

/// An object value on the wire: the marker, the properties, the empty key
/// and the end marker.
pub open spec fn object_value(properties: Seq<u8>) -> Seq<u8> {
    seq![MARKER_OBJECT] + properties + seq![0u8, 0u8, MARKER_OBJECT_END]
}

fn put_be16(out: &mut Vec<u8>, v: usize)
    requires
        v <= 0xFFFF,
    ensures
        final(out)@ == old(out)@ + be16(v as int),
{
    out.push((v / 0x100 % 0x100) as u8);
    out.push((v % 0x100) as u8);
    assert(out@ =~= old(out)@ + be16(v as int));
}

/// Appends a string value.
pub(crate) fn put_string(out: &mut Vec<u8>, s: &Vec<u8>)
    requires
        s.len() <= 0xFFFF,
    ensures
        final(out)@ == old(out)@ + string_value(s@),
{
    out.push(MARKER_STRING);
    put_be16(out, s.len());
    put_range(out, s, 0, s.len());
    assert(s@.subrange(0, s@.len() as int) =~= s@);
    assert(out@ =~= old(out)@ + string_value(s@));
}

/// Appends the string value of a text.
pub(crate) fn put_text(out: &mut Vec<u8>, literal: &str)
    requires
        text(literal).len() <= 0xFFFF,
    ensures
        final(out)@ == old(out)@ + string_value(text(literal)),
{
    let lit = literal.as_bytes();
    out.push(MARKER_STRING);
    put_be16(out, lit.len());
    put_slice(out, lit);
    assert(out@ =~= old(out)@ + string_value(text(literal)));
}

/// Appends a number value.
pub fn put_number(out: &mut Vec<u8>, bits: u64)
    ensures
        final(out)@ == old(out)@ + number_value(bits),
{
    out.push(MARKER_NUMBER);
    put_be32(out, (bits / 0x1_0000_0000) as u32);
    put_be32(out, (bits % 0x1_0000_0000) as u32);
    assert(out@ =~= old(out)@ + number_value(bits));
}

/// Appends the null value.
pub fn put_null(out: &mut Vec<u8>)
    ensures
        final(out)@ == old(out)@ + null_value(),
{
    out.push(MARKER_NULL);
}

/// Appends the key of a property; its value is to follow.
pub(crate) fn put_key(out: &mut Vec<u8>, key: &str)
    requires
        text(key).len() <= 0xFFFF,
    ensures
        final(out)@ == old(out)@ + be16(text(key).len() as int) + text(key),
{
    let lit = key.as_bytes();
    put_be16(out, lit.len());
    put_slice(out, lit);
}

/// Appends the marker that opens an object.
pub fn open_object(out: &mut Vec<u8>)
    ensures
        final(out)@ == old(out)@ + seq![MARKER_OBJECT],
{
    out.push(MARKER_OBJECT);
}

/// Appends the empty key and the marker that close an object.
pub fn close_object(out: &mut Vec<u8>)
    ensures
        final(out)@ == old(out)@ + seq![0u8, 0u8, MARKER_OBJECT_END],
{
    out.push(0);
    out.push(0);
    out.push(MARKER_OBJECT_END);
    assert(out@ =~= old(out)@ + seq![0u8, 0u8, MARKER_OBJECT_END]);
}

} // verus!
