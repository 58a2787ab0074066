//! Byte-level model of the variable-file layout.
//!
//! A variable file is, outer to inner: an 11-byte signature, a 42-byte
//! comment, a 2-byte little-endian data-section length, the data section
//! (entry header length, data length, type byte, 8-byte name, version and
//! flags when the entry header length is 13, the data length again, an
//! optional 2-byte internal length prefix, and the payload), and a trailing
//! 2-byte additive checksum over the whole data section.
use vstd::prelude::*;

use crate::VariableType;

verus! {

/// Largest payload byte count the 16-bit length fields can carry: the
/// data-section length equals the payload count plus 17 bytes of fixed
/// entry-header overhead, and must itself fit in 16 bits.
pub const MAX_DATA: u16 = 65518;

/// File offset of the 2-byte data-section length field.
pub const OFF_DSLEN: usize = 53;

/// File offset of the first byte covered by the checksum: the entry header
/// length field, right after the data-section length.
pub const OFF_BODY: usize = 55;

/// File offset of the first copy of the data length.
pub const OFF_DATALEN1: usize = 57;

/// File offset of the type byte.
pub const OFF_TYPE: usize = 59;

/// File offset of the 8-byte encoded name.
pub const OFF_NAME: usize = 60;

/// File offset of the second copy of the data length, as this library
/// writes files: it always uses the 13-byte entry header form.
pub const OFF_DATALEN2: usize = 70;

/// File offset of the internal length prefix, for types that embed one,
/// as this library writes files.
pub const OFF_PREFIX: usize = 72;

/// The constant 11-byte file signature.
pub open spec fn spec_signature() -> Seq<u8> {
    seq![0x2au8, 0x2au8, 0x54u8, 0x49u8, 0x38u8, 0x33u8, 0x46u8, 0x2au8, 0x1au8, 0x0au8, 0x00u8]
}

/// The fixed 42-byte comment this library writes.
pub open spec fn spec_comment() -> Seq<u8> {
    seq![
        0x54u8, 0x49u8, 0x2du8, 0x38u8, 0x78u8, 0x20u8, 0x76u8, 0x61u8, 0x72u8, 0x69u8, 0x61u8,
        0x62u8, 0x6cu8, 0x65u8, 0x20u8, 0x77u8, 0x72u8, 0x69u8, 0x74u8, 0x65u8, 0x72u8, 0x20u8,
        0x62u8, 0x79u8, 0x20u8, 0x50u8, 0x65u8, 0x74u8, 0x65u8, 0x72u8, 0x20u8, 0x4du8, 0x61u8,
        0x72u8, 0x68u8, 0x65u8, 0x69u8, 0x6eu8, 0x65u8, 0x20u8, 0x20u8, 0x20u8,
    ]
}

/// The two bytes of `v` in little-endian order.
pub open spec fn le16(v: u16) -> Seq<u8> {
    seq![(v % 256) as u8, ((v / 256) as u16) as u8]
}

/// The 16-bit value stored little-endian in bytes `lo`, `hi`.
pub open spec fn rd16(lo: u8, hi: u8) -> u16 {
    (lo + 256 * (hi as int)) as u16
}

pub proof fn lemma_le16_rd16(v: u16)
    ensures
        le16(v).len() == 2,
        rd16(le16(v)[0], le16(v)[1]) == v,
{
}

/// Sum of all byte values of `s`, as an unbounded integer.
pub open spec fn byte_sum(s: Seq<u8>) -> int
    decreases s.len(),
{
    if s.len() == 0 {
        0
    } else {
        byte_sum(s.drop_last()) + s.last()
    }
}

/// The 16-bit additive checksum of `s`: its byte sum, wrapping.
pub open spec fn checksum16(s: Seq<u8>) -> u16 {
    (byte_sum(s) % 0x10000) as u16
}

pub proof fn lemma_byte_sum_bounds(s: Seq<u8>)
    ensures
        0 <= byte_sum(s) <= 255 * s.len(),
    decreases s.len(),
{
    if s.len() > 0 {
        lemma_byte_sum_bounds(s.drop_last());
    }
}

pub proof fn lemma_byte_sum_concat(a: Seq<u8>, b: Seq<u8>)
    ensures
        byte_sum(a + b) == byte_sum(a) + byte_sum(b),
    decreases b.len(),
{
    if b.len() == 0 {
        assert(a + b =~= a);
    } else {
        lemma_byte_sum_concat(a, b.drop_last());
        assert((a + b).drop_last() =~= a + b.drop_last());
        assert(byte_sum(a + b) == byte_sum(a + b.drop_last()) + b.last());
    }
}

pub proof fn lemma_byte_sum_update(s: Seq<u8>, i: int, v: u8)
    requires
        0 <= i < s.len(),
    ensures
        byte_sum(s.update(i, v)) == byte_sum(s) - s[i] + v,
    decreases s.len(),
{
    if i == s.len() - 1 {
        assert(s.update(i, v).drop_last() =~= s.drop_last());
        assert(s.update(i, v).last() == v);
    } else {
        lemma_byte_sum_update(s.drop_last(), i, v);
        assert(s.update(i, v).drop_last() =~= s.drop_last().update(i, v));
        assert(s.update(i, v).last() == s.last());
    }
}

/// Appending bytes to a checksummed span adds their sum, wrapping.
pub proof fn lemma_checksum_extend(s: Seq<u8>, t: Seq<u8>)
    ensures
        ((checksum16(s) + byte_sum(t)) % 0x10000) as u16 == checksum16(s + t),
{
    lemma_byte_sum_concat(s, t);
    lemma_byte_sum_bounds(s);
    lemma_byte_sum_bounds(t);
    let a = byte_sum(s);
    let b = byte_sum(t);
    let m = 0x10000int;
    assert((a % m + b % m) % m == (a + b) % m) by {
        vstd::arithmetic::div_mod::lemma_add_mod_noop(a, b, m);
    };
    assert((a % m + b % m) % m == (a % m + b) % m) by {
        vstd::arithmetic::div_mod::lemma_add_mod_noop_right(a % m, b, m);
    };
}

/// The byte sum of a two-byte sequence.
pub proof fn lemma_byte_sum_pair(a: u8, b: u8)
    ensures
        byte_sum(seq![a, b]) == a + b,
{
    let t = seq![a, b];
    assert(t.last() == b);
    assert(t.drop_last() =~= seq![a]);
    assert(byte_sum(t) == byte_sum(seq![a]) + b);
    assert(seq![a].last() == a);
    assert(seq![a].drop_last() =~= Seq::<u8>::empty());
    assert(byte_sum(seq![a]) == byte_sum(Seq::<u8>::empty()) + a);
    assert(byte_sum(Seq::<u8>::empty()) == 0);
}

/// Patching two zero placeholder bytes in a checksummed span adds the new
/// byte values to its checksum, wrapping: just as if they had been written
/// in place originally.
pub proof fn lemma_checksum_patch(s: Seq<u8>, i: int, a: u8, b: u8)
    requires
        0 <= i,
        i + 1 < s.len(),
        s[i] == 0,
        s[i + 1] == 0,
    ensures
        ((checksum16(s) + byte_sum(seq![a, b])) % 0x10000) as u16 == checksum16(
            s.update(i, a).update(i + 1, b),
        ),
{
    let s2 = s.update(i, a).update(i + 1, b);
    lemma_byte_sum_update(s, i, a);
    lemma_byte_sum_update(s.update(i, a), i + 1, b);
    lemma_byte_sum_pair(a, b);
    assert(byte_sum(s2) == byte_sum(s) + a + b);
    lemma_byte_sum_bounds(s);
    lemma_byte_sum_bounds(s2);
    let x = byte_sum(s);
    let m = 0x10000int;
    assert((x % m + (a + b)) % m == (x + (a + b)) % m) by {
        vstd::arithmetic::div_mod::lemma_add_mod_noop(x, a + b, m);
        vstd::arithmetic::div_mod::lemma_add_mod_noop_right(x % m, a + b, m);
        assert((a + b) % m == a + b);
    };
}

/// A single-byte change inside `s` changes its checksum.
pub proof fn lemma_checksum_flip(s: Seq<u8>, i: int, v: u8)
    requires
        0 <= i < s.len(),
        v != s[i],
    ensures
        checksum16(s.update(i, v)) != checksum16(s),
{
    lemma_byte_sum_update(s, i, v);
    lemma_byte_sum_bounds(s);
    lemma_byte_sum_bounds(s.update(i, v));
    let a = byte_sum(s);
    let b = byte_sum(s.update(i, v));
    assert(b == a - s[i] + v);
    assert(-255 <= b - a <= 255 && b - a != 0);
    assert(a % 0x10000 != b % 0x10000) by {
        vstd::arithmetic::div_mod::lemma_fundamental_div_mod(a, 0x10000);
        vstd::arithmetic::div_mod::lemma_fundamental_div_mod(b, 0x10000);
    };
}

/// The flags byte recorded for a variable: bit 0x80 marks archived placement.
pub open spec fn flags_byte(archived: bool) -> u8 {
    if archived {
        0x80u8
    } else {
        0u8
    }
}

/// Count of length-prefix bytes embedded in the on-wire payload of type `ty`.
pub open spec fn prefix_len(ty: VariableType) -> int {
    if ty.spec_has_length_prefix() {
        2
    } else {
        0
    }
}

/// The value of both data-length fields for a user payload of `n` bytes:
/// the on-wire payload count, including any internal length prefix.
pub open spec fn data_len(ty: VariableType, payload: Seq<u8>) -> int {
    payload.len() + prefix_len(ty)
}

/// The data section this library writes for one variable, from the entry
/// header length field through the end of the payload. `name` is the 8-byte
/// encoded name. This is exactly the span the trailing checksum covers.
pub open spec fn var_body(
    ty: VariableType,
    name: Seq<u8>,
    archived: bool,
    payload: Seq<u8>,
) -> Seq<u8> {
    let dl = data_len(ty, payload) as u16;
    seq![0x0du8, 0u8] + le16(dl) + seq![ty.spec_code()] + name + seq![
        0u8,
        flags_byte(archived),
    ] + le16(dl) + (if ty.spec_has_length_prefix() {
        le16(payload.len() as u16)
    } else {
        Seq::<u8>::empty()
    }) + payload
}

/// One complete variable file as this library writes it, for a user payload
/// of at most [`MAX_DATA`] minus prefix bytes.
pub open spec fn var_file(
    ty: VariableType,
    name: Seq<u8>,
    archived: bool,
    payload: Seq<u8>,
) -> Seq<u8> {
    let body = var_body(ty, name, archived, payload);
    spec_signature() + spec_comment() + le16(body.len() as u16) + body + le16(checksum16(body))
}

// ----- name validation -----

/// Whether `c` may appear at position `i` of a variable name: uppercase
/// A-Z and the Greek letter theta anywhere, digits only after the first
/// position.
pub open spec fn is_name_char(c: char, i: int) -> bool {
    (65 <= c as u32 && c as u32 <= 90) || c as u32 == 0x3b8 || (i >= 1 && 48 <= c as u32 && c
        as u32 <= 57)
}

/// Whether `s` is a legal variable name. Only the first eight characters
/// count: longer names are truncated, not rejected.
pub open spec fn name_ok(s: Seq<char>) -> bool {
    forall|i: int| 0 <= i < s.len() && i < 8 ==> is_name_char(s[i], i)
}

/// The token byte a name character is stored as: theta becomes the token
/// 0x5b, everything else its ASCII code.
pub open spec fn name_byte(c: char) -> u8 {
    if c as u32 == 0x3b8 {
        0x5bu8
    } else {
        (c as u32) as u8
    }
}

/// The 8-byte encoded form of name `s`: the first eight characters encoded,
/// unused trailing positions zero-filled.
pub open spec fn padded_name(s: Seq<char>) -> Seq<u8> {
    Seq::new(8, |i: int| if i < s.len() && i < 8 { name_byte(s[i]) } else { 0u8 })
}

// ----- parsing: field readers over raw file bytes -----

/// The claimed data-section length, read from its fixed offset.
pub open spec fn p_dslen(d: Seq<u8>) -> u16 {
    rd16(d[53], d[54])
}

/// Position one past the data section: where the stored checksum begins.
pub open spec fn p_end(d: Seq<u8>) -> int {
    55 + p_dslen(d)
}

/// How many bytes of the data section can actually be read: the section is
/// capped both by its claimed length and by the bytes present.
pub open spec fn p_avail(d: Seq<u8>) -> int {
    if d.len() < p_end(d) {
        d.len() as int
    } else {
        p_end(d)
    }
}

/// The claimed entry header length.
pub open spec fn p_hdr(d: Seq<u8>) -> u16 {
    rd16(d[55], d[56])
}

/// The first copy of the data length.
pub open spec fn p_dl(d: Seq<u8>) -> u16 {
    rd16(d[57], d[58])
}

/// The type byte.
pub open spec fn p_code(d: Seq<u8>) -> u8 {
    d[59]
}

/// The raw 8-byte name.
pub open spec fn p_name(d: Seq<u8>) -> Seq<u8> {
    d.subrange(60, 68)
}

/// Whether the archived flag bit is set; entry headers of length 11 carry
/// no flags byte and mean not archived.
pub open spec fn p_archived(d: Seq<u8>) -> bool {
    p_hdr(d) == 13 && (d[69] & 0x80u8) != 0
}

/// Offset of the second copy of the data length, after the name and, for
/// 13-byte entry headers, the version and flags bytes.
pub open spec fn p_c2off(d: Seq<u8>) -> int {
    if p_hdr(d) == 13 {
        70
    } else {
        68
    }
}

/// The second copy of the data length.
pub open spec fn p_copy2(d: Seq<u8>) -> u16 {
    rd16(d[p_c2off(d)], d[p_c2off(d) + 1])
}

/// Offset of the internal length prefix, when the type carries one.
pub open spec fn p_prefix_off(d: Seq<u8>) -> int {
    p_c2off(d) + 2
}

/// The internal length prefix value.
pub open spec fn p_inner(d: Seq<u8>) -> u16 {
    rd16(d[p_prefix_off(d)], d[p_prefix_off(d) + 1])
}

/// The variable type named by the type byte, when recognized.
pub open spec fn p_ty(d: Seq<u8>) -> Option<VariableType> {
    VariableType::spec_from_code(p_code(d))
}

/// Position of the first payload byte handed to the caller.
pub open spec fn p_payload_start(d: Seq<u8>) -> int {
    p_c2off(d) + 2 + (match p_ty(d) {
        Some(ty) => prefix_len(ty),
        None => 0,
    })
}

/// The payload length reported to the caller: the data length, minus the
/// two internal prefix bytes for types that embed one.
pub open spec fn p_reported_len(d: Seq<u8>) -> u16 {
    if p_ty(d) matches Some(ty) && ty.spec_has_length_prefix() {
        (p_dl(d) - 2) as u16
    } else {
        p_dl(d)
    }
}

// ----- parsing: the checks, in the order a reader makes them -----

/// The signature bytes are present and correct.
pub open spec fn ok_signature(d: Seq<u8>) -> bool {
    d.len() >= 11 && d.subrange(0, 11) == spec_signature()
}

/// The comment and data-section length fields are present.
pub open spec fn ok_head(d: Seq<u8>) -> bool {
    d.len() >= 55
}

/// The entry header length can be read and is 11 or 13.
pub open spec fn ok_hdr(d: Seq<u8>) -> bool {
    p_avail(d) >= 57 && (p_hdr(d) == 11 || p_hdr(d) == 13)
}

/// The data length can be read and tallies with the data-section length:
/// the section holds the entry header length field, both data length
/// fields, and the header's own bytes around the payload.
pub open spec fn ok_dl(d: Seq<u8>) -> bool {
    p_avail(d) >= 59 && p_dl(d) + p_hdr(d) + 4 == p_dslen(d)
}

/// The type byte can be read and names a type with a known layout.
pub open spec fn ok_ty(d: Seq<u8>) -> bool {
    p_avail(d) >= 60 && (p_ty(d) matches Some(ty) && ty.spec_layout_known())
}

/// The name, and the version and flags bytes when present, can be read.
pub open spec fn ok_name(d: Seq<u8>) -> bool {
    p_avail(d) >= 68 && (p_hdr(d) == 13 ==> p_avail(d) >= 70)
}

/// The second data length can be read and equals the first.
pub open spec fn ok_copy2(d: Seq<u8>) -> bool {
    p_avail(d) >= p_c2off(d) + 2 && p_copy2(d) == p_dl(d)
}

/// For prefixed types: the internal prefix can be read and is the data
/// length minus its own two bytes.
pub open spec fn ok_prefix(d: Seq<u8>) -> bool {
    p_ty(d) matches Some(ty) && ty.spec_has_length_prefix() ==> p_avail(d) >= p_prefix_off(d) + 2
        && p_dl(d) == p_inner(d) + 2
}

/// Every structural check a reader makes on construction.
pub open spec fn parse_ok(d: Seq<u8>) -> bool {
    ok_signature(d) && ok_head(d) && ok_hdr(d) && ok_dl(d) && ok_ty(d) && ok_name(d) && ok_copy2(d)
        && ok_prefix(d)
}

// ----- finishing: the checksum comparison -----

/// Whether the whole data section and the stored checksum are present.
pub open spec fn finish_readable(d: Seq<u8>) -> bool {
    d.len() >= p_end(d) + 2
}

/// The checksum a reader computes: the additive sum of the data section.
pub open spec fn computed_checksum(d: Seq<u8>) -> u16 {
    checksum16(d.subrange(55, p_end(d)))
}

/// The checksum stored after the data section.
pub open spec fn stored_checksum(d: Seq<u8>) -> u16 {
    rd16(d[p_end(d)], d[p_end(d) + 1])
}

/// Whether the stored checksum matches the recomputed one.
pub open spec fn checksum_ok(d: Seq<u8>) -> bool {
    computed_checksum(d) == stored_checksum(d)
}

} // verus!
