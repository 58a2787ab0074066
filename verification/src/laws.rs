//! Laws of the file format: what holds of every file this library writes.
use vstd::prelude::*;

use crate::layout::{
    checksum16, checksum_ok, computed_checksum, data_len, finish_readable, flags_byte, le16,
    lemma_checksum_flip, lemma_le16_rd16, name_ok, ok_copy2, ok_dl, ok_hdr, ok_head, ok_name,
    ok_prefix, ok_signature, ok_ty, p_archived, p_avail, p_c2off, p_code, p_copy2, p_dl, p_dslen,
    p_end, p_hdr, p_inner, p_name, p_payload_start, p_prefix_off, p_reported_len, p_ty, padded_name,
    parse_ok, prefix_len, rd16, spec_comment, spec_signature, stored_checksum, var_body, var_file,
    MAX_DATA,
};
use crate::VariableType;

verus! {

/// Every type byte maps back to the type it identifies.
pub proof fn lemma_code_round_trip(ty: VariableType)
    ensures
        VariableType::spec_from_code(ty.spec_code()) == Some(ty),
{
}

/// Where each field of a written file sits, and what it holds: the
/// ground both round-trip and length-invariant laws stand on.
proof fn lemma_var_file_fields(ty: VariableType, name8: Seq<u8>, archived: bool, payload: Seq<u8>)
    requires
        ty.spec_layout_known(),
        name8.len() == 8,
        data_len(ty, payload) <= MAX_DATA,
    ensures
        ({
            let f = var_file(ty, name8, archived, payload);
            let body = var_body(ty, name8, archived, payload);
            let dl = data_len(ty, payload);
            &&& f.len() == 74 + prefix_len(ty) + payload.len()
            &&& body.len() == 17 + dl
            &&& f.subrange(0, 11) == spec_signature()
            &&& f.subrange(11, 53) == spec_comment()
            &&& p_dslen(f) == 17 + dl
            &&& p_end(f) == f.len() - 2
            &&& p_avail(f) == p_end(f)
            &&& p_hdr(f) == 13
            &&& p_dl(f) == dl
            &&& p_code(f) == ty.spec_code()
            &&& p_ty(f) == Some(ty)
            &&& p_name(f) == name8
            &&& f[69] == flags_byte(archived)
            &&& p_archived(f) == archived
            &&& p_c2off(f) == 70
            &&& p_copy2(f) == dl
            &&& (ty.spec_has_length_prefix() ==> p_inner(f) == payload.len())
            &&& p_payload_start(f) == 72 + prefix_len(ty)
            &&& f.subrange(p_payload_start(f), p_end(f)) == payload
            &&& f.subrange(55, p_end(f)) == body
            &&& computed_checksum(f) == checksum16(body)
            &&& stored_checksum(f) == checksum16(body)
        }),
{
    let f = var_file(ty, name8, archived, payload);
    let body = var_body(ty, name8, archived, payload);
    let dl = data_len(ty, payload);
    let dlu = (payload.len() + prefix_len(ty)) as u16;
    let pre = prefix_len(ty);
    let cs = checksum16(body);

    assert(body.len() == 17 + dl);
    assert(f.len() == 57 + body.len());

    assert(f.subrange(0, 11) =~= spec_signature());
    assert(f.subrange(11, 53) =~= spec_comment());

    assert forall|j: int| 0 <= j < body.len() implies f[55 + j] == body[j] by {}
    assert(f[53] == le16((17 + dl) as u16)[0]);
    assert(f[54] == le16((17 + dl) as u16)[1]);
    lemma_le16_rd16((17 + dl) as u16);
    assert(p_dslen(f) == 17 + dl);
    assert(p_end(f) == f.len() - 2);

    // The data section, byte by byte.
    assert(body[0] == 0x0d && body[1] == 0);
    assert(body[2] == le16(dlu)[0] && body[3] == le16(dlu)[1]);
    assert(body[4] == ty.spec_code());
    assert(forall|j: int| 0 <= j < 8 ==> body[5 + j] == name8[j]);
    assert(body[13] == 0 && body[14] == flags_byte(archived));
    assert(body[15] == le16(dlu)[0] && body[16] == le16(dlu)[1]);
    lemma_le16_rd16(dlu);
    assert(p_hdr(f) == rd16(0x0d, 0));
    assert(rd16(0x0d, 0) == 13);
    assert(p_dl(f) == dl);
    lemma_code_round_trip(ty);
    assert(p_name(f) =~= name8);
    assert(p_copy2(f) == dl);
    if ty.spec_has_length_prefix() {
        assert(body[17] == le16(payload.len() as u16)[0] && body[18] == le16(
            payload.len() as u16,
        )[1]);
        lemma_le16_rd16(payload.len() as u16);
        assert(p_inner(f) == payload.len());
    }
    assert(0x80u8 & 0x80u8 != 0u8) by (bit_vector);
    assert(0u8 & 0x80u8 == 0u8) by (bit_vector);
    assert(p_archived(f) == archived);

    assert(forall|j: int| 0 <= j < payload.len() ==> body[17 + pre + j] == payload[j]);
    assert(f.subrange(p_payload_start(f), p_end(f)) =~= payload);
    assert(f.subrange(55, p_end(f)) =~= body);

    assert(f[p_end(f)] == le16(cs)[0] && f[p_end(f) + 1] == le16(cs)[1]);
    lemma_le16_rd16(cs);
    assert(stored_checksum(f) == cs);
}

/// Round trip: a file written for any legal name, any type with a known
/// layout, either archived flag and any payload that fits, passes every
/// structural check of the reader; the parsed type, name, archived flag
/// and payload are the ones written; and the stored checksum matches the
/// recomputed one.
pub proof fn lemma_round_trip(ty: VariableType, name: Seq<char>, archived: bool, payload: Seq<u8>)
    requires
        ty.spec_layout_known(),
        name_ok(name),
        data_len(ty, payload) <= MAX_DATA,
    ensures
        ({
            let f = var_file(ty, padded_name(name), archived, payload);
            &&& parse_ok(f)
            &&& p_ty(f) == Some(ty)
            &&& p_name(f) == padded_name(name)
            &&& p_archived(f) == archived
            &&& p_reported_len(f) == payload.len()
            &&& f.subrange(p_payload_start(f), p_avail(f)) == payload
            &&& finish_readable(f)
            &&& checksum_ok(f)
        }),
{
    let name8 = padded_name(name);
    let f = var_file(ty, name8, archived, payload);
    lemma_var_file_fields(ty, name8, archived, payload);
    assert(ok_signature(f));
    assert(ok_head(f));
    assert(ok_hdr(f));
    assert(ok_dl(f));
    assert(ok_ty(f));
    assert(ok_name(f));
    assert(ok_copy2(f));
    assert(ok_prefix(f));
}

/// Length invariant: in the bytes of any successfully written file, the
/// two data-length copies agree, and for prefix-bearing types the
/// embedded prefix equals the payload length, which is the data length
/// minus the prefix's own two bytes.
pub proof fn lemma_length_fields(ty: VariableType, name8: Seq<u8>, archived: bool, payload: Seq<
    u8,
>)
    requires
        ty.spec_layout_known(),
        name8.len() == 8,
        data_len(ty, payload) <= MAX_DATA,
    ensures
        ({
            let f = var_file(ty, name8, archived, payload);
            &&& rd16(f[57], f[58]) == data_len(ty, payload)
            &&& rd16(f[70], f[71]) == data_len(ty, payload)
            &&& rd16(f[57], f[58]) == rd16(f[70], f[71])
            &&& (ty.spec_has_length_prefix() ==> rd16(f[72], f[73]) == data_len(ty, payload) - 2)
        }),
{
    lemma_var_file_fields(ty, name8, archived, payload);
    let f = var_file(ty, name8, archived, payload);
    assert(rd16(f[57], f[58]) == p_dl(f));
    assert(rd16(f[70], f[71]) == p_copy2(f));
    if ty.spec_has_length_prefix() {
        assert(rd16(f[72], f[73]) == p_inner(f));
        assert(data_len(ty, payload) - 2 == payload.len());
    }
}

/// Checksum invariant, detection half: changing any single byte between
/// the entry-header-length field and the end of the payload leaves the
/// stored checksum in place but changes the computed one, so a file that
/// passed validation fails it after the flip.
pub proof fn lemma_flip_detected(d: Seq<u8>, i: int, b: u8)
    requires
        55 <= i < p_end(d),
        p_end(d) + 2 <= d.len(),
        b != d[i],
    ensures
        stored_checksum(d.update(i, b)) == stored_checksum(d),
        computed_checksum(d.update(i, b)) != computed_checksum(d),
        checksum_ok(d) ==> !checksum_ok(d.update(i, b)),
{
    let d2 = d.update(i, b);
    assert(p_dslen(d2) == p_dslen(d));
    assert(p_end(d2) == p_end(d));
    assert(stored_checksum(d2) == stored_checksum(d));
    assert(d2.subrange(55, p_end(d)) =~= d.subrange(55, p_end(d)).update(i - 55, b));
    lemma_checksum_flip(d.subrange(55, p_end(d)), i - 55, b);
}

/// Checksum invariant, tolerance half: changing a byte of the comment
/// leaves every structural check, every parsed field and both checksums
/// exactly as they were — a valid file stays valid.
pub proof fn lemma_comment_flip_harmless(d: Seq<u8>, i: int, b: u8)
    requires
        11 <= i < 53,
        parse_ok(d),
        finish_readable(d),
    ensures
        ({
            let d2 = d.update(i, b);
            &&& parse_ok(d2) == parse_ok(d)
            &&& p_ty(d2) == p_ty(d)
            &&& p_name(d2) == p_name(d)
            &&& p_archived(d2) == p_archived(d)
            &&& p_reported_len(d2) == p_reported_len(d)
            &&& computed_checksum(d2) == computed_checksum(d)
            &&& stored_checksum(d2) == stored_checksum(d)
            &&& checksum_ok(d2) == checksum_ok(d)
            &&& finish_readable(d2) == finish_readable(d)
        }),
{
    let d2 = d.update(i, b);
    assert(d2.subrange(0, 11) =~= d.subrange(0, 11));
    assert(p_dslen(d2) == p_dslen(d));
    assert(p_name(d2) =~= p_name(d));
    assert(d2.subrange(55, p_end(d)) =~= d.subrange(55, p_end(d)));
    assert(ok_signature(d2) == ok_signature(d));
}

/// Checksum invariant, behavioral half: a flip inside the name, the
/// version and flags bytes, or the payload leaves every structural check
/// standing — the reader still accepts the file — while the checksum
/// comparison at finish now fails.
pub proof fn lemma_flip_still_parses(d: Seq<u8>, i: int, b: u8)
    requires
        parse_ok(d),
        finish_readable(d),
        b != d[i],
        (60 <= i < 68) || (p_hdr(d) == 13 && 68 <= i < 70) || (p_payload_start(d) <= i < p_end(
            d,
        )),
    ensures
        parse_ok(d.update(i, b)),
        stored_checksum(d.update(i, b)) == stored_checksum(d),
        computed_checksum(d.update(i, b)) != computed_checksum(d),
        checksum_ok(d) ==> !checksum_ok(d.update(i, b)),
{
    let d2 = d.update(i, b);
    assert(p_dslen(d2) == p_dslen(d));
    assert(p_end(d2) == p_end(d));
    assert(p_avail(d2) == p_avail(d));
    assert(p_hdr(d2) == p_hdr(d));
    assert(p_dl(d2) == p_dl(d));
    assert(p_code(d2) == p_code(d));
    assert(p_c2off(d2) == p_c2off(d));
    assert(55 <= p_payload_start(d));
    assert(p_copy2(d2) == p_copy2(d));
    assert((p_ty(d) matches Some(ty) && ty.spec_has_length_prefix()) ==> p_inner(d2) == p_inner(
        d,
    ));
    assert(d2.subrange(0, 11) =~= d.subrange(0, 11));
    assert(ok_signature(d2));
    assert(ok_hdr(d2) && ok_dl(d2) && ok_ty(d2) && ok_name(d2) && ok_copy2(d2) && ok_prefix(d2));
    lemma_flip_detected(d, i, b);
}

} // verus!
