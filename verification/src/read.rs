//! Reading one variable file.
use vstd::prelude::*;

use crate::layout::{
    byte_sum, checksum16, checksum_ok, computed_checksum, finish_readable, lemma_byte_sum_pair,
    lemma_checksum_extend, p_archived, p_avail, p_c2off, p_code, p_copy2, p_dl, p_dslen, p_end,
    p_hdr, p_inner, p_name, p_payload_start, p_prefix_off, p_reported_len, p_ty, parse_ok, rd16,
    spec_signature, stored_checksum,
};
use crate::VariableType;

verus! {

/// Errors raised while parsing a variable file.
#[derive(Debug, PartialEq, Eq)]
pub enum ReadError {
    /// The 11-byte signature was wrong; carries the bytes found.
    InvalidSignature(Vec<u8>),
    /// The entry header length field held something other than 11 or 13.
    UnknownHeaderLength(u16),
    /// Two length fields that must agree did not; carries both values.
    DataLengthMismatch(u16, u16),
    /// The type byte does not name a variable type with a known layout.
    UnrecognizedType(u8),
    /// The input ended before a field that had to be present.
    UnexpectedEof,
}

/// The byte sum of a one-byte sequence.
proof fn lemma_byte_sum_single(b: u8)
    ensures
        byte_sum(seq![b]) == b,
{
    assert(seq![b].last() == b);
    assert(seq![b].drop_last() =~= Seq::<u8>::empty());
    assert(byte_sum(seq![b]) == byte_sum(Seq::<u8>::empty()) + b);
    assert(byte_sum(Seq::<u8>::empty()) == 0);
}

/// Exactly which error `Reader::new` returns for an input it rejects:
/// the checks run in reading order and the first to fail decides.
pub open spec fn new_err(d: Seq<u8>, e: ReadError) -> bool {
    if d.len() < 11 {
        e == ReadError::UnexpectedEof
    } else if d.subrange(0, 11) != spec_signature() {
        e matches ReadError::InvalidSignature(s) && s@ == d.subrange(0, 11)
    } else if d.len() < 55 {
        e == ReadError::UnexpectedEof
    } else if p_avail(d) < 57 {
        e == ReadError::UnexpectedEof
    } else if p_hdr(d) != 11 && p_hdr(d) != 13 {
        e == ReadError::UnknownHeaderLength(p_hdr(d))
    } else if p_avail(d) < 59 {
        e == ReadError::UnexpectedEof
    } else if p_dl(d) + p_hdr(d) + 4 != p_dslen(d) {
        e == ReadError::DataLengthMismatch(((p_dl(d) + p_hdr(d) + 4) % 0x10000) as u16, p_dslen(d))
    } else if p_avail(d) < 60 {
        e == ReadError::UnexpectedEof
    } else if !(p_ty(d) matches Some(ty) && ty.spec_layout_known()) {
        e == ReadError::UnrecognizedType(p_code(d))
    } else if p_avail(d) < 68 || (p_hdr(d) == 13 && p_avail(d) < 70) {
        e == ReadError::UnexpectedEof
    } else if p_avail(d) < p_c2off(d) + 2 {
        e == ReadError::UnexpectedEof
    } else if p_copy2(d) != p_dl(d) {
        e == ReadError::DataLengthMismatch(p_dl(d), p_copy2(d))
    } else if (p_ty(d) matches Some(ty) && ty.spec_has_length_prefix()) && p_avail(d)
        < p_prefix_off(d) + 2 {
        e == ReadError::UnexpectedEof
    } else if (p_ty(d) matches Some(ty) && ty.spec_has_length_prefix()) && p_dl(d) != p_inner(d)
        + 2 {
        e == ReadError::DataLengthMismatch(p_dl(d), p_inner(d))
    } else {
        false
    }
}

/// Reads sequentially from a byte buffer, accumulating the additive
/// checksum of everything read. Reads are capped at `end`, the close of
/// the data section: the span the checksum is defined over starts right
/// after the data-section length field and the cap keeps every read, and
/// so the checksum, inside it.
struct ChecksumReader {
    data: Vec<u8>,
    pos: usize,
    end: usize,
    checksum: u16,
}

impl ChecksumReader {
    /// How far reads may go: the section cap, or the data if it ends short.
    spec fn avail(self) -> int {
        if self.data@.len() < self.end {
            self.data@.len() as int
        } else {
            self.end as int
        }
    }

    /// The checksum tracks exactly the bytes read so far, which start at
    /// the fixed start of the checksummed span.
    spec fn wf(self) -> bool {
        &&& 55 <= self.pos
        &&& self.pos <= self.avail()
        &&& self.checksum == checksum16(self.data@.subrange(55, self.pos as int))
    }

    /// Read one byte, or report that none is left within the cap.
    fn read8(&mut self) -> (r: Result<u8, ReadError>)
        requires
            old(self).wf(),
        ensures
            final(self).wf(),
            final(self).data == old(self).data,
            final(self).end == old(self).end,
            r is Ok <==> old(self).pos + 1 <= old(self).avail(),
            r matches Ok(b) ==> b == old(self).data@[old(self).pos as int] && final(self).pos
                == old(self).pos + 1,
            r is Err ==> *final(self) == *old(self) && r == Err::<u8, ReadError>(
                ReadError::UnexpectedEof,
            ),
    {
        if self.pos >= self.end || self.pos >= self.data.len() {
            return Err(ReadError::UnexpectedEof);
        }
        let b = self.data[self.pos];
        self.checksum = self.checksum.wrapping_add(b as u16);
        self.pos = self.pos + 1;
        proof {
            let d = self.data@;
            let p0 = old(self).pos as int;
            lemma_byte_sum_single(b);
            lemma_checksum_extend(d.subrange(55, p0), seq![b]);
            assert(d.subrange(55, p0) + seq![b] =~= d.subrange(55, p0 + 1));
        }
        Ok(b)
    }

    /// Read a 16-bit little-endian value, or report the input ended.
    fn read16(&mut self) -> (r: Result<u16, ReadError>)
        requires
            old(self).wf(),
        ensures
            final(self).wf(),
            final(self).data == old(self).data,
            final(self).end == old(self).end,
            r is Ok <==> old(self).pos + 2 <= old(self).avail(),
            r matches Ok(v) ==> v == rd16(
                old(self).data@[old(self).pos as int],
                old(self).data@[old(self).pos + 1],
            ) && final(self).pos == old(self).pos + 2,
            r is Err ==> *final(self) == *old(self) && r == Err::<u16, ReadError>(
                ReadError::UnexpectedEof,
            ),
    {
        if self.end - self.pos < 2 || self.data.len() - self.pos < 2 {
            return Err(ReadError::UnexpectedEof);
        }
        let lo = self.data[self.pos];
        let hi = self.data[self.pos + 1];
        self.checksum = self.checksum.wrapping_add(lo as u16).wrapping_add(hi as u16);
        self.pos = self.pos + 2;
        proof {
            let d = self.data@;
            let p0 = old(self).pos as int;
            lemma_byte_sum_pair(lo, hi);
            lemma_checksum_extend(d.subrange(55, p0), seq![lo, hi]);
            assert(d.subrange(55, p0) + seq![lo, hi] =~= d.subrange(55, p0 + 2));
            assert((((old(self).checksum + lo) % 0x10000) + hi) % 0x10000 == (old(self).checksum
                + (lo + hi)) % 0x10000) by {
                vstd::arithmetic::div_mod::lemma_add_mod_noop_right(
                    old(self).checksum + lo,
                    0,
                    0x10000,
                );
                vstd::arithmetic::div_mod::lemma_add_mod_noop(
                    old(self).checksum + lo,
                    hi as int,
                    0x10000,
                );
                assert((hi as int) % 0x10000 == hi as int);
            };
        }
        Ok(lo as u16 + (hi as u16) * 256)
    }

    /// Read exactly `n` bytes, known to be available.
    fn read_bytes(&mut self, n: usize) -> (r: Vec<u8>)
        requires
            old(self).wf(),
            old(self).pos + n <= old(self).avail(),
        ensures
            final(self).wf(),
            final(self).data == old(self).data,
            final(self).end == old(self).end,
            final(self).pos == old(self).pos + n,
            r@ == old(self).data@.subrange(old(self).pos as int, old(self).pos + n),
    {
        let mut out: Vec<u8> = Vec::new();
        let mut i: usize = 0;
        while i < n
            invariant
                self.wf(),
                self.data == old(self).data,
                self.end == old(self).end,
                i <= n,
                old(self).pos + n <= old(self).avail(),
                self.pos == old(self).pos + i,
                out@ == old(self).data@.subrange(old(self).pos as int, old(self).pos + i),
            decreases n - i,
        {
            let b = self.data[self.pos];
            self.checksum = self.checksum.wrapping_add(b as u16);
            self.pos = self.pos + 1;
            out.push(b);
            proof {
                let d = self.data@;
                let p0 = (old(self).pos + i) as int;
                lemma_byte_sum_single(b);
                lemma_checksum_extend(d.subrange(55, p0), seq![b]);
                assert(d.subrange(55, p0) + seq![b] =~= d.subrange(55, p0 + 1));
                assert(out@ =~= old(self).data@.subrange(old(self).pos as int, p0 + 1));
            }
            i = i + 1;
        }
        out
    }

    /// Read up to `n` bytes: fewer only when the cap cuts the read short.
    fn read_upto(&mut self, n: usize) -> (r: Vec<u8>)
        requires
            old(self).wf(),
        ensures
            final(self).wf(),
            final(self).data == old(self).data,
            final(self).end == old(self).end,
            final(self).pos == old(self).pos + r@.len(),
            r@ == old(self).data@.subrange(old(self).pos as int, final(self).pos as int),
            r@.len() == if n <= old(self).avail() - old(self).pos {
                n as int
            } else {
                old(self).avail() - old(self).pos
            },
    {
        let cap = if self.end < self.data.len() {
            self.end
        } else {
            self.data.len()
        };
        let left = cap - self.pos;
        let k = if n <= left {
            n
        } else {
            left
        };
        self.read_bytes(k)
    }
}

/// Parses one variable file from a byte buffer.
///
/// Construction validates the signature, the entry header, the three
/// redundant length fields and the type byte; the payload is then read
/// through [`read`](Reader::read), and [`finish`](Reader::finish)
/// validates the trailing checksum against everything the data section
/// held.
pub struct Reader {
    input: ChecksumReader,
    comment: Vec<u8>,
    ty: VariableType,
    name: Vec<u8>,
    archived: bool,
    data_len: u16,
}

impl Reader {
    /// The whole input buffer this reader was built over.
    pub closed spec fn source(self) -> Seq<u8> {
        self.input.data@
    }

    /// Where the next payload read starts.
    pub closed spec fn pos(self) -> int {
        self.input.pos as int
    }

    /// Internal consistency: the input parsed successfully, the cached
    /// fields hold the parsed values, the read position sits inside the
    /// payload, and the checksum tracks everything read so far.
    pub closed spec fn wf(self) -> bool {
        let d = self.input.data@;
        &&& parse_ok(d)
        &&& self.input.wf()
        &&& self.input.end == p_end(d)
        &&& p_payload_start(d) <= self.input.pos
        &&& self.ty == p_ty(d)->Some_0
        &&& self.name@ == p_name(d)
        &&& self.archived == p_archived(d)
        &&& self.data_len == p_reported_len(d)
        &&& self.comment@ == d.subrange(11, 53)
    }

    /// Parse the fixed header and entry header of `data`.
    ///
    /// Succeeds exactly on inputs that pass every structural check; the
    /// error identifies the first check that failed.
    pub fn new(data: Vec<u8>) -> (r: Result<Reader, ReadError>)
        ensures
            r is Ok <==> parse_ok(data@),
            r matches Ok(rd) ==> {
                &&& rd.wf()
                &&& rd.source() == data@
                &&& rd.pos() == p_payload_start(data@)
            },
            r matches Err(e) ==> new_err(data@, e),
    {
        let sig: Vec<u8> = vec![
            0x2au8, 0x2au8, 0x54u8, 0x49u8, 0x38u8, 0x33u8, 0x46u8, 0x2au8, 0x1au8, 0x0au8, 0x00u8,
        ];
        assert(sig@ =~= spec_signature());
        if data.len() < 11 {
            return Err(ReadError::UnexpectedEof);
        }
        let mut j: usize = 0;
        let mut sig_ok: bool = true;
        while j < 11
            invariant
                j <= 11,
                data@.len() >= 11,
                sig@ =~= spec_signature(),
                sig@.len() == 11,
                sig_ok == (forall|k: int| 0 <= k < j ==> data@[k] == spec_signature()[k]),
            decreases 11 - j,
        {
            if data[j] != sig[j] {
                sig_ok = false;
            }
            j += 1;
        }
        proof {
            if sig_ok {
                assert(data@.subrange(0, 11int) =~= spec_signature());
            } else {
                if data@.subrange(0, 11int) == spec_signature() {
                    assert(forall|k: int|
                        0 <= k < 11 ==> data@[k] == #[trigger] data@.subrange(0, 11int)[k]);
                    assert(false);
                }
            }
        }
        if !sig_ok {
            let found = slice_head(data.as_slice(), 11);
            return Err(ReadError::InvalidSignature(found));
        }

        if data.len() < 55 {
            return Err(ReadError::UnexpectedEof);
        }
        let comment = slice_copy_range(data.as_slice(), 11, 53);
        let dslen = rd16_exec(data[53], data[54]);
        let end: usize = 55 + (dslen as usize);

        // Everything from here to the final checksum is checksummed, and
        // the data-section length caps how much can be read.
        let mut input = ChecksumReader { data, pos: 55, end, checksum: 0 };
        let ghost d = input.data@;
        proof {
            assert(d.subrange(55int, 55int) =~= Seq::<u8>::empty());
            assert(checksum16(Seq::<u8>::empty()) == 0) by {
                assert(byte_sum(Seq::<u8>::empty()) == 0);
            };
        }

        let entry_header_len = match input.read16() {
            Ok(v) => v,
            Err(e) => { return Err(e); },
        };
        if entry_header_len != 11 && entry_header_len != 13 {
            return Err(ReadError::UnknownHeaderLength(entry_header_len));
        }

        let data_len = match input.read16() {
            Ok(v) => v,
            Err(e) => { return Err(e); },
        };
        let tally: u32 = data_len as u32 + entry_header_len as u32 + 4;
        if tally != dslen as u32 {
            return Err(ReadError::DataLengthMismatch((tally % 0x10000) as u16, dslen));
        }

        let code = match input.read8() {
            Ok(v) => v,
            Err(e) => { return Err(e); },
        };
        let ty = match VariableType::from_code(code) {
            Some(ty) => ty,
            None => { return Err(ReadError::UnrecognizedType(code)); },
        };
        if !ty.layout_known() {
            return Err(ReadError::UnrecognizedType(code));
        }

        if input.end - input.pos < 8 || input.data.len() - input.pos < 8 {
            return Err(ReadError::UnexpectedEof);
        }
        let name = input.read_bytes(8);

        let archived = if entry_header_len == 13 {
            let _version = match input.read8() {
                Ok(v) => v,
                Err(e) => { return Err(e); },
            };
            let flag = match input.read8() {
                Ok(v) => v,
                Err(e) => { return Err(e); },
            };
            flag & 0x80u8 != 0
        } else {
            false
        };

        let data_len2 = match input.read16() {
            Ok(v) => v,
            Err(e) => { return Err(e); },
        };
        if data_len != data_len2 {
            return Err(ReadError::DataLengthMismatch(data_len, data_len2));
        }

        let mut reported = data_len;
        if ty.has_length_prefix() {
            // The inner length excludes the length field itself.
            let inner_len = match input.read16() {
                Ok(v) => v,
                Err(e) => { return Err(e); },
            };
            if data_len as u32 != inner_len as u32 + 2 {
                return Err(ReadError::DataLengthMismatch(data_len, inner_len));
            }
            // The reported length excludes the prefix, which this reader
            // already consumed on the caller's behalf.
            reported = data_len - 2;
        }

        Ok(Reader { input, comment, ty, name, archived, data_len: reported })
    }

    /// Return the number of bytes of variable data this reader contains.
    pub fn len(&self) -> (r: u16)
        requires
            self.wf(),
        ensures
            r == p_reported_len(self.source()),
    {
        self.data_len
    }

    /// Get the type of the variable returned via this reader.
    pub fn ty(&self) -> (r: VariableType)
        requires
            self.wf(),
        ensures
            Some(r) == p_ty(self.source()),
    {
        self.ty
    }

    /// Get the contained variable's raw 8-byte name.
    pub fn name(&self) -> (r: &Vec<u8>)
        requires
            self.wf(),
        ensures
            r@ == p_name(self.source()),
    {
        &self.name
    }

    /// Return whether the contained variable is marked as archived.
    pub fn is_archived(&self) -> (r: bool)
        requires
            self.wf(),
        ensures
            r == p_archived(self.source()),
    {
        self.archived
    }

    /// Return the file's 42-byte comment.
    pub fn comment(&self) -> (r: &Vec<u8>)
        requires
            self.wf(),
        ensures
            r@ == self.source().subrange(11, 53),
    {
        &self.comment
    }

    /// Read up to `n` payload bytes; fewer come back only at the end of
    /// the payload. Callers need not read the payload at all.
    pub fn read(&mut self, n: usize) -> (r: Vec<u8>)
        requires
            old(self).wf(),
        ensures
            final(self).wf(),
            final(self).source() == old(self).source(),
            r@ == old(self).source().subrange(old(self).pos(), final(self).pos()),
            final(self).pos() == old(self).pos() + r@.len(),
            r@.len() == if n <= p_avail(old(self).source()) - old(self).pos() {
                n as int
            } else {
                p_avail(old(self).source()) - old(self).pos()
            },
    {
        self.input.read_upto(n)
    }

    /// Read all remaining payload bytes.
    pub fn read_to_end(&mut self) -> (r: Vec<u8>)
        requires
            old(self).wf(),
        ensures
            final(self).wf(),
            final(self).source() == old(self).source(),
            r@ == old(self).source().subrange(old(self).pos(), p_avail(old(self).source())),
            final(self).pos() == p_avail(old(self).source()),
    {
        let cap = if self.input.end < self.input.data.len() {
            self.input.end
        } else {
            self.input.data.len()
        };
        let left = cap - self.input.pos;
        self.input.read_upto(left)
    }

    /// Finish reading the input, dropping unread data.
    ///
    /// Drains whatever payload the caller left unread — the checksum must
    /// cover it — then reads the stored checksum and compares. On a match
    /// the underlying buffer comes back; on a mismatch a [`FinishError`]
    /// carries both checksum values and still hands the buffer back, so a
    /// caller may salvage data from a corrupted file. The outer error
    /// means the input ended before the stored checksum.
    pub fn finish(self) -> (r: Result<Result<Vec<u8>, FinishError>, ReadError>)
        requires
            self.wf(),
        ensures
            r is Ok <==> finish_readable(self.source()),
            r is Err ==> r == Err::<Result<Vec<u8>, FinishError>, ReadError>(
                ReadError::UnexpectedEof,
            ),
            r matches Ok(inner) ==> {
                &&& inner matches Ok(v) ==> checksum_ok(self.source()) && v@ == self.source()
                &&& inner matches Err(fe) ==> {
                    &&& !checksum_ok(self.source())
                    &&& fe.computed() == computed_checksum(self.source())
                    &&& fe.stored() == stored_checksum(self.source())
                    &&& fe.source() == self.source()
                }
            },
    {
        let mut input = self.input;
        // Read to the end of the data section so the checksum covers
        // bytes the caller never asked for.
        let cap = if input.end < input.data.len() {
            input.end
        } else {
            input.data.len()
        };
        let left = cap - input.pos;
        let _rest = input.read_bytes(left);

        // Stop computing checksums and compare with the stored value,
        // which sits right after the data section.
        let ChecksumReader { data, pos, end, checksum } = input;
        if pos >= end && data.len() - pos >= 2 {
            let file_checksum = rd16_exec(data[pos], data[pos + 1]);
            proof {
                assert(p_avail(data@) == p_end(data@));
            }
            if checksum != file_checksum {
                Ok(
                    Err(
                        FinishError {
                            r: data,
                            computed_checksum: checksum,
                            read_checksum: file_checksum,
                        },
                    ),
                )
            } else {
                Ok(Ok(data))
            }
        } else {
            Err(ReadError::UnexpectedEof)
        }
    }
}

/// Copy the first `n` bytes of a slice.
fn slice_head(s: &[u8], n: usize) -> (r: Vec<u8>)
    requires
        n <= s@.len(),
    ensures
        r@ == s@.subrange(0, n as int),
{
    slice_copy_range(s, 0, n)
}

/// Copy bytes `from..to` of a slice.
fn slice_copy_range(s: &[u8], from: usize, to: usize) -> (r: Vec<u8>)
    requires
        from <= to <= s@.len(),
    ensures
        r@ == s@.subrange(from as int, to as int),
{
    let mut out: Vec<u8> = Vec::new();
    let mut i: usize = from;
    while i < to
        invariant
            from <= i <= to <= s@.len(),
            out@ == s@.subrange(from as int, i as int),
        decreases to - i,
    {
        out.push(s[i]);
        proof {
            assert(out@ =~= s@.subrange(from as int, i + 1));
        }
        i += 1;
    }
    out
}

/// Assemble a 16-bit value from its little-endian byte pair.
fn rd16_exec(lo: u8, hi: u8) -> (r: u16)
    ensures
        r == rd16(lo, hi),
{
    lo as u16 + (hi as u16) * 256
}

/// A checksum mismatch found by [`Reader::finish`]: the file is
/// structurally sound but its stored checksum disagrees with the bytes.
/// Carries the underlying buffer so the caller may still use the data.
#[derive(Debug)]
pub struct FinishError {
    r: Vec<u8>,
    /// The checksum computed over the data section as read.
    pub computed_checksum: u16,
    /// The checksum stored in the file.
    pub read_checksum: u16,
}

impl FinishError {
    /// The buffer the reader was built over.
    pub closed spec fn source(self) -> Seq<u8> {
        self.r@
    }

    /// The checksum computed over the data section as read.
    pub closed spec fn computed(self) -> u16 {
        self.computed_checksum
    }

    /// The checksum stored in the file.
    pub closed spec fn stored(self) -> u16 {
        self.read_checksum
    }

    /// Hand back the underlying buffer.
    pub fn into_reader(self) -> (r: Vec<u8>)
        ensures
            r@ == self.source(),
    {
        self.r
    }
}

} // verus!
