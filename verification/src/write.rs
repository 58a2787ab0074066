//! Writing one variable file.
use vstd::prelude::*;

use crate::layout::{
    byte_sum, checksum16, data_len, flags_byte, is_name_char, le16, lemma_byte_sum_bounds,
    lemma_checksum_extend, lemma_checksum_patch, name_byte, name_ok, padded_name, spec_comment,
    spec_signature, var_body, var_file, MAX_DATA, OFF_DATALEN1, OFF_DATALEN2, OFF_DSLEN,
    OFF_PREFIX,
};
use crate::VariableType;

verus! {

/// Errors a writer can raise.
#[derive(Debug, PartialEq, Eq, Structural)]
pub enum WriteError {
    /// Too much data was written to a variable, in excess of what the
    /// 16-bit length fields can represent; carries the byte count that
    /// would have been reached.
    TooLarge(usize),
    /// The variable name is not legal: names consist of uppercase A-Z,
    /// theta, and, after the first character, digits.
    InvalidName,
}

/// Appends bytes to a growing buffer while computing a simple additive
/// checksum. The checksum covers every byte written, or patched in place,
/// while `active` is true; toggling `active` keeps the accumulated value.
pub struct ChecksumWriter {
    /// The bytes written so far.
    pub w: Vec<u8>,
    /// 16-bit additive checksum of the bytes passed through while active.
    pub checksum: u16,
    /// Whether bytes currently written are added to the checksum.
    pub active: bool,
}

impl ChecksumWriter {
    /// Construct a writer around `w` that is initially inactive.
    pub fn new(w: Vec<u8>) -> (r: ChecksumWriter)
        ensures
            r.w == w,
            r.checksum == 0u16,
            !r.active,
    {
        ChecksumWriter { w, checksum: 0, active: false }
    }

    /// If true, add to the checksum for subsequent data.
    pub fn enable_checksums(&mut self, enable: bool)
        ensures
            final(self).w == old(self).w,
            final(self).checksum == old(self).checksum,
            final(self).active == enable,
    {
        self.active = enable;
    }

    /// Append `buf`, checksumming it when active.
    pub fn write(&mut self, buf: &[u8])
        ensures
            final(self).w@ == old(self).w@ + buf@,
            final(self).active == old(self).active,
            final(self).checksum == if old(self).active {
                ((old(self).checksum + byte_sum(buf@)) % 0x10000) as u16
            } else {
                old(self).checksum
            },
    {
        let ghost w0 = self.w@;
        let ghost c0 = self.checksum;
        let mut i: usize = 0;
        while i < buf.len()
            invariant
                i <= buf.len(),
                self.w@ == w0 + buf@.subrange(0, i as int),
                self.active == old(self).active,
                self.checksum == if self.active {
                    ((c0 + byte_sum(buf@.subrange(0, i as int))) % 0x10000) as u16
                } else {
                    c0
                },
            decreases buf.len() - i,
        {
            let b = buf[i];
            self.w.push(b);
            if self.active {
                proof {
                    let s = buf@.subrange(0, i + 1 as int);
                    assert(s.drop_last() =~= buf@.subrange(0, i as int));
                    assert(s.last() == buf@[i as int]);
                    lemma_byte_sum_bounds(buf@.subrange(0, i as int));
                }
                self.checksum = self.checksum.wrapping_add(b as u16);
            }
            i += 1;
            proof {
                assert(self.w@ =~= w0 + buf@.subrange(0, i as int));
            }
        }
        proof {
            assert(buf@.subrange(0, buf@.len() as int) =~= buf@);
        }
    }

    /// Overwrite `buf.len()` bytes in place at `pos`, checksumming the new
    /// bytes when active, exactly as if they had been written forward.
    pub fn write_at(&mut self, pos: usize, buf: &[u8])
        requires
            pos + buf.len() <= old(self).w.len(),
        ensures
            final(self).w@.len() == old(self).w@.len(),
            forall|j: int|
                0 <= j < old(self).w@.len() && !(pos <= j < pos + buf@.len()) ==> final(self).w@[j]
                    == old(self).w@[j],
            forall|j: int| 0 <= j < buf@.len() ==> final(self).w@[pos + j] == buf@[j],
            final(self).active == old(self).active,
            final(self).checksum == if old(self).active {
                ((old(self).checksum + byte_sum(buf@)) % 0x10000) as u16
            } else {
                old(self).checksum
            },
    {
        let ghost w0 = self.w@;
        let ghost c0 = self.checksum;
        let mut i: usize = 0;
        while i < buf.len()
            invariant
                i <= buf.len(),
                pos + buf.len() <= self.w.len(),
                self.w@.len() == w0.len(),
                forall|j: int|
                    0 <= j < w0.len() && !(pos <= j < pos + i) ==> self.w@[j] == w0[j],
                forall|j: int| 0 <= j < i ==> self.w@[pos + j] == buf@[j],
                self.active == old(self).active,
                self.checksum == if self.active {
                    ((c0 + byte_sum(buf@.subrange(0, i as int))) % 0x10000) as u16
                } else {
                    c0
                },
            decreases buf.len() - i,
        {
            let b = buf[i];
            self.w[pos + i] = b;
            if self.active {
                proof {
                    let s = buf@.subrange(0, i + 1 as int);
                    assert(s.drop_last() =~= buf@.subrange(0, i as int));
                    assert(s.last() == buf@[i as int]);
                    lemma_byte_sum_bounds(buf@.subrange(0, i as int));
                }
                self.checksum = self.checksum.wrapping_add(b as u16);
            }
            i += 1;
        }
        proof {
            assert(buf@.subrange(0, buf@.len() as int) =~= buf@);
        }
    }
}

/// The data section as it stands while a variable is still open: the
/// length fields and internal prefix are zero placeholders, patched only
/// on close, once the payload byte count is final.
pub open spec fn open_body(
    ty: VariableType,
    name: Seq<u8>,
    archived: bool,
    payload: Seq<u8>,
) -> Seq<u8> {
    seq![0x0du8, 0u8, 0u8, 0u8, ty.spec_code()] + name + seq![
        0u8,
        flags_byte(archived),
        0u8,
        0u8,
    ] + (if ty.spec_has_length_prefix() {
        seq![0u8, 0u8]
    } else {
        Seq::<u8>::empty()
    }) + payload
}

/// The whole buffer while a variable is still open: fixed header, zero
/// placeholder for the data-section length, then [`open_body`].
pub open spec fn open_file(
    ty: VariableType,
    name: Seq<u8>,
    archived: bool,
    payload: Seq<u8>,
) -> Seq<u8> {
    spec_signature() + spec_comment() + seq![0u8, 0u8] + open_body(ty, name, archived, payload)
}

/// The byte count a rejected write reports: the payload total it would
/// have reached, saturating at the machine word.
pub open spec fn attempted_total(db: int, len: int) -> usize {
    if db + len > usize::MAX {
        usize::MAX
    } else {
        (db + len) as usize
    }
}

/// Split a 16-bit value into its little-endian byte pair.
fn le16_pair(v: u16) -> (r: (u8, u8))
    ensures
        seq![r.0, r.1] == le16(v),
{
    ((v % 256) as u8, (v / 256) as u8)
}

/// Writes one complete TI variable file into an in-memory buffer.
///
/// Callers must call [`close`](Writer::close) when writing is complete in
/// order to obtain a valid file: the length fields are patched in, and the
/// checksum appended, only then.
pub struct Writer {
    w: ChecksumWriter,
    data_bytes: u16,
    ty: VariableType,
    name: Ghost<Seq<u8>>,
    archived: Ghost<bool>,
    payload: Ghost<Seq<u8>>,
}

impl Writer {
    /// The type this variable is written as.
    pub closed spec fn var_type(self) -> VariableType {
        self.ty
    }

    /// The 8-byte encoded name this variable is written under.
    pub closed spec fn name_bytes(self) -> Seq<u8> {
        self.name@
    }

    /// Whether the variable is marked for archive placement.
    pub closed spec fn is_archived(self) -> bool {
        self.archived@
    }

    /// The payload bytes accepted so far.
    pub closed spec fn payload(self) -> Seq<u8> {
        self.payload@
    }

    /// Internal consistency: the buffer holds the fixed header and the
    /// placeholder-form data section for the payload accepted so far, and
    /// the checksum tracks exactly the data section.
    pub closed spec fn wf(self) -> bool {
        &&& self.ty.spec_layout_known()
        &&& self.name@.len() == 8
        &&& data_len(self.ty, self.payload@) == self.data_bytes
        &&& self.data_bytes <= MAX_DATA
        &&& self.w.active
        &&& self.w.w@ == open_file(self.ty, self.name@, self.archived@, self.payload@)
        &&& self.w.checksum == checksum16(open_body(self.ty, self.name@, self.archived@, self.payload@))
    }

    /// Open a writer for one variable of the given type and name. The
    /// name is validated and encoded: illegal names are rejected with
    /// [`WriteError::InvalidName`] before anything is written. If
    /// `archived` is true the variable is marked for archive placement.
    pub fn new(ty: VariableType, name: &str, archived: bool) -> (r: Result<Writer, WriteError>)
        requires
            ty.spec_layout_known(),
        ensures
            r matches Ok(w) ==> {
                &&& name_ok(name@)
                &&& w.wf()
                &&& w.var_type() == ty
                &&& w.name_bytes() == padded_name(name@)
                &&& w.is_archived() == archived
                &&& w.payload() == Seq::<u8>::empty()
            },
            r matches Err(e) ==> !name_ok(name@) && e == WriteError::InvalidName,
            r is Ok <==> name_ok(name@),
    {
        // Validate the provided name, truncate to the maximum length and
        // translate theta to its token byte.
        let n_chars = name.unicode_len();
        let mut padded: Vec<u8> = vec![0u8, 0u8, 0u8, 0u8, 0u8, 0u8, 0u8, 0u8];
        assert(padded@ =~= seq![0u8, 0u8, 0u8, 0u8, 0u8, 0u8, 0u8, 0u8]);
        let mut i: usize = 0;
        while i < n_chars && i < 8
            invariant
                padded@.len() == 8,
                n_chars == name@.len(),
                i <= 8,
                i <= n_chars,
                forall|j: int| 0 <= j < i ==> is_name_char(name@[j], j),
                forall|j: int| 0 <= j < i ==> padded@[j] == name_byte(name@[j]),
                forall|j: int| i <= j < 8 ==> padded@[j] == 0u8,
            decreases n_chars - i,
        {
            let c = name.get_char(i);
            let u = c as u32;
            let legal = (65 <= u && u <= 90) || u == 0x3b8 || (i >= 1 && 48 <= u && u <= 57);
            if !legal {
                assert(!is_name_char(name@[i as int], i as int));
                return Err(WriteError::InvalidName);
            }
            padded[i] = if u == 0x3b8 { 0x5b } else { u as u8 };
            i += 1;
        }
        proof {
            assert(name_ok(name@));
            assert forall|j: int| 0 <= j < 8 implies padded@[j] == padded_name(name@)[j] by {
                if j >= i {
                    assert(i >= name@.len() || i >= 8);
                }
            }
            assert(padded@ =~= padded_name(name@));
        }

        // Constant signature, comment, and a zero placeholder for the
        // 16-bit data-section length.
        let head: Vec<u8> = vec![
            0x2au8, 0x2au8, 0x54u8, 0x49u8, 0x38u8, 0x33u8, 0x46u8, 0x2au8, 0x1au8, 0x0au8, 0x00u8,
            0x54u8, 0x49u8, 0x2du8, 0x38u8, 0x78u8, 0x20u8, 0x76u8, 0x61u8, 0x72u8, 0x69u8, 0x61u8,
            0x62u8, 0x6cu8, 0x65u8, 0x20u8, 0x77u8, 0x72u8, 0x69u8, 0x74u8, 0x65u8, 0x72u8, 0x20u8,
            0x62u8, 0x79u8, 0x20u8, 0x50u8, 0x65u8, 0x74u8, 0x65u8, 0x72u8, 0x20u8, 0x4du8, 0x61u8,
            0x72u8, 0x68u8, 0x65u8, 0x69u8, 0x6eu8, 0x65u8, 0x20u8, 0x20u8, 0x20u8, 0x00u8, 0x00u8,
        ];
        assert(head@ =~= spec_signature() + spec_comment() + seq![0u8, 0u8]);

        // Subsequent data is covered by the file checksum.
        let mut w = ChecksumWriter::new(head);
        w.enable_checksums(true);

        // Data section: entry header size, zero placeholder for the data
        // length, variable type, name, version and flags, and a zero
        // placeholder for the second data length.
        let ghost mut body: Seq<u8> = Seq::<u8>::empty();
        let lead: Vec<u8> = vec![0x0du8, 0u8, 0u8, 0u8, ty.code()];
        w.write(lead.as_slice());
        proof {
            lemma_checksum_extend(body, lead@);
            body = body + lead@;
        }
        w.write(padded.as_slice());
        proof {
            lemma_checksum_extend(body, padded@);
            body = body + padded@;
        }
        let tail: Vec<u8> = vec![0u8, if archived { 0x80u8 } else { 0u8 }, 0u8, 0u8];
        w.write(tail.as_slice());
        proof {
            lemma_checksum_extend(body, tail@);
            body = body + tail@;
        }

        // A prefixed type embeds a 2-byte length inside its payload; the
        // placeholder counts toward the data length patched in on close.
        let mut data_bytes: u16 = 0;
        if ty.has_length_prefix() {
            let pre: Vec<u8> = vec![0u8, 0u8];
            w.write(pre.as_slice());
            proof {
                lemma_checksum_extend(body, pre@);
                body = body + pre@;
            }
            data_bytes = 2;
        }

        let out = Writer {
            w,
            data_bytes,
            ty,
            name: Ghost(padded@),
            archived: Ghost(archived),
            payload: Ghost(Seq::<u8>::empty()),
        };
        proof {
            assert(body =~= open_body(ty, padded@, archived, Seq::<u8>::empty()));
            assert(out.w.w@ =~= open_file(ty, padded@, archived, Seq::<u8>::empty()));
        }
        Ok(out)
    }

    /// Append payload bytes to the variable.
    ///
    /// Fails with [`WriteError::TooLarge`] — leaving the writer unchanged —
    /// if the total payload would exceed what the 16-bit length fields can
    /// carry; otherwise all of `buf` is accepted and its length returned.
    pub fn write(&mut self, buf: &[u8]) -> (r: Result<usize, WriteError>)
        requires
            old(self).wf(),
        ensures
            final(self).wf(),
            final(self).var_type() == old(self).var_type(),
            final(self).name_bytes() == old(self).name_bytes(),
            final(self).is_archived() == old(self).is_archived(),
            r is Ok <==> data_len(old(self).var_type(), old(self).payload()) + buf@.len()
                <= MAX_DATA,
            r matches Ok(n) ==> n == buf@.len() && final(self).payload() == old(self).payload()
                + buf@,
            r matches Err(e) ==> *final(self) == *old(self) && e == WriteError::TooLarge(
                attempted_total(data_len(old(self).var_type(), old(self).payload()), buf@.len() as int),
            ),
    {
        // Verify total data size fits in the 16-bit fields where it needs
        // to go.
        let room = (MAX_DATA - self.data_bytes) as usize;
        if buf.len() > room {
            return Err(WriteError::TooLarge((self.data_bytes as usize).saturating_add(buf.len())));
        }

        self.w.write(buf);
        proof {
            let t = old(self).ty;
            let nm = old(self).name@;
            let ar = old(self).archived@;
            let p0 = old(self).payload@;
            lemma_checksum_extend(open_body(t, nm, ar, p0), buf@);
            assert(open_body(t, nm, ar, p0) + buf@ =~= open_body(t, nm, ar, p0 + buf@));
            assert(open_file(t, nm, ar, p0) + buf@ =~= open_file(t, nm, ar, p0 + buf@));
        }
        self.data_bytes = self.data_bytes + (buf.len() as u16);
        proof {
            self.payload@ = self.payload@ + buf@;
        }
        Ok(buf.len())
    }

    /// Finalize the variable file and return its bytes.
    ///
    /// The zero placeholders left at the data-section length, both data
    /// length fields and, for prefixed types, the internal length prefix
    /// are patched with the final payload byte count, and the accumulated
    /// checksum is appended.
    #[verifier::rlimit(60)]
    pub fn close(self) -> (r: Vec<u8>)
        requires
            self.wf(),
        ensures
            r@ == var_file(
                self.var_type(),
                self.name_bytes(),
                self.is_archived(),
                self.payload(),
            ),
            data_len(self.var_type(), self.payload()) <= MAX_DATA,
            r@.len() == 74 + data_len(self.var_type(), self.payload()),
    {
        let Writer { w: mut w, data_bytes, ty, name, archived, payload } = self;
        let ghost t = ty;
        let ghost nm = name@;
        let ghost ar = archived@;
        let ghost pl = payload@;
        let ghost body0 = open_body(t, nm, ar, pl);

        // Data-section length: outside the checksum span.
        w.enable_checksums(false);
        let (o0, o1) = le16_pair(data_bytes + 17);
        let outer: Vec<u8> = vec![o0, o1];
        w.write_at(OFF_DSLEN, outer.as_slice());
        proof {
            assert(w.w@ =~= spec_signature() + spec_comment() + le16((data_bytes + 17) as u16)
                + body0);
        }
        w.enable_checksums(true);

        // Both copies of the data length, covered by the checksum: the
        // placeholders were zero, so adding the patched bytes leaves the
        // checksum equal to that of the final data section.
        let (d0, d1) = le16_pair(data_bytes);
        let dl: Vec<u8> = vec![d0, d1];
        w.write_at(OFF_DATALEN1, dl.as_slice());
        let ghost head53 = spec_signature() + spec_comment() + le16((data_bytes + 17) as u16);
        let ghost body1 = body0.update(2, d0).update(3, d1);
        proof {
            assert(body0[2] == 0 && body0[3] == 0);
            lemma_checksum_patch(body0, 2, d0, d1);
            assert(w.w@ =~= head53 + body1);
        }
        w.write_at(OFF_DATALEN2, dl.as_slice());
        let ghost body2 = body1.update(15, d0).update(16, d1);
        proof {
            assert(body1[15] == 0 && body1[16] == 0);
            lemma_checksum_patch(body1, 15, d0, d1);
            assert(w.w@ =~= head53 + body2);
        }

        // For prefixed types, the length embedded in the data: the two
        // prefix bytes count toward the data length, the value excludes
        // them.
        let ghost bodyf: Seq<u8>;
        if ty.has_length_prefix() {
            let (p0, p1) = le16_pair(data_bytes - 2);
            let pv: Vec<u8> = vec![p0, p1];
            w.write_at(OFF_PREFIX, pv.as_slice());
            proof {
                bodyf = body2.update(17, p0).update(18, p1);
                assert(body2[17] == 0 && body2[18] == 0);
                lemma_checksum_patch(body2, 17, p0, p1);
                assert(w.w@ =~= head53 + bodyf);
            }
        } else {
            proof {
                bodyf = body2;
            }
        }
        proof {
            assert(bodyf =~= var_body(t, nm, ar, pl));
            assert(w.checksum == checksum16(var_body(t, nm, ar, pl)));
            assert(body0.len() == 17 + data_len(t, pl));
            assert((data_bytes + 17) as u16 == var_body(t, nm, ar, pl).len() as u16);
        }

        // All data is written; finish with the accumulated checksum, which
        // itself stands outside the checksummed span.
        w.enable_checksums(false);
        let c = w.checksum;
        let (c0, c1) = le16_pair(c);
        let cs: Vec<u8> = vec![c0, c1];
        w.write(cs.as_slice());
        proof {
            assert(w.w@ =~= var_file(t, nm, ar, pl));
        }
        w.w
    }
}

} // verus!
