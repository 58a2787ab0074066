//! Bundles: archives that aggregate several variable files.
//!
//! A bundle is an archive holding regular variable files and two special
//! entries: `METADATA`, a plain-text description of the bundle, and
//! `_CHECKSUM`, the hex form of a 32-bit wrapping sum of the CRC-32 of
//! every prior entry's uncompressed bytes, `METADATA`'s included. Entry
//! order matters to downstream consumers: variables first, then
//! `METADATA`, then `_CHECKSUM`.
use std::io::Write as IoWrite;
use vstd::prelude::*;
use vstd::string::StrSliceExecFns;
use vstd::string::StringExecFns;

use crate::layout::{data_len, name_ok, padded_name, var_file, MAX_DATA};
use crate::write::{attempted_total, WriteError, Writer as VarWriter};
use crate::VariableType;

verus! {

/// Supported bundle kinds.
///
/// A bundle of a given kind has no particular affinity with a given
/// calculator model, but linking software may refuse to transfer a bundle
/// whose kind does not match the calculator. The kind fixes only the
/// customary file extension and the device name recorded in `METADATA`.
pub enum Kind {
    /// For the TI-83 Premium CE.
    B83,
    /// For the TI-84+ CE.
    B84,
}

impl Kind {
    /// The file extension customarily associated with this bundle kind.
    pub open spec fn spec_extension(self) -> Seq<char> {
        match self {
            Kind::B83 => "b83"@,
            Kind::B84 => "b84"@,
        }
    }

    /// Return the file extension customarily associated with a given
    /// bundle kind.
    pub fn file_extension(&self) -> (r: &'static str)
        ensures
            r@ == self.spec_extension(),
    {
        match self {
            Kind::B83 => "b83",
            Kind::B84 => "b84",
        }
    }

    /// The whole text of the `METADATA` entry for this kind: its
    /// identifier and format version are constant, the target device
    /// names the kind, and the comment is free text.
    pub open spec fn spec_metadata_text(self) -> Seq<char> {
        match self {
            Kind::B83 => "bundle_identifier:TI Bundle\nbundle_format_version:1\nbundle_target_device:83CE\nbundle_target_type:CUSTOM\nbundle_comments:Generated by tifiles-rs::bundle::Writer\n"@,
            Kind::B84 => "bundle_identifier:TI Bundle\nbundle_format_version:1\nbundle_target_device:84CE\nbundle_target_type:CUSTOM\nbundle_comments:Generated by tifiles-rs::bundle::Writer\n"@,
        }
    }

    /// The bytes of the `METADATA` entry for this kind.
    pub open spec fn spec_metadata_bytes(self) -> Seq<u8> {
        vstd::utf8::encode_utf8(self.spec_metadata_text())
    }

    /// Build the `METADATA` entry contents.
    fn metadata_bytes(&self) -> (r: Vec<u8>)
        ensures
            r@ == self.spec_metadata_bytes(),
            r@.len() <= 1024,
    {
        proof {
            reveal_strlit(
                "bundle_identifier:TI Bundle\nbundle_format_version:1\nbundle_target_device:83CE\nbundle_target_type:CUSTOM\nbundle_comments:Generated by tifiles-rs::bundle::Writer\n",
            );
            reveal_strlit(
                "bundle_identifier:TI Bundle\nbundle_format_version:1\nbundle_target_device:84CE\nbundle_target_type:CUSTOM\nbundle_comments:Generated by tifiles-rs::bundle::Writer\n",
            );
            lemma_encode_utf8_len(self.spec_metadata_text());
            assert(self.spec_metadata_text().len() <= 256);
        }
        let text = match self {
            Kind::B83 => "bundle_identifier:TI Bundle\nbundle_format_version:1\nbundle_target_device:83CE\nbundle_target_type:CUSTOM\nbundle_comments:Generated by tifiles-rs::bundle::Writer\n",
            Kind::B84 => "bundle_identifier:TI Bundle\nbundle_format_version:1\nbundle_target_device:84CE\nbundle_target_type:CUSTOM\nbundle_comments:Generated by tifiles-rs::bundle::Writer\n",
        };
        text.as_bytes_vec()
    }
}

/// UTF-8 encodes each character in at most four bytes.
proof fn lemma_encode_utf8_len(chars: Seq<char>)
    ensures
        vstd::utf8::encode_utf8(chars).len() <= 4 * chars.len(),
    decreases chars.len(),
{
    if chars.len() > 0 {
        lemma_encode_utf8_len(chars.drop_first());
    }
}

// ----- what is assumed of the outside crates -----

/// The CRC-32 of a byte sequence: a pure function of the bytes alone.
pub uninterp spec fn crc32_of(data: Seq<u8>) -> u32;

/// Relies on crc32fast::hash: computes the CRC-32 checksum of a byte
/// slice, a deterministic function of the bytes alone.
#[verifier::external_body]
fn crc32_hash(data: &[u8]) -> (r: u32)
    ensures
        r == crc32_of(data@),
{
    crc32fast::hash(data)
}

#[verifier::external_type_specification]
#[verifier::external_body]
pub struct ExZipError(zip::result::ZipError);

/// The archive writer of the zip crate, over an in-memory buffer. Verus
/// refuses the declaration of zip::ZipWriter itself — its bounds name
/// std's io traits — so the writer lives opaquely inside this struct and
/// is reached only through the trusted functions below.
#[verifier::external_body]
pub struct ArchiveWriter {
    inner: zip::ZipWriter<std::io::Cursor<Vec<u8>>>,
}

/// The entries an archive writer holds so far, in the order they were
/// started: each is its name and its uncompressed contents.
pub uninterp spec fn zip_entries(z: ArchiveWriter) -> Seq<(Seq<char>, Seq<u8>)>;

/// Every entry's contents stay within what the archive format stores
/// without the large-file option: its only failure paths over an
/// in-memory buffer reject an entry that outgrows a 32-bit size field.
pub open spec fn entries_fit(es: Seq<(Seq<char>, Seq<u8>)>) -> bool {
    forall|i: int| 0 <= i < es.len() ==> (#[trigger] es[i]).1.len() <= 0xffff_ffff
}

/// The bytes of the finished archive holding the given entries. With the
/// fixed options this crate writes under — stored entries, constant
/// timestamps — the encoding is a function of the entries alone.
pub uninterp spec fn zip_encoding(entries: Seq<(Seq<char>, Seq<u8>)>) -> Seq<u8>;

/// Relies on zip::ZipWriter::new over an in-memory cursor: a fresh
/// archive writer holds no entries.
#[verifier::external_body]
fn zip_new() -> (z: ArchiveWriter)
    ensures
        zip_entries(z) == Seq::<(Seq<char>, Seq<u8>)>::empty(),
{
    ArchiveWriter { inner: zip::ZipWriter::new(std::io::Cursor::new(Vec::new())) }
}

/// Relies on zip::ZipWriter::start_file: a new, empty entry of the
/// given name stands appended after the existing entries.
///
/// Success is owed: the buffer is an in-memory cursor, whose writes and
/// seeks cannot fail, so the only failure start_file can reach is the
/// over-4-GiB check made while the previous entry is finished — ruled
/// out by the size bound. The closed state is reachable only through
/// that same check, or by finishing the archive, which consumes the
/// writer; every value these functions can produce is open for writing.
#[verifier::external_body]
fn zip_start_file(z: &mut ArchiveWriter, name: String) -> (r: Result<
    (),
    zip::result::ZipError,
>)
    requires
        entries_fit(zip_entries(*old(z))),
    ensures
        r is Ok,
        zip_entries(*final(z)) == zip_entries(*old(z)).push((name@, Seq::<u8>::empty())),
{
    z.inner.start_file(name, zip::write::FileOptions::default())
}

/// Relies on the std::io::Write impl of zip::ZipWriter: written bytes
/// append to the contents of the entry started last.
///
/// Success is owed: with at least one entry started — through these
/// functions an entry, once started, stays open until the next one —
/// and entries stored uncompressed in an in-memory buffer, the one
/// failure left is the over-4-GiB check, ruled out by the size bound.
#[verifier::external_body]
fn zip_write_all(z: &mut ArchiveWriter, buf: &[u8]) -> (r: Result<
    (),
    zip::result::ZipError,
>)
    requires
        zip_entries(*old(z)).len() > 0,
        entries_fit(zip_entries(*old(z))),
        zip_entries(*old(z)).last().1.len() + buf@.len() <= 0xffff_ffff,
    ensures
        r is Ok,
        zip_entries(*final(z)) == zip_entries(*old(z)).update(
            zip_entries(*old(z)).len() - 1,
            (
                zip_entries(*old(z)).last().0,
                zip_entries(*old(z)).last().1 + buf@,
            ),
        ),
{
    z.inner.write_all(buf).map_err(zip::result::ZipError::Io)
}

/// Relies on zip::ZipWriter::finish: writes the central directory and
/// returns the underlying cursor, whose buffer then holds the archive
/// encoding of exactly the entries written, in order.
///
/// Success is owed: the central directory writes cannot fail over an
/// in-memory cursor — oversized counts and offsets get additional
/// records, not an error — and the only failure left, finishing the
/// last entry, is ruled out by the size bound.
#[verifier::external_body]
fn zip_finish(z: ArchiveWriter) -> (r: Result<
    Vec<u8>,
    zip::result::ZipError,
>)
    requires
        entries_fit(zip_entries(z)),
    ensures
        r is Ok,
        r matches Ok(v) ==> v@ == zip_encoding(zip_entries(z)),
{
    let mut z = z;
    match z.inner.finish() {
        Ok(c) => Ok(c.into_inner()),
        Err(e) => Err(e),
    }
}

// ----- aggregate checksum -----

/// The 32-bit wrapping sum of the CRC-32 of each entry's contents.
pub open spec fn crc_sum_of(es: Seq<(Seq<char>, Seq<u8>)>) -> u32
    decreases es.len(),
{
    if es.len() == 0 {
        0u32
    } else {
        ((crc_sum_of(es.drop_last()) + crc32_of(es.last().1)) % 0x1_0000_0000) as u32
    }
}

proof fn lemma_crc_sum_push(es: Seq<(Seq<char>, Seq<u8>)>, name: Seq<char>, data: Seq<u8>)
    ensures
        crc_sum_of(es.push((name, data))) == ((crc_sum_of(es) + crc32_of(data))
            % 0x1_0000_0000) as u32,
{
    let es2 = es.push((name, data));
    assert(es2.drop_last() =~= es);
    assert(es2.last() == (name, data));
}

/// The lowercase-hex digit for a value below 16.
pub open spec fn hex_digit(d: int) -> u8 {
    if d < 10 {
        (48 + d) as u8
    } else {
        (87 + d) as u8
    }
}

/// The lowercase-hex text of `v`, without leading zeroes: the bytes that
/// standard hexadecimal formatting produces.
pub open spec fn hex_bytes(v: int) -> Seq<u8>
    decreases v,
{
    if v < 16 {
        seq![hex_digit(v)]
    } else {
        hex_bytes(v / 16).push(hex_digit(v % 16))
    }
}

/// Sixteen to the `k`.
spec fn exp16(k: nat) -> int
    decreases k,
{
    if k == 0 {
        1
    } else {
        16 * exp16((k - 1) as nat)
    }
}

/// Hex formatting emits one digit per four bits: at most `k` digits for
/// a value below sixteen to the `k`.
proof fn lemma_hex_bytes_len(v: int, k: nat)
    requires
        0 <= v,
        1 <= k,
        v < exp16(k),
    ensures
        hex_bytes(v).len() <= k,
    decreases k,
{
    if v < 16 {
    } else {
        let e = exp16((k - 1) as nat);
        assert(exp16(k) == 16 * e);
        if k == 1 {
            assert(exp16(0) == 1);
            assert(false);
        } else {
            vstd::arithmetic::div_mod::lemma_fundamental_div_mod(v, 16);
            assert(16 * (v / 16) <= v);
            assert(v / 16 < e);
            lemma_hex_bytes_len(v / 16, (k - 1) as nat);
        }
    }
}

/// A 32-bit value prints as at most eight hex digits.
proof fn lemma_hex_len_u32(v: u32)
    ensures
        hex_bytes(v as int).len() <= 8,
{
    assert(exp16(0) == 1);
    assert(exp16(1) == 16 * exp16(0));
    assert(exp16(2) == 16 * exp16(1));
    assert(exp16(3) == 16 * exp16(2));
    assert(exp16(4) == 16 * exp16(3));
    assert(exp16(5) == 16 * exp16(4));
    assert(exp16(6) == 16 * exp16(5));
    assert(exp16(7) == 16 * exp16(6));
    assert(exp16(8) == 16 * exp16(7));
    lemma_hex_bytes_len(v as int, 8);
}

/// Format `v` as lowercase hexadecimal.
fn u32_to_hex(v: u32) -> (r: Vec<u8>)
    ensures
        r@ == hex_bytes(v as int),
    decreases v,
{
    let d = (v % 16) as u8;
    let digit: u8 = if d < 10 {
        48 + d
    } else {
        87 + d
    };
    if v < 16 {
        let r: Vec<u8> = vec![digit];
        assert(r@ =~= hex_bytes(v as int));
        r
    } else {
        let mut r = u32_to_hex(v / 16);
        r.push(digit);
        r
    }
}

/// Writes bundle files into an in-memory archive.
///
/// A bundle contains zero or more variables. Each call to
/// [`start_var`](Writer::start_var) finalizes the variable written so far
/// and begins a new one; [`write`](Writer::write) appends to the variable
/// started last. [`close`](Writer::close) must be called when done, so
/// that the metadata entries are appended and the archive closed.
pub struct Writer {
    kind: Kind,
    zip: ArchiveWriter,
    crc_sum: u32,
    active_var: Option<(VarWriter, String)>,
}

impl Writer {
    /// The kind this bundle was opened as.
    pub closed spec fn bundle_kind(self) -> Kind {
        self.kind
    }

    /// The archive entries already finalized, in order.
    pub closed spec fn entries(self) -> Seq<(Seq<char>, Seq<u8>)> {
        zip_entries(self.zip)
    }

    /// Whether a variable is currently being written.
    pub closed spec fn has_active(self) -> bool {
        self.active_var is Some
    }

    /// The archive entry name the active variable will be stored under.
    pub closed spec fn active_name(self) -> Seq<char> {
        self.active_var->Some_0.1@
    }

    /// The variable-file writer of the active variable.
    pub closed spec fn active_writer(self) -> VarWriter {
        self.active_var->Some_0.0
    }

    /// Internal consistency: the aggregate checksum is the wrapping sum
    /// of the CRC-32 of every finalized entry, every entry fits the
    /// archive's plain 32-bit size fields, and the active variable's
    /// writer, if any, is itself consistent.
    pub closed spec fn wf(self) -> bool {
        &&& self.crc_sum == crc_sum_of(zip_entries(self.zip))
        &&& entries_fit(zip_entries(self.zip))
        &&& (self.active_var matches Some(p) ==> p.0.wf())
    }

    /// The entries the archive holds once the active variable, if any,
    /// is finalized: its entry is the complete variable file.
    pub open spec fn flushed_entries(self) -> Seq<(Seq<char>, Seq<u8>)> {
        if self.has_active() {
            self.entries().push(
                (
                    self.active_name(),
                    var_file(
                        self.active_writer().var_type(),
                        self.active_writer().name_bytes(),
                        self.active_writer().is_archived(),
                        self.active_writer().payload(),
                    ),
                ),
            )
        } else {
            self.entries()
        }
    }

    /// Every entry of the finished bundle, in order: the variables, then
    /// `METADATA`, then `_CHECKSUM` holding the hex aggregate checksum of
    /// everything before it, `METADATA` included.
    pub open spec fn final_entries(self) -> Seq<(Seq<char>, Seq<u8>)> {
        let with_meta = self.flushed_entries().push(
            ("METADATA"@, self.bundle_kind().spec_metadata_bytes()),
        );
        with_meta.push(("_CHECKSUM"@, hex_bytes(crc_sum_of(with_meta) as int)))
    }

    /// Open a new, empty bundle of the given kind.
    pub fn new(kind: Kind) -> (r: Writer)
        ensures
            r.wf(),
            r.bundle_kind() == kind,
            r.entries() == Seq::<(Seq<char>, Seq<u8>)>::empty(),
            !r.has_active(),
    {
        let zip = zip_new();
        Writer { kind, zip, crc_sum: 0, active_var: None }
    }

    /// Finalize the active variable, if any: close its writer, fold the
    /// CRC-32 of its bytes into the aggregate sum, and append the bytes
    /// as one archive entry under the remembered name. A variable file
    /// always fits an archive entry, so this cannot fail.
    fn close_var(&mut self)
        requires
            old(self).wf(),
        ensures
            final(self).wf(),
            final(self).bundle_kind() == old(self).bundle_kind(),
            !final(self).has_active(),
            final(self).entries() == old(self).flushed_entries(),
    {
        // Clear the active variable and do nothing if there is none.
        let taken = self.active_var.take();
        let (w, name) = match taken {
            Some(x) => x,
            None => {
                return ;
            },
        };
        // Finalize the variable file; it was buffered because the
        // archive transport cannot seek backward.
        let buf = w.close();
        // The aggregate checksum needs the CRC of the uncompressed data.
        let crc = crc32_hash(buf.as_slice());
        self.crc_sum = self.crc_sum.wrapping_add(crc);

        let ghost es0 = zip_entries(old(self).zip);
        let _ = zip_start_file(&mut self.zip, name);
        let ghost nm = old(self).active_name();
        let _ = zip_write_all(&mut self.zip, buf.as_slice());
        proof {
            assert(zip_entries(self.zip) =~= es0.push((nm, buf@)));
            lemma_crc_sum_push(es0, nm, buf@);
            assert(entries_fit(zip_entries(self.zip)));
        }
    }

    /// Begin writing a variable.
    ///
    /// Finalizes the variable written so far, then opens a new writer of
    /// the given type, name and archived flag; its archive entry name is
    /// the variable name with the type's customary extension. Subsequent
    /// writes append to this variable. Fails exactly on an illegal name,
    /// with [`WriteError::InvalidName`] — the variable written so far is
    /// finalized either way.
    pub fn start_var(&mut self, ty: VariableType, name: &str, archived: bool) -> (r: Result<
        (),
        WriteError,
    >)
        requires
            old(self).wf(),
            ty.spec_layout_known(),
            ty.spec_extension_known(),
        ensures
            final(self).wf(),
            final(self).bundle_kind() == old(self).bundle_kind(),
            final(self).entries() == old(self).flushed_entries(),
            r is Ok <==> name_ok(name@),
            r matches Ok(()) ==> {
                &&& final(self).has_active()
                &&& final(self).active_name() == name@ + "."@ + ty.spec_extension()
                &&& final(self).active_writer().var_type() == ty
                &&& final(self).active_writer().name_bytes() == padded_name(name@)
                &&& final(self).active_writer().is_archived() == archived
                &&& final(self).active_writer().payload() == Seq::<u8>::empty()
            },
            r matches Err(e) ==> e == WriteError::InvalidName && !final(self).has_active(),
    {
        // Finish off the previous variable, if any.
        self.close_var();
        // Make the new one active.
        let w = match VarWriter::new(ty, name, archived) {
            Ok(w) => w,
            Err(e) => {
                return Err(e);
            },
        };
        let entry_name = String::from_str(name).concat(".").concat(ty.file_extension());
        self.active_var = Some((w, entry_name));
        Ok(())
    }

    /// Append payload bytes to the variable started last.
    ///
    /// Fails with [`WriteError::TooLarge`] if the variable's payload
    /// would outgrow its length fields; the bundle stays as it was.
    pub fn write(&mut self, buf: &[u8]) -> (r: Result<usize, WriteError>)
        requires
            old(self).wf(),
            old(self).has_active(),
        ensures
            final(self).wf(),
            final(self).has_active(),
            final(self).bundle_kind() == old(self).bundle_kind(),
            final(self).entries() == old(self).entries(),
            final(self).active_name() == old(self).active_name(),
            final(self).active_writer().var_type() == old(self).active_writer().var_type(),
            final(self).active_writer().name_bytes() == old(self).active_writer().name_bytes(),
            final(self).active_writer().is_archived() == old(self).active_writer().is_archived(),
            r is Ok <==> data_len(old(self).active_writer().var_type(), old(self).active_writer().payload())
                + buf@.len() <= MAX_DATA,
            r matches Ok(n) ==> n == buf@.len() && final(self).active_writer().payload() == old(
                self,
            ).active_writer().payload() + buf@,
            r matches Err(e) ==> final(self).active_writer().payload() == old(
                self,
            ).active_writer().payload() && e == WriteError::TooLarge(
                attempted_total(
                    data_len(
                        old(self).active_writer().var_type(),
                        old(self).active_writer().payload(),
                    ),
                    buf@.len() as int,
                ),
            ),
    {
        match &mut self.active_var {
            Some((w, _)) => w.write(buf),
            None => vstd::pervasive::unreached(),
        }
    }

    /// Close the bundle, returning the archive bytes.
    ///
    /// Finalizes the active variable, appends the `METADATA` entry, folds
    /// its CRC-32 into the aggregate sum, appends `_CHECKSUM` holding
    /// that sum in hex, and finishes the archive. Every entry a bundle
    /// can hold fits the archive format, so this cannot fail.
    pub fn close(self) -> (r: Vec<u8>)
        requires
            self.wf(),
        ensures
            r@ == zip_encoding(self.final_entries()),
    {
        let mut s = self;
        s.close_var();
        let ghost vars = self.flushed_entries();

        // The METADATA entry counts toward the aggregate checksum.
        let meta = s.kind.metadata_bytes();
        let crc = crc32_hash(meta.as_slice());
        s.crc_sum = s.crc_sum.wrapping_add(crc);
        let _ = zip_start_file(&mut s.zip, String::from_str("METADATA"));
        let _ = zip_write_all(&mut s.zip, meta.as_slice());
        let ghost with_meta = vars.push(("METADATA"@, self.bundle_kind().spec_metadata_bytes()));
        proof {
            assert(zip_entries(s.zip) =~= with_meta);
            lemma_crc_sum_push(vars, "METADATA"@, self.bundle_kind().spec_metadata_bytes());
            assert(entries_fit(zip_entries(s.zip)));
        }

        // The _CHECKSUM entry holds the aggregate sum of everything
        // before it; it cannot include itself.
        let hex = u32_to_hex(s.crc_sum);
        proof {
            lemma_hex_len_u32(s.crc_sum);
        }
        let _ = zip_start_file(&mut s.zip, String::from_str("_CHECKSUM"));
        let _ = zip_write_all(&mut s.zip, hex.as_slice());
        proof {
            assert(zip_entries(s.zip) =~= self.final_entries());
            assert(entries_fit(zip_entries(s.zip)));
        }

        match zip_finish(s.zip) {
            Ok(v) => v,
            Err(_) => vstd::pervasive::unreached(),
        }
    }
}

} // verus!
