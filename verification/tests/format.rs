use tifiles::write::{ChecksumWriter, WriteError, Writer};
use tifiles::read::{ReadError, Reader};
use tifiles::layout::{OFF_BODY, OFF_DATALEN1, OFF_DATALEN2, OFF_NAME, OFF_PREFIX, OFF_TYPE};
use tifiles::{VariableType, MAX_DATA};

#[test]
fn round_trip_is_lossless() {
    let mut ref_data = [0u8; 256];
    for (x, b) in ref_data.iter_mut().enumerate() {
        *b = x as u8;
    }

    let mut writer = Writer::new(VariableType::Program, "ABC123", false).unwrap();
    writer.write(&ref_data).unwrap();
    let file_data = writer.close();

    let mut reader = Reader::new(file_data).unwrap();
    assert_eq!(reader.name().as_slice(), b"ABC123\0\0");
    assert!(!reader.is_archived());

    let read_data = reader.read_to_end();
    reader.finish().unwrap().expect("checksum should be valid");

    assert_eq!(&ref_data[..], &read_data[..]);
}

#[test]
fn reads_empty_appvar() {
    const DATA: &'static [u8] = b"**TI83F*\x1a\x0a\0Created by SourceCoder 3 - sc.cemetech.net\
                                  \x13\0\x0d\0\x02\0\x15A\0\0\0\0\0\0\0\0\0\x02\0\0\0\x67\0";

    let mut reader = Reader::new(DATA.to_vec()).unwrap();
    assert_eq!(reader.len(), 0);
    assert_eq!(reader.ty(), VariableType::AppVar);
    assert_eq!(reader.name().as_slice(), b"A\0\0\0\0\0\0\0");
    assert!(!reader.is_archived());
    assert_eq!(
        reader.comment().as_slice(),
        b"Created by SourceCoder 3 - sc.cemetech.net"
    );

    let contents = reader.read_to_end();
    assert!(contents.is_empty());

    reader.finish().unwrap().expect("checksum should be valid");
}

#[test]
fn checksum_writer_works() {
    let mut writer = ChecksumWriter::new(Vec::new());

    writer.checksum = 0xFF00;
    writer.enable_checksums(true);
    writer.write(&[255, 1, 0, 42]);
    assert_eq!(writer.checksum, 42);

    writer.enable_checksums(false);
    writer.write(&[1, 2, 3, 4]);
    assert_eq!(writer.checksum, 42);

    assert_eq!(writer.w, vec![255, 1, 0, 42, 1, 2, 3, 4]);
}

/// A program file is written with exactly the correct data.
#[test]
fn empty_program_is_correct() {
    let writer = Writer::new(VariableType::ProtectedProgram, "A", true).unwrap();
    let buf = writer.close();

    assert_eq!(
        buf,
        b"**TI83F*\x1a\x0a\0\
              TI-8x variable writer by Peter Marheine   \
              \x13\0\x0d\0\x02\0\x06\
              A\0\0\0\0\0\0\0\
              \0\x80\
              \x02\x00\x00\x00\
              \xd8\x00"
            .to_vec(),
    );
}

#[test]
fn accepts_digits_after_first_position() {
    assert!(Writer::new(VariableType::Program, "ABC1", false).is_ok());
    assert!(Writer::new(VariableType::Program, "A1B", false).is_ok());
}

#[test]
fn rejects_lowercase_names() {
    match Writer::new(VariableType::Program, "abc", false) {
        Err(WriteError::InvalidName) => {}
        other => panic!("expected InvalidName, got {:?}", other.is_ok()),
    }
}

#[test]
fn rejects_leading_digit() {
    match Writer::new(VariableType::Program, "1AB", false) {
        Err(WriteError::InvalidName) => {}
        other => panic!("expected InvalidName, got {:?}", other.is_ok()),
    }
}

#[test]
fn truncates_long_names() {
    let mut writer = Writer::new(VariableType::Program, "ABCDEFGHI", false).unwrap();
    writer.write(&[1, 2, 3]).unwrap();
    let file = writer.close();
    let mut reader = Reader::new(file).unwrap();
    assert_eq!(reader.name().as_slice(), b"ABCDEFGH");
    let _ = reader.read_to_end();
    reader.finish().unwrap().expect("checksum should be valid");
}

#[test]
fn theta_round_trips_as_token() {
    let mut writer = Writer::new(VariableType::Program, "\u{03b8}AB", false).unwrap();
    writer.write(&[9]).unwrap();
    let file = writer.close();
    let mut reader = Reader::new(file).unwrap();
    assert_eq!(reader.name().as_slice(), b"\x5bAB\0\0\0\0\0");
    let _ = reader.read_to_end();
    reader.finish().unwrap().expect("checksum should be valid");
}

#[test]
fn round_trip_keeps_type_archived_and_payload() {
    let payload = b"some bytes that stand for a program".to_vec();
    let mut writer = Writer::new(VariableType::AppVar, "STORE", true).unwrap();
    writer.write(&payload).unwrap();
    let file = writer.close();

    let mut reader = Reader::new(file).unwrap();
    assert_eq!(reader.ty(), VariableType::AppVar);
    assert!(reader.is_archived());
    assert_eq!(reader.len() as usize, payload.len());
    let back = reader.read_to_end();
    assert_eq!(back, payload);
    reader.finish().unwrap().expect("checksum should be valid");
}

#[test]
fn length_fields_agree_in_emitted_bytes() {
    // A prefix-bearing type: both data-length copies hold the payload
    // count plus the two prefix bytes, and the prefix holds the count.
    let payload = [7u8; 10];
    let mut writer = Writer::new(VariableType::AppVar, "L", false).unwrap();
    writer.write(&payload).unwrap();
    let file = writer.close();

    let copy1 = u16::from_le_bytes([file[OFF_DATALEN1], file[OFF_DATALEN1 + 1]]);
    let copy2 = u16::from_le_bytes([file[OFF_DATALEN2], file[OFF_DATALEN2 + 1]]);
    let prefix = u16::from_le_bytes([file[OFF_PREFIX], file[OFF_PREFIX + 1]]);
    assert_eq!(copy1, 12);
    assert_eq!(copy1, copy2);
    assert_eq!(prefix, 10);

    // A plain type: the copies hold the payload count, and no prefix.
    let mut writer = Writer::new(VariableType::Real, "R", false).unwrap();
    writer.write(&[1, 2, 3, 4]).unwrap();
    let file = writer.close();
    let copy1 = u16::from_le_bytes([file[OFF_DATALEN1], file[OFF_DATALEN1 + 1]]);
    let copy2 = u16::from_le_bytes([file[OFF_DATALEN2], file[OFF_DATALEN2 + 1]]);
    assert_eq!(copy1, 4);
    assert_eq!(copy1, copy2);
}

#[test]
fn max_data_exactly_fits() {
    let payload = vec![0xabu8; MAX_DATA as usize];
    let mut writer = Writer::new(VariableType::Real, "BIG", false).unwrap();
    writer.write(&payload).unwrap();
    let file = writer.close();

    let mut reader = Reader::new(file).unwrap();
    assert_eq!(reader.len(), MAX_DATA);
    let back = reader.read_to_end();
    assert_eq!(back, payload);
    reader.finish().unwrap().expect("checksum should be valid");
}

#[test]
fn over_max_data_fails_without_corrupting_close() {
    let mut writer = Writer::new(VariableType::Real, "BIG", false).unwrap();
    writer.write(&[5u8; 100]).unwrap();
    match writer.write(&vec![0u8; MAX_DATA as usize - 99]) {
        Err(WriteError::TooLarge(total)) => assert_eq!(total, MAX_DATA as usize + 1),
        other => panic!("expected TooLarge, got {:?}", other.is_ok()),
    }
    // The failed write committed nothing: the file still closes cleanly
    // around the bytes accepted before it.
    let file = writer.close();
    let mut reader = Reader::new(file).unwrap();
    assert_eq!(reader.len(), 100);
    assert_eq!(reader.read_to_end(), vec![5u8; 100]);
    reader.finish().unwrap().expect("checksum should be valid");
}

#[test]
fn payload_flip_fails_checksum_with_computed_value() {
    let mut writer = Writer::new(VariableType::Program, "FLIP", false).unwrap();
    writer.write(b"payload under test").unwrap();
    let file = writer.close();

    // Flip one payload byte; the file still parses, and finish reports
    // a mismatch carrying the recomputed sum.
    let mut bent = file.clone();
    let pos = 80;
    bent[pos] ^= 0x01;
    let expected: u16 = bent[OFF_BODY..bent.len() - 2]
        .iter()
        .fold(0u16, |a, &b| a.wrapping_add(b as u16));
    let stored = u16::from_le_bytes([file[file.len() - 2], file[file.len() - 1]]);

    let mut reader = Reader::new(bent).unwrap();
    let _ = reader.read_to_end();
    let err = reader
        .finish()
        .unwrap()
        .expect_err("a flipped payload byte must fail the checksum");
    assert_eq!(err.computed_checksum, expected);
    assert_eq!(err.read_checksum, stored);
}

#[test]
fn name_flip_fails_checksum() {
    let mut writer = Writer::new(VariableType::Program, "FLIP", false).unwrap();
    writer.write(b"x").unwrap();
    let mut file = writer.close();
    file[OFF_NAME + 1] = b'Z';

    let mut reader = Reader::new(file).unwrap();
    let _ = reader.read_to_end();
    reader
        .finish()
        .unwrap()
        .expect_err("a flipped name byte must fail the checksum");
}

#[test]
fn comment_flip_leaves_checksum_valid() {
    let mut writer = Writer::new(VariableType::Program, "FLIP", false).unwrap();
    writer.write(b"payload under test").unwrap();
    let mut file = writer.close();
    file[20] = b'#';

    let mut reader = Reader::new(file).unwrap();
    let _ = reader.read_to_end();
    reader.finish().unwrap().expect("checksum should be valid");
}

#[test]
fn finish_error_hands_buffer_back() {
    let mut writer = Writer::new(VariableType::Program, "SAVE", false).unwrap();
    writer.write(b"salvage me").unwrap();
    let file = writer.close();
    let mut bent = file.clone();
    let pos = file.len() - 5;
    bent[pos] ^= 0xff;

    let mut reader = Reader::new(bent.clone()).unwrap();
    let _ = reader.read_to_end();
    let err = reader.finish().unwrap().expect_err("flipped byte");
    assert_eq!(err.into_reader(), bent);
}

#[test]
fn rejects_bad_signature() {
    let mut writer = Writer::new(VariableType::Program, "SIG", false).unwrap();
    writer.write(b"x").unwrap();
    let mut file = writer.close();
    file[0] = b'!';

    match Reader::new(file) {
        Err(ReadError::InvalidSignature(found)) => assert_eq!(found[0], b'!'),
        other => panic!("expected InvalidSignature, got {:?}", other.is_ok()),
    }
}

#[test]
fn rejects_unknown_header_length() {
    let mut writer = Writer::new(VariableType::Program, "HDR", false).unwrap();
    writer.write(b"x").unwrap();
    let mut file = writer.close();
    file[55] = 12;

    match Reader::new(file) {
        Err(ReadError::UnknownHeaderLength(12)) => {}
        other => panic!("expected UnknownHeaderLength, got {:?}", other.is_ok()),
    }
}

#[test]
fn rejects_section_length_mismatch() {
    let mut writer = Writer::new(VariableType::Program, "LEN", false).unwrap();
    writer.write(b"x").unwrap();
    let mut file = writer.close();
    // Bend the first data-length copy; the tally against the section
    // length fails first.
    file[OFF_DATALEN1] = file[OFF_DATALEN1].wrapping_add(1);

    match Reader::new(file) {
        Err(ReadError::DataLengthMismatch(_, _)) => {}
        other => panic!("expected DataLengthMismatch, got {:?}", other.is_ok()),
    }
}

#[test]
fn rejects_disagreeing_length_copies() {
    let mut writer = Writer::new(VariableType::Real, "LEN", false).unwrap();
    writer.write(&[1, 2, 3]).unwrap();
    let mut file = writer.close();
    // Bend the second copy only.
    file[OFF_DATALEN2] = file[OFF_DATALEN2].wrapping_add(1);

    match Reader::new(file) {
        Err(ReadError::DataLengthMismatch(3, 4)) => {}
        other => panic!("expected DataLengthMismatch, got {:?}", other.is_ok()),
    }
}

#[test]
fn rejects_bad_internal_prefix() {
    let mut writer = Writer::new(VariableType::AppVar, "PRE", false).unwrap();
    writer.write(&[1, 2, 3]).unwrap();
    let mut file = writer.close();
    file[OFF_PREFIX] = file[OFF_PREFIX].wrapping_add(1);

    match Reader::new(file) {
        Err(ReadError::DataLengthMismatch(5, 4)) => {}
        other => panic!("expected DataLengthMismatch, got {:?}", other.is_ok()),
    }
}

#[test]
fn rejects_unrecognized_type() {
    let mut writer = Writer::new(VariableType::Real, "TY", false).unwrap();
    writer.write(&[1]).unwrap();
    let mut file = writer.close();
    file[OFF_TYPE] = 0x14;

    match Reader::new(file) {
        Err(ReadError::UnrecognizedType(0x14)) => {}
        other => panic!("expected UnrecognizedType, got {:?}", other.is_ok()),
    }
}

#[test]
fn rejects_truncated_input() {
    let mut writer = Writer::new(VariableType::Program, "EOF", false).unwrap();
    writer.write(b"0123456789").unwrap();
    let file = writer.close();

    match Reader::new(file[..40].to_vec()) {
        Err(ReadError::UnexpectedEof) => {}
        other => panic!("expected UnexpectedEof, got {:?}", other.is_ok()),
    }

    // Cut inside the payload: construction still works, finish cannot
    // reach the stored checksum.
    let mut reader = Reader::new(file[..file.len() - 4].to_vec()).unwrap();
    let _ = reader.read_to_end();
    match reader.finish() {
        Err(ReadError::UnexpectedEof) => {}
        other => panic!("expected UnexpectedEof, got {:?}", other.is_ok()),
    }
}

#[test]
fn partial_reads_then_finish() {
    let mut writer = Writer::new(VariableType::Program, "PART", false).unwrap();
    writer.write(b"abcdefgh").unwrap();
    let file = writer.close();

    let mut reader = Reader::new(file).unwrap();
    let first = reader.read(3);
    assert_eq!(first, b"abc".to_vec());
    // The unread remainder is drained by finish and still checksummed.
    reader.finish().unwrap().expect("checksum should be valid");
}

#[test]
fn reader_accepts_short_entry_header() {
    // A file with the 11-byte entry header form: no version or flags,
    // never archived. Sum of the data section: 0x0b + 0x04 + 0x41 = 0x50.
    let mut file = Vec::new();
    file.extend_from_slice(b"**TI83F*\x1a\x0a\0");
    file.extend_from_slice(&[b' '; 42]);
    file.extend_from_slice(&[0x13, 0x00]); // section: 4 + 11 + 4 = 19
    file.extend_from_slice(&[0x0b, 0x00]); // header length 11
    file.extend_from_slice(&[0x04, 0x00]); // data length
    file.push(0x00); // Real
    file.extend_from_slice(b"X\0\0\0\0\0\0\0");
    file.extend_from_slice(&[0x04, 0x00]); // data length again
    file.extend_from_slice(&[1, 2, 3, 4]);
    let sum: u16 = file[OFF_BODY..]
        .iter()
        .fold(0u16, |a, &b| a.wrapping_add(b as u16));
    file.extend_from_slice(&sum.to_le_bytes());

    let mut reader = Reader::new(file).unwrap();
    assert_eq!(reader.ty(), VariableType::Real);
    assert!(!reader.is_archived());
    assert_eq!(reader.len(), 4);
    assert_eq!(reader.read_to_end(), vec![1, 2, 3, 4]);
    reader.finish().unwrap().expect("checksum should be valid");
}
