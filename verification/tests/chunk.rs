use pngme::bytes::{append_bytes, u32_to_be};
use pngme::chunk::Chunk;
use pngme::chunk_types::ChunkType;
use pngme::error::Error;
use std::convert::TryFrom;
use std::str::FromStr;

fn testing_chunk() -> Chunk {
    let data_length: u32 = 42;
    let chunk_type = "RuSt".as_bytes();
    let message_bytes = "This is where your secret message will be!".as_bytes();
    let crc: u32 = 2882656334;

    let chunk_data: Vec<u8> = data_length
        .to_be_bytes()
        .iter()
        .chain(chunk_type.iter())
        .chain(message_bytes.iter())
        .chain(crc.to_be_bytes().iter())
        .copied()
        .collect();

    Chunk::try_from(chunk_data.as_ref()).unwrap()
}

fn record(length: u32, chunk_type: &[u8], data: &[u8], crc: u32) -> Vec<u8> {
    let mut bytes = Vec::new();
    bytes.extend_from_slice(&length.to_be_bytes());
    bytes.extend_from_slice(chunk_type);
    bytes.extend_from_slice(data);
    bytes.extend_from_slice(&crc.to_be_bytes());
    bytes
}

#[test]
fn test_new_chunk() {
    let chunk_type = ChunkType::from_str("RuSt").unwrap();
    let data = "This is where your secret message will be!"
        .as_bytes()
        .to_vec();
    let chunk = Chunk::new(chunk_type, data);
    assert_eq!(chunk.length(), 42);
    assert_eq!(chunk.crc(), 2882656334);
}

#[test]
fn test_chunk_length() {
    let chunk = testing_chunk();
    assert_eq!(chunk.length(), 42);
}

#[test]
fn test_chunk_type() {
    let chunk = testing_chunk();
    assert_eq!(chunk.chunk_type().to_string(), String::from("RuSt"));
}

#[test]
fn test_chunk_string() {
    let chunk = testing_chunk();
    let chunk_string = chunk.data_as_string().unwrap();
    let expected_chunk_string = String::from("This is where your secret message will be!");
    assert_eq!(chunk_string, expected_chunk_string);
}

#[test]
fn test_chunk_crc() {
    let chunk = testing_chunk();
    assert_eq!(chunk.crc(), 2882656334);
}

#[test]
fn test_valid_chunk_from_bytes() {
    let data_length: u32 = 42;
    let chunk_type = "RuSt".as_bytes();
    let message_bytes = "This is where your secret message will be!".as_bytes();
    let crc: u32 = 2882656334;

    let chunk_data: Vec<u8> = data_length
        .to_be_bytes()
        .iter()
        .chain(chunk_type.iter())
        .chain(message_bytes.iter())
        .chain(crc.to_be_bytes().iter())
        .copied()
        .collect();

    let chunk = Chunk::try_from(chunk_data.as_ref()).unwrap();

    let chunk_string = chunk.data_as_string().unwrap();
    let expected_chunk_string = String::from("This is where your secret message will be!");

    assert_eq!(chunk.length(), 42);
    assert_eq!(chunk.chunk_type().to_string(), String::from("RuSt"));
    assert_eq!(chunk_string, expected_chunk_string);
    assert_eq!(chunk.crc(), 2882656334);
}

#[test]
fn test_invalid_chunk_from_bytes() {
    let data_length: u32 = 42;
    let chunk_type = "RuSt".as_bytes();
    let message_bytes = "This is where your secret message will be!".as_bytes();
    let crc: u32 = 2882656333;

    let chunk_data: Vec<u8> = data_length
        .to_be_bytes()
        .iter()
        .chain(chunk_type.iter())
        .chain(message_bytes.iter())
        .chain(crc.to_be_bytes().iter())
        .copied()
        .collect();

    let chunk = Chunk::try_from(chunk_data.as_ref());

    assert!(chunk.is_err());
}

#[test]
pub fn test_chunk_trait_impls() {
    let data_length: u32 = 42;
    let chunk_type = "RuSt".as_bytes();
    let message_bytes = "This is where your secret message will be!".as_bytes();
    let crc: u32 = 2882656334;

    let chunk_data: Vec<u8> = data_length
        .to_be_bytes()
        .iter()
        .chain(chunk_type.iter())
        .chain(message_bytes.iter())
        .chain(crc.to_be_bytes().iter())
        .copied()
        .collect();

    let chunk: Chunk = TryFrom::try_from(chunk_data.as_ref()).unwrap();

    let _chunk_string = format!("{}", chunk.to_string());
}

#[test]
fn wrong_checksum_is_a_checksum_failure() {
    let bytes = record(
        42,
        b"RuSt",
        b"This is where your secret message will be!",
        2882656333,
    );
    assert_eq!(Chunk::try_from(bytes.as_slice()).err(), Some(Error::CrcMismatch));
}

#[test]
fn new_chunk_holds_what_it_was_given() {
    let chunk = Chunk::new(ChunkType::from_str("ruSt").unwrap(), b"hello".to_vec());
    assert_eq!(chunk.length(), 5);
    assert_eq!(chunk.data(), b"hello");
    assert_eq!(chunk.chunk_type().bytes(), *b"ruSt");
    assert_eq!(chunk.data_as_string().unwrap(), "hello");
}

#[test]
fn checksum_of_known_records() {
    // The end marker of every PNG file.
    let end = Chunk::new(ChunkType::from_str("IEND").unwrap(), Vec::new());
    assert_eq!(end.length(), 0);
    assert_eq!(end.crc(), 0xAE42_6082);
    assert_eq!(end.as_bytes(), vec![0, 0, 0, 0, 73, 69, 78, 68, 0xAE, 0x42, 0x60, 0x82]);
    // The check value of the algorithm: the digits one to nine, here as the
    // type "1234" and the data "56789".
    let digits = ChunkType::try_from(*b"1234").unwrap();
    let check = Chunk::new(digits, b"56789".to_vec());
    assert_eq!(check.crc(), 0xCBF4_3926);
}

#[test]
fn checksum_depends_on_type_and_data() {
    let a = Chunk::new(ChunkType::from_str("RuSt").unwrap(), b"hello".to_vec());
    let b = Chunk::new(ChunkType::from_str("RuSu").unwrap(), b"hello".to_vec());
    let c = Chunk::new(ChunkType::from_str("RuSt").unwrap(), b"hellp".to_vec());
    assert_ne!(a.crc(), b.crc());
    assert_ne!(a.crc(), c.crc());
    // Not the data handed back: neither its length nor its first bytes.
    assert_ne!(a.crc(), 5);
    assert_ne!(a.crc().to_be_bytes(), *b"RuSt");
    assert_ne!(a.crc().to_be_bytes(), *b"hell");
}

#[test]
fn as_bytes_lays_out_length_type_data_checksum() {
    let chunk = testing_chunk();
    let bytes = chunk.as_bytes();
    assert_eq!(bytes.len(), 4 + 4 + 42 + 4);
    assert_eq!(&bytes[0..4], &[0, 0, 0, 42]);
    assert_eq!(&bytes[4..8], b"RuSt");
    assert_eq!(&bytes[8..50], b"This is where your secret message will be!");
    assert_eq!(&bytes[50..54], &2882656334u32.to_be_bytes());
}

#[test]
fn a_new_chunk_is_read_back_from_its_bytes() {
    let cases: [(&str, &[u8]); 4] = [
        ("RuSt", b"This is where your secret message will be!"),
        ("ruSt", b"hello"),
        ("IEND", b""),
        ("teXt", &[0, 255, 128, 7, 10, 13]),
    ];
    for (name, data) in cases {
        let chunk = Chunk::new(ChunkType::from_str(name).unwrap(), data.to_vec());
        let back = Chunk::try_from(chunk.as_bytes().as_slice()).unwrap();
        assert_eq!(back.length(), chunk.length());
        assert_eq!(back.chunk_type(), chunk.chunk_type());
        assert_eq!(back.data(), chunk.data());
        assert_eq!(back.crc(), chunk.crc());
        assert_eq!(back.as_bytes(), chunk.as_bytes());
    }
}

#[test]
fn a_chunk_is_read_from_the_start_of_longer_bytes() {
    let chunk = Chunk::new(ChunkType::from_str("ruSt").unwrap(), b"hello".to_vec());
    let mut bytes = chunk.as_bytes();
    bytes.extend_from_slice(&[1, 2, 3, 4, 5, 6, 7]);
    let back = Chunk::try_from(bytes.as_slice()).unwrap();
    assert_eq!(back.data(), b"hello");
    assert_eq!(back.length(), 5);
    assert_eq!(back.as_bytes(), chunk.as_bytes());
}

#[test]
fn any_flipped_bit_of_type_or_data_fails_the_checksum() {
    let chunk = testing_chunk();
    let good = chunk.as_bytes();
    for at in 4..(good.len() - 4) {
        for bit in 0..8 {
            let mut bad = good.clone();
            bad[at] ^= 1 << bit;
            let r = Chunk::try_from(bad.as_slice());
            assert_eq!(r.err(), Some(Error::CrcMismatch), "byte {} bit {}", at, bit);
        }
    }
}

#[test]
fn any_flipped_bit_of_the_checksum_fails_the_checksum() {
    let good = testing_chunk().as_bytes();
    for at in (good.len() - 4)..good.len() {
        for bit in 0..8 {
            let mut bad = good.clone();
            bad[at] ^= 1 << bit;
            assert_eq!(Chunk::try_from(bad.as_slice()).err(), Some(Error::CrcMismatch));
        }
    }
}

#[test]
fn short_bytes_are_out_of_bounds() {
    let good = testing_chunk().as_bytes();
    for n in 0..good.len() {
        let r = Chunk::try_from(&good[..n]);
        assert_eq!(r.err(), Some(Error::OutOfBounds), "{} bytes", n);
    }
    let empty: &[u8] = &[];
    assert_eq!(Chunk::try_from(empty).err(), Some(Error::OutOfBounds));
}

#[test]
fn a_length_beyond_the_bytes_is_out_of_bounds() {
    let mut bytes = testing_chunk().as_bytes();
    bytes[3] = 43;
    assert_eq!(Chunk::try_from(bytes.as_slice()).err(), Some(Error::OutOfBounds));
    let huge = record(u32::MAX, b"RuSt", b"", 0);
    assert_eq!(Chunk::try_from(huge.as_slice()).err(), Some(Error::OutOfBounds));
}

#[test]
fn a_type_that_is_not_ascii_is_refused_after_the_checksum() {
    let type_bytes = [200u8, 117, 83, 116];
    let sum = crc::Crc::<u32>::new(&crc::CRC_32_ISO_HDLC).checksum(&[200, 117, 83, 116, 1, 2]);
    let right = record(2, &type_bytes, &[1, 2], sum);
    assert_eq!(Chunk::try_from(right.as_slice()).err(), Some(Error::NotAscii));
    let wrong = record(2, &type_bytes, &[1, 2], sum ^ 1);
    assert_eq!(Chunk::try_from(wrong.as_slice()).err(), Some(Error::CrcMismatch));
    let short = record(3, &type_bytes, &[1, 2], sum);
    assert_eq!(Chunk::try_from(short.as_slice()).err(), Some(Error::OutOfBounds));
}

#[test]
fn the_checksum_is_that_of_the_crc_crate() {
    let crc32 = crc::Crc::<u32>::new(&crc::CRC_32_ISO_HDLC);
    let cases: [(&str, &[u8]); 3] = [("RuSt", b"hello"), ("IDAT", &[0, 1, 2, 253, 254, 255]), ("tEXt", b"")];
    for (name, data) in cases {
        let mut checked = name.as_bytes().to_vec();
        checked.extend_from_slice(data);
        let chunk = Chunk::new(ChunkType::from_str(name).unwrap(), data.to_vec());
        assert_eq!(chunk.crc(), crc32.checksum(&checked));
    }
}

#[test]
fn from_parts_compares_the_two_checksums_first() {
    let data = b"This is where your secret message will be!".to_vec();
    let ok = Chunk::from_parts(*b"RuSt", data.clone(), 2882656334, 2882656334).unwrap();
    assert_eq!(ok.length(), 42);
    assert_eq!(ok.crc(), 2882656334);
    assert_eq!(ok.data(), data.as_slice());
    assert_eq!(ok.chunk_type().to_string(), "RuSt");
    let r = Chunk::from_parts(*b"RuSt", data.clone(), 2882656333, 2882656334);
    assert_eq!(r.err(), Some(Error::CrcMismatch));
    let r = Chunk::from_parts([82, 117, 83, 216], data.clone(), 1, 1);
    assert_eq!(r.err(), Some(Error::NotAscii));
    let r = Chunk::from_parts([82, 117, 83, 216], data, 1, 2);
    assert_eq!(r.err(), Some(Error::CrcMismatch));
}

#[test]
fn with_crc_stores_the_checksum_it_is_given() {
    let chunk = Chunk::with_crc(ChunkType::from_str("RuSt").unwrap(), vec![1, 2, 3], 99);
    assert_eq!(chunk.crc(), 99);
    assert_eq!(chunk.length(), 3);
    assert_eq!(chunk.data(), &[1, 2, 3]);
    assert_eq!(chunk.chunk_type().bytes(), *b"RuSt");
    // Written with the wrong checksum, it is not read back.
    assert_eq!(
        Chunk::try_from(chunk.as_bytes().as_slice()).err(),
        Some(Error::CrcMismatch)
    );
}

#[test]
fn data_that_is_not_text() {
    let chunk = Chunk::new(ChunkType::from_str("RuSt").unwrap(), vec![0xff, 0xfe]);
    assert_eq!(chunk.data_as_string(), Err(Error::InvalidUtf8));
    let chunk = Chunk::new(ChunkType::from_str("RuSt").unwrap(), vec![0xc3]);
    assert_eq!(chunk.data_as_string(), Err(Error::InvalidUtf8));
    let chunk = Chunk::new(ChunkType::from_str("RuSt").unwrap(), vec![0xed, 0xa0, 0x80]);
    assert_eq!(chunk.data_as_string(), Err(Error::InvalidUtf8));
}

#[test]
fn data_that_is_text_beyond_ascii() {
    let text = "gr\u{fc}\u{df}e \u{4e16}\u{754c} \u{1f600}";
    let chunk = Chunk::new(ChunkType::from_str("RuSt").unwrap(), text.as_bytes().to_vec());
    assert_eq!(chunk.data_as_string().unwrap(), text);
    let empty = Chunk::new(ChunkType::from_str("RuSt").unwrap(), Vec::new());
    assert_eq!(empty.data_as_string().unwrap(), "");
}

#[test]
fn the_description_of_a_chunk() {
    let chunk = testing_chunk();
    assert_eq!(
        chunk.to_string(),
        "Chunk {\n  Length: 42\n  Type: RuSt\n  Data: 42 bytes\n  Crc: 2882656334\n}\n"
    );
    let end = Chunk::new(ChunkType::from_str("IEND").unwrap(), Vec::new());
    assert_eq!(
        end.to_string(),
        "Chunk {\n  Length: 0\n  Type: IEND\n  Data: 0 bytes\n  Crc: 2923585666\n}\n"
    );
}

#[test]
fn a_clone_holds_the_same() {
    let chunk = testing_chunk();
    let copy = chunk.clone();
    assert_eq!(copy.length(), 42);
    assert_eq!(copy.crc(), 2882656334);
    assert_eq!(copy.data(), chunk.data());
    assert_eq!(copy.chunk_type(), chunk.chunk_type());
    assert_eq!(copy.as_bytes(), chunk.as_bytes());
}

#[test]
fn big_endian_numbers() {
    assert_eq!(u32_to_be(0), [0, 0, 0, 0]);
    assert_eq!(u32_to_be(42), [0, 0, 0, 42]);
    assert_eq!(u32_to_be(0x0102_0304), [1, 2, 3, 4]);
    assert_eq!(u32_to_be(u32::MAX), [255, 255, 255, 255]);
    assert_eq!(u32_to_be(2882656334), 2882656334u32.to_be_bytes());
    for x in [0u32, 1, 255, 256, 65535, 65536, 0x00ff_ffff, 0x0100_0000, 0xdead_beef, u32::MAX] {
        assert_eq!(u32_to_be(x), x.to_be_bytes());
    }
}

#[test]
fn big_endian_numbers_are_read_where_they_stand() {
    for (length, crc) in [(0u32, 0u32), (3, 0xdead_beef), (3, u32::MAX), (3, 0x0102_0304)] {
        let data = vec![7u8; length as usize];
        let chunk = Chunk::with_crc(ChunkType::from_str("RuSt").unwrap(), data.clone(), crc);
        let bytes = chunk.as_bytes();
        assert_eq!(&bytes[bytes.len() - 4..], &crc.to_be_bytes());
        // The record is framed by the length that is read, and refused by
        // the checksum that is read.
        let sum = crc::Crc::<u32>::new(&crc::CRC_32_ISO_HDLC).checksum(&bytes[4..bytes.len() - 4]);
        let r = Chunk::try_from(bytes.as_slice());
        if sum == crc {
            assert_eq!(r.unwrap().crc(), crc);
        } else {
            assert_eq!(r.err(), Some(Error::CrcMismatch));
        }
        let good = record(length, b"RuSt", &data, sum);
        let back = Chunk::try_from(good.as_slice()).unwrap();
        assert_eq!(back.length(), length);
        assert_eq!(back.crc(), sum);
    }
}

#[test]
fn bytes_are_put_behind_bytes() {
    let mut buffer = vec![1u8, 2];
    append_bytes(&mut buffer, &[3, 4, 5]);
    assert_eq!(buffer, vec![1, 2, 3, 4, 5]);
    append_bytes(&mut buffer, &[]);
    assert_eq!(buffer, vec![1, 2, 3, 4, 5]);
    let mut empty: Vec<u8> = Vec::new();
    append_bytes(&mut empty, &[7]);
    assert_eq!(empty, vec![7]);
}
