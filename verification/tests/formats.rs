use bcsfe::country_code::{CountryCode, PatchingCode};
use bcsfe::game_version::GameVersion;
use bcsfe::hash::{add_hash, decode_hex, detect_cc, encode_hex, md5_hash_save, verify_md5_hash_save, write_hash};
use bcsfe::save::fields::Form;
use bcsfe::save::{Date, DateTime, DateTimeDst, MainDate, GVCC};
use bcsfe::stream::compound::{read_string, write_string};
use bcsfe::stream::lists::{read_vec, write_vec, VecArgs, VecArgsLength};
use bcsfe::stream::varint::VariableLengthInt;
use bcsfe::stream::{Readable, Reader, StreamErrorKind, Writable, Writer};

#[test]
fn integers_little_endian() {
    let mut w = Writer::new();
    0x01020304i32.write(&mut w);
    (-2i16).write(&mut w);
    true.write(&mut w);
    let bytes = w.into_bytes();
    assert_eq!(bytes, vec![4, 3, 2, 1, 0xfe, 0xff, 1]);
    let mut r = Reader::new(bytes);
    assert_eq!(i32::read(&mut r).ok(), Some(0x01020304));
    assert_eq!(i16::read(&mut r).ok(), Some(-2));
    assert_eq!(bool::read(&mut r).ok(), Some(true));
    match u8::read(&mut r) {
        Err(e) => assert_eq!(e.kind, StreamErrorKind::UnexpectedEnd),
        Ok(_) => panic!("read past the end"),
    }
}

#[test]
fn varint_roundtrip_and_bytes() {
    for v in [0u32, 1, 127, 128, 300, 16383, 16384, 0x0fff_ffff] {
        let mut w = Writer::new();
        VariableLengthInt(v).write(&mut w);
        let bytes = w.into_bytes();
        let mut r = Reader::new(bytes);
        assert_eq!(VariableLengthInt::read(&mut r).ok().map(|x| x.0), Some(v));
    }
    let mut w = Writer::new();
    VariableLengthInt(300).write(&mut w);
    assert_eq!(w.into_bytes(), vec![0x82, 0x2c]);
}

#[test]
fn strings_with_counts() {
    let mut w = Writer::new();
    write_string(&mut w, "héllo", VecArgsLength::I32);
    let bytes = w.into_bytes();
    assert_eq!(&bytes[..4], &[6, 0, 0, 0]);
    let mut r = Reader::new(bytes);
    assert_eq!(read_string(&mut r, VecArgsLength::I32).ok(), Some("héllo".to_string()));
    let mut bad = Reader::new(vec![2, 0, 0, 0, 0xff, 0xfe]);
    match read_string(&mut bad, VecArgsLength::I32) {
        Err(e) => assert_eq!(e.kind, StreamErrorKind::InvalidUtf8),
        Ok(_) => panic!("invalid utf-8 accepted"),
    }
}

#[test]
fn vectors_counted_fixed_and_negative() {
    let mut w = Writer::new();
    write_vec(&mut w, &[1i32, 2, 3], VecArgs::new_empty_i16());
    let bytes = w.into_bytes();
    assert_eq!(bytes.len(), 2 + 12);
    let mut r = Reader::new(bytes);
    assert_eq!(read_vec::<i32>(&mut r, VecArgs::new_empty_i16()).ok(), Some(vec![1, 2, 3]));

    // A fixed count pads with default values and drops extra ones.
    let mut w = Writer::new();
    write_vec(&mut w, &[7i8], VecArgs::new_empty_fixed(3));
    assert_eq!(w.into_bytes(), vec![7, 0, 0]);
    let mut w = Writer::new();
    write_vec(&mut w, &[1i8, 2, 3], VecArgs::new_empty_fixed(2));
    assert_eq!(w.into_bytes(), vec![1, 2]);

    let mut r = Reader::new(vec![0xff, 0xff, 0xff, 0xff]);
    match read_vec::<i8>(&mut r, VecArgs::new_empty_i32()) {
        Err(e) => assert_eq!(e.kind, StreamErrorKind::NegativeLength),
        Ok(_) => panic!("negative count accepted"),
    }
}

#[test]
fn main_date_layout() {
    let d = MainDate {
        datetime: DateTimeDst {
            dst: Some(true),
            datetime: DateTime { year: 2024, month: 5, day: 6, hour: 7, minute: 8, second: 9 },
        },
        timestamp: 1.5f64.to_bits(),
        date: Date { year: 2023, month: 1, day: 2 },
    };
    let en = GVCC { cc: CountryCode::En, gv: GameVersion(140000) };
    let mut w = Writer::new();
    d.write(&mut w, en);
    let bytes = w.into_bytes();
    assert_eq!(bytes.len(), 6 * 4 + 8 + 3 * 4 + 1);
    assert_eq!(&bytes[..8], &[0xe8, 0x07, 0, 0, 0xe7, 0x07, 0, 0]);
    let mut r = Reader::new(bytes);
    assert_eq!(MainDate::read(&mut r, en).ok(), Some(d));

    let jp = GVCC { cc: CountryCode::Jp, gv: GameVersion(140000) };
    let mut w = Writer::new();
    d.write(&mut w, jp);
    assert_eq!(w.into_bytes().len(), 6 * 4 + 8 + 3 * 4);
}

#[test]
fn forms() {
    assert_eq!(Form::try_from_i32(2).ok(), Some(Form::Third));
    assert_eq!(Form::try_from_i32(4).err(), Some("invalid form type: 4".to_string()));
    assert_eq!(Form::try_from_i32(-2147483648).err(), Some("invalid form type: -2147483648".to_string()));
    assert!(Form::try_from_i8(-1).is_err());
    assert_eq!(Form::try_from_i16(0).ok(), Some(Form::First));
    assert_eq!(Form::Fourth.into_i32(), 3);
}

#[test]
fn hex_text() {
    assert_eq!(encode_hex(&[0x00, 0xab, 0x7f]), "00ab7f");
    assert_eq!(decode_hex("00AB7f"), Some(vec![0x00, 0xab, 0x7f]));
    assert_eq!(decode_hex("abc"), None);
    assert_eq!(decode_hex("zz"), None);
}

#[test]
fn save_hash_known_values() {
    let data = [1u8, 2, 3];
    let en = PatchingCode(CountryCode::En);
    let hashed = add_hash(&data, en).unwrap();
    assert_eq!(&hashed[..3], &data);
    assert_eq!(std::str::from_utf8(&hashed[3..]).unwrap(), "e55efaa96a09e90f57726a21c6878fbf");
    let jp_hashed = add_hash(&data, PatchingCode(CountryCode::Jp)).unwrap();
    assert_eq!(std::str::from_utf8(&jp_hashed[3..]).unwrap(), "6293471189d5c6bf5e2c85042182a519");
    assert!(verify_md5_hash_save(&hashed, en));
    assert!(!verify_md5_hash_save(&hashed, PatchingCode(CountryCode::Kr)));
    assert_eq!(detect_cc(&hashed), Some(en));
    assert_eq!(detect_cc(&jp_hashed), Some(PatchingCode(CountryCode::Jp)));
    let mut broken = hashed.clone();
    broken[0] ^= 1;
    assert_eq!(detect_cc(&broken), None);
    assert_eq!(md5_hash_save(&hashed, en).map(|h| encode_hex(&h)), Some("e55efaa96a09e90f57726a21c6878fbf".to_string()));
    let rewritten = write_hash(&broken, en).unwrap();
    assert!(verify_md5_hash_save(&rewritten, en));
    assert_eq!(write_hash(&[0u8; 32], en), None);
}

#[test]
fn empty_data_hash_does_not_verify() {
    let en = PatchingCode(CountryCode::En);
    let hashed = add_hash(&[], en).unwrap();
    assert_eq!(hashed.len(), 32);
    assert!(!verify_md5_hash_save(&hashed, en));
}
