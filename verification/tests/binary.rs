use extjson::{
    binary, binary_from_decoded, decode_subtype, Base64Error, Binary, BinarySubtype, BsonValue,
    DecodeError, Double, HexError, Key, Member, Value,
};

fn text(s: &str) -> Value {
    Value::Text(s.to_string())
}

fn object(members: Vec<(&str, Value)>) -> Value {
    Value::Object(
        members
            .into_iter()
            .map(|(key, value)| Member { key: Key::Name(key.to_string()), value })
            .collect(),
    )
}

fn payload_and_subtype(payload: &str, subtype: &str) -> Value {
    object(vec![("base64", text(payload)), ("subType", text(subtype))])
}

fn decoded(bytes: &[u8], subtype: BinarySubtype) -> Result<BsonValue, DecodeError> {
    Ok(BsonValue::Binary(Binary { bytes: bytes.to_vec(), subtype }))
}

#[test]
fn payload_is_decoded_from_base64() {
    assert_eq!(binary(&payload_and_subtype("AQ==", "00")), decoded(&[1], BinarySubtype::Generic));
    assert_eq!(
        binary(&payload_and_subtype("aGVsbG8gd29ybGQ=", "00")),
        decoded(b"hello world", BinarySubtype::Generic)
    );
    assert_eq!(
        binary(&payload_and_subtype("+/+/", "00")),
        decoded(&[0xfb, 0xff, 0xbf], BinarySubtype::Generic)
    );
    assert_eq!(binary(&payload_and_subtype("", "00")), decoded(&[], BinarySubtype::Generic));
}

#[test]
fn subtype_is_read_from_two_hex_digits() {
    assert_eq!(binary(&payload_and_subtype("AQ==", "01")), decoded(&[1], BinarySubtype::Function));
    assert_eq!(binary(&payload_and_subtype("AQ==", "02")), decoded(&[1], BinarySubtype::BinaryOld));
    assert_eq!(binary(&payload_and_subtype("AQ==", "03")), decoded(&[1], BinarySubtype::UuidOld));
    assert_eq!(binary(&payload_and_subtype("AQ==", "04")), decoded(&[1], BinarySubtype::Uuid));
    assert_eq!(binary(&payload_and_subtype("AQ==", "05")), decoded(&[1], BinarySubtype::Md5));
    assert_eq!(
        binary(&payload_and_subtype("AQ==", "06")),
        decoded(&[1], BinarySubtype::UserDefined(6))
    );
    assert_eq!(
        binary(&payload_and_subtype("AQ==", "80")),
        decoded(&[1], BinarySubtype::UserDefined(0x80))
    );
    assert_eq!(
        binary(&payload_and_subtype("AQ==", "fF")),
        decoded(&[1], BinarySubtype::UserDefined(0xff))
    );
    assert_eq!(
        binary(&payload_and_subtype("AQ==", "Ab")),
        decoded(&[1], BinarySubtype::UserDefined(0xab))
    );
}

#[test]
fn subtype_is_read_from_one_hex_digit() {
    assert_eq!(binary(&payload_and_subtype("AQ==", "5")), decoded(&[1], BinarySubtype::Md5));
    assert_eq!(binary(&payload_and_subtype("AQ==", "0")), decoded(&[1], BinarySubtype::Generic));
    assert_eq!(binary(&payload_and_subtype("AQ==", "4")), decoded(&[1], BinarySubtype::Uuid));
    assert_eq!(
        binary(&payload_and_subtype("AQ==", "9")),
        decoded(&[1], BinarySubtype::UserDefined(9))
    );
    assert_eq!(
        binary(&payload_and_subtype("AQ==", "a")),
        decoded(&[1], BinarySubtype::UserDefined(10))
    );
    assert_eq!(
        binary(&payload_and_subtype("AQ==", "F")),
        decoded(&[1], BinarySubtype::UserDefined(15))
    );
    for value in 0..16u8 {
        for written in [format!("{:x}", value), format!("{:X}", value)] {
            assert_eq!(decode_subtype(written.as_bytes()), Ok(vec![value]), "{}", written);
            assert_eq!(
                binary(&payload_and_subtype("AQ==", &written)),
                binary(&payload_and_subtype("AQ==", &format!("0{}", written)))
            );
        }
    }
}

#[test]
fn subtype_text_is_read_as_one_or_two_digits() {
    assert_eq!(decode_subtype(b""), Ok(vec![]));
    assert_eq!(decode_subtype(b"5"), Ok(vec![5]));
    assert_eq!(decode_subtype(b"05"), Ok(vec![5]));
    assert_eq!(decode_subtype(b"50"), Ok(vec![0x50]));
    assert_eq!(decode_subtype(b"0500"), Ok(vec![5, 0]));
    assert_eq!(decode_subtype(b"050"), Err(HexError::OddLength));
    assert_eq!(decode_subtype(b"g"), Err(HexError::InvalidCharacter { c: 'g', index: 0 }));
    assert_eq!(decode_subtype(b"0g"), Err(HexError::InvalidCharacter { c: 'g', index: 1 }));
    assert_eq!(decode_subtype(b"g0"), Err(HexError::InvalidCharacter { c: 'g', index: 0 }));
    assert_eq!(decode_subtype(&[0xff]), Err(HexError::InvalidCharacter { c: '\u{ff}', index: 0 }));
    for byte in 0..=255u8 {
        let expected = match (byte as char).to_digit(16) {
            Some(value) => Ok(vec![value as u8]),
            None => Err(HexError::InvalidCharacter { c: byte as char, index: 0 }),
        };
        assert_eq!(decode_subtype(&[byte]), expected, "{}", byte);
    }
}

#[test]
fn subtype_of_any_other_length_fails() {
    assert_eq!(
        binary(&payload_and_subtype("AQ==", "")),
        Err(DecodeError::BinarySubtypeLength { len: 0 })
    );
    assert_eq!(
        binary(&payload_and_subtype("AQ==", "000")),
        Err(DecodeError::BinarySubtypeFormat(HexError::OddLength))
    );
    assert_eq!(
        binary(&payload_and_subtype("AQ==", "0000")),
        Err(DecodeError::BinarySubtypeLength { len: 2 })
    );
    assert_eq!(
        binary(&payload_and_subtype("AQ==", "000102030405")),
        Err(DecodeError::BinarySubtypeLength { len: 6 })
    );
    for subtype in ["", "000", "0000", "00000", "zzz", "zzzz", "é0é", "0 0 "] {
        assert!(binary(&payload_and_subtype("AQ==", subtype)).is_err(), "{:?}", subtype);
    }
}

#[test]
fn subtype_that_is_not_hexadecimal_fails() {
    assert_eq!(
        binary(&payload_and_subtype("AQ==", "0g")),
        Err(DecodeError::BinarySubtypeFormat(HexError::InvalidCharacter { c: 'g', index: 1 }))
    );
    assert_eq!(
        binary(&payload_and_subtype("AQ==", "x0")),
        Err(DecodeError::BinarySubtypeFormat(HexError::InvalidCharacter { c: 'x', index: 0 }))
    );
    assert_eq!(
        binary(&payload_and_subtype("AQ==", " 0")),
        Err(DecodeError::BinarySubtypeFormat(HexError::InvalidCharacter { c: ' ', index: 0 }))
    );
    assert_eq!(
        binary(&payload_and_subtype("AQ==", "g")),
        Err(DecodeError::BinarySubtypeFormat(HexError::InvalidCharacter { c: 'g', index: 0 }))
    );
    assert_eq!(
        binary(&payload_and_subtype("AQ==", " ")),
        Err(DecodeError::BinarySubtypeFormat(HexError::InvalidCharacter { c: ' ', index: 0 }))
    );
    // One character of two bytes: an even number of bytes, none of them a digit.
    assert_eq!(
        binary(&payload_and_subtype("AQ==", "é")),
        Err(DecodeError::BinarySubtypeFormat(HexError::InvalidCharacter {
            c: '\u{c3}',
            index: 0
        }))
    );
    assert_eq!(
        binary(&payload_and_subtype("AQ==", "0é")),
        Err(DecodeError::BinarySubtypeFormat(HexError::OddLength))
    );
}

#[test]
fn payload_that_is_not_base64_fails() {
    assert_eq!(
        binary(&payload_and_subtype("A", "00")),
        Err(DecodeError::BinaryPayloadFormat(Base64Error::InvalidLength))
    );
    assert_eq!(
        binary(&payload_and_subtype("A!==", "00")),
        Err(DecodeError::BinaryPayloadFormat(Base64Error::InvalidByte { offset: 1, byte: b'!' }))
    );
    assert_eq!(
        binary(&payload_and_subtype("AR==", "00")),
        Err(DecodeError::BinaryPayloadFormat(Base64Error::InvalidLastSymbol {
            offset: 1,
            byte: b'R'
        }))
    );
    assert!(binary(&payload_and_subtype("AQ== ", "00")).is_err());
    assert!(binary(&payload_and_subtype("A-_/", "00")).is_err());
}

#[test]
fn payload_is_judged_before_subtype() {
    assert_eq!(
        binary(&payload_and_subtype("A", "0g")),
        Err(DecodeError::BinaryPayloadFormat(Base64Error::InvalidLength))
    );
    assert_eq!(
        binary(&payload_and_subtype("A", "")),
        Err(DecodeError::BinaryPayloadFormat(Base64Error::InvalidLength))
    );
}

#[test]
fn both_fields_must_be_strings() {
    assert_eq!(
        binary(&object(vec![("subType", text("00"))])),
        Err(DecodeError::BinaryPayload)
    );
    assert_eq!(
        binary(&object(vec![("base64", text("AQ=="))])),
        Err(DecodeError::BinarySubtype)
    );
    assert_eq!(
        binary(&object(vec![("base64", Value::Null), ("subType", Value::Null)])),
        Err(DecodeError::BinaryPayload)
    );
    assert_eq!(
        binary(&object(vec![
            ("base64", text("AQ==")),
            ("subType", Value::Number(Double::from_bits(0)))
        ])),
        Err(DecodeError::BinarySubtype)
    );
    assert_eq!(binary(&text("AQ==")), Err(DecodeError::BinaryPayload));
    assert_eq!(binary(&Value::Array(vec![])), Err(DecodeError::BinaryPayload));
    // The names are matched to the letter.
    assert_eq!(
        binary(&object(vec![("base64", text("AQ==")), ("subtype", text("00"))])),
        Err(DecodeError::BinarySubtype)
    );
}

#[test]
fn decoded_parts_are_put_together() {
    assert_eq!(
        binary_from_decoded(Ok(vec![1, 2, 3]), Ok(vec![4])),
        decoded(&[1, 2, 3], BinarySubtype::Uuid)
    );
    assert_eq!(
        binary_from_decoded(Ok(vec![1, 2, 3]), Ok(vec![])),
        Err(DecodeError::BinarySubtypeLength { len: 0 })
    );
    assert_eq!(
        binary_from_decoded(Ok(vec![1, 2, 3]), Ok(vec![4, 5])),
        Err(DecodeError::BinarySubtypeLength { len: 2 })
    );
    assert_eq!(
        binary_from_decoded(Ok(vec![1]), Err(HexError::OddLength)),
        Err(DecodeError::BinarySubtypeFormat(HexError::OddLength))
    );
    assert_eq!(
        binary_from_decoded(Err(Base64Error::InvalidLength), Err(HexError::OddLength)),
        Err(DecodeError::BinaryPayloadFormat(Base64Error::InvalidLength))
    );
    assert_eq!(
        binary_from_decoded(Err(Base64Error::InvalidByte { offset: 3, byte: 9 }), Ok(vec![0])),
        Err(DecodeError::BinaryPayloadFormat(Base64Error::InvalidByte { offset: 3, byte: 9 }))
    );
}

#[test]
fn every_tag_byte_can_be_had_back() {
    for tag in 0..=255u8 {
        let subtype = BinarySubtype::from_byte(tag);
        assert_eq!(subtype.to_byte(), tag);
        match tag {
            0 => assert_eq!(subtype, BinarySubtype::Generic),
            1 => assert_eq!(subtype, BinarySubtype::Function),
            2 => assert_eq!(subtype, BinarySubtype::BinaryOld),
            3 => assert_eq!(subtype, BinarySubtype::UuidOld),
            4 => assert_eq!(subtype, BinarySubtype::Uuid),
            5 => assert_eq!(subtype, BinarySubtype::Md5),
            _ => assert_eq!(subtype, BinarySubtype::UserDefined(tag)),
        }
    }
}
