use prost::encoding::WireType;
use tonic_richer_error::wire::read_field_key;
use tonic_richer_error::wire::same_text;
use tonic_richer_error::wire::skip_unknown;
use tonic_richer_error::wire::take_bytes;
use tonic_richer_error::wire::take_length_delimited;
use tonic_richer_error::wire::take_number;
use tonic_richer_error::wire::take_text;
use tonic_richer_error::wire::write_length_delimited;
use tonic_richer_error::wire::write_plain_bytes;
use tonic_richer_error::wire::write_plain_number;
use tonic_richer_error::wire::write_plain_text;
use tonic_richer_error::wire::write_text;
use tonic_richer_error::DecodeFailure;

#[test]
fn number_field_is_key_and_varint() {
    let mut buf = Vec::new();
    write_plain_number(1, 5, &mut buf);
    assert_eq!(buf, vec![8, 5]);

    let mut buf = Vec::new();
    write_plain_number(1, 300, &mut buf);
    assert_eq!(buf, vec![8, 0xAC, 0x02]);

    let mut buf = vec![7];
    write_plain_number(2, 127, &mut buf);
    assert_eq!(buf, vec![7, 16, 127]);

    let mut buf = Vec::new();
    write_plain_number(2, 128, &mut buf);
    assert_eq!(buf, vec![16, 128, 1]);
}

#[test]
fn number_field_of_zero_is_left_out() {
    let mut buf = vec![1, 2, 3];
    write_plain_number(1, 0, &mut buf);
    assert_eq!(buf, vec![1, 2, 3]);
}

#[test]
fn largest_number_takes_ten_bytes() {
    let mut buf = Vec::new();
    write_plain_number(1, u64::MAX, &mut buf);
    assert_eq!(
        buf,
        vec![8, 255, 255, 255, 255, 255, 255, 255, 255, 255, 1]
    );
    let (v, rest) = take_number(WireType::Varint, &buf[1..]).unwrap();
    assert_eq!(v, u64::MAX);
    assert!(rest.is_empty());
}

#[test]
fn number_is_read_with_what_follows() {
    let bytes = [0xAC, 0x02, 9, 9];
    let (v, rest) = take_number(WireType::Varint, &bytes).unwrap();
    assert_eq!(v, 300);
    assert_eq!(rest, &[9, 9]);
}

#[test]
fn overlong_varint_is_read() {
    let bytes = [0x80, 0x80, 0x00, 4];
    let (v, rest) = take_number(WireType::Varint, &bytes).unwrap();
    assert_eq!(v, 0);
    assert_eq!(rest, &[4]);
}

#[test]
fn varint_that_ends_early_fails() {
    assert_eq!(
        take_number(WireType::Varint, &[0x80, 0x80]),
        Err(DecodeFailure)
    );
    assert_eq!(take_number(WireType::Varint, &[]), Err(DecodeFailure));
}

#[test]
fn varint_of_eleven_bytes_fails() {
    let bytes = [0x80, 0x80, 0x80, 0x80, 0x80, 0x80, 0x80, 0x80, 0x80, 0x80, 0x01];
    assert_eq!(take_number(WireType::Varint, &bytes), Err(DecodeFailure));
}

#[test]
fn tenth_byte_above_one_fails() {
    let bytes = [0xFF, 0xFF, 0xFF, 0xFF, 0xFF, 0xFF, 0xFF, 0xFF, 0xFF, 0x02];
    assert_eq!(take_number(WireType::Varint, &bytes), Err(DecodeFailure));
}

#[test]
fn number_of_another_wire_type_fails() {
    assert_eq!(
        take_number(WireType::LengthDelimited, &[5]),
        Err(DecodeFailure)
    );
}

#[test]
fn key_is_read_as_number_and_wire_type() {
    let (tag, wire, rest) = read_field_key(&[10, 1, 2]).unwrap();
    assert_eq!(tag, 1);
    assert_eq!(wire, WireType::LengthDelimited);
    assert_eq!(rest, &[1, 2]);

    let (tag, wire, rest) = read_field_key(&[0x80 | 0x18, 0x01]).unwrap();
    assert_eq!(tag, 19);
    assert_eq!(wire, WireType::Varint);
    assert!(rest.is_empty());
}

#[test]
fn key_of_field_zero_fails() {
    assert_eq!(read_field_key(&[2]), Err(DecodeFailure));
}

#[test]
fn key_of_unknown_wire_type_fails() {
    assert_eq!(read_field_key(&[8 + 6]), Err(DecodeFailure));
    assert_eq!(read_field_key(&[8 + 7]), Err(DecodeFailure));
}

#[test]
fn key_above_32_bits_fails() {
    assert_eq!(
        read_field_key(&[0x88, 0x80, 0x80, 0x80, 0x10]),
        Err(DecodeFailure)
    );
}

#[test]
fn text_field_is_key_length_and_bytes() {
    let mut buf = Vec::new();
    write_text(1, "abc", &mut buf);
    assert_eq!(buf, vec![10, 3, 97, 98, 99]);

    let mut buf = Vec::new();
    write_text(2, "", &mut buf);
    assert_eq!(buf, vec![18, 0]);

    let mut buf = Vec::new();
    write_plain_text(2, "", &mut buf);
    assert!(buf.is_empty());

    let mut buf = Vec::new();
    write_plain_text(4, "é", &mut buf);
    assert_eq!(buf, vec![34, 2, 0xC3, 0xA9]);
}

#[test]
fn text_is_read_with_what_follows() {
    let (text, rest) = take_text(WireType::LengthDelimited, &[2, 0xC3, 0xA9, 7]).unwrap();
    assert_eq!(text, "é");
    assert_eq!(rest, &[7]);
}

#[test]
fn text_that_is_not_utf8_fails() {
    assert_eq!(
        take_text(WireType::LengthDelimited, &[2, 0xC3, 0x28]),
        Err(DecodeFailure)
    );
    assert_eq!(
        take_text(WireType::LengthDelimited, &[1, 0xFF]),
        Err(DecodeFailure)
    );
}

#[test]
fn text_of_another_wire_type_fails() {
    assert_eq!(take_text(WireType::Varint, &[1, 97]), Err(DecodeFailure));
}

#[test]
fn payload_longer_than_the_rest_fails() {
    assert_eq!(take_length_delimited(&[3, 1, 2]), Err(DecodeFailure));
    assert_eq!(
        take_text(WireType::LengthDelimited, &[3, 97, 98]),
        Err(DecodeFailure)
    );
    assert_eq!(
        take_bytes(WireType::LengthDelimited, &[1]),
        Err(DecodeFailure)
    );
}

#[test]
fn payload_is_read_with_what_follows() {
    let (payload, rest) = take_length_delimited(&[2, 1, 2, 3]).unwrap();
    assert_eq!(payload, &[1, 2]);
    assert_eq!(rest, &[3]);

    let (payload, rest) = take_length_delimited(&[0]).unwrap();
    assert!(payload.is_empty());
    assert!(rest.is_empty());
}

#[test]
fn long_payload_has_a_two_byte_length() {
    let payload = vec![1u8; 300];
    let mut buf = Vec::new();
    write_length_delimited(&payload, &mut buf);
    assert_eq!(buf.len(), 302);
    assert_eq!(&buf[..2], &[0xAC, 0x02]);
    let (back, rest) = take_length_delimited(&buf).unwrap();
    assert_eq!(back, &payload[..]);
    assert!(rest.is_empty());
}

#[test]
fn bytes_field_is_key_length_and_bytes() {
    let mut buf = Vec::new();
    write_plain_bytes(2, &[0xFF, 0x00], &mut buf);
    assert_eq!(buf, vec![18, 2, 0xFF, 0x00]);
    let (payload, rest) = take_bytes(WireType::LengthDelimited, &buf[1..]).unwrap();
    assert_eq!(payload, vec![0xFF, 0x00]);
    assert!(rest.is_empty());

    let mut buf = Vec::new();
    write_plain_bytes(2, &[], &mut buf);
    assert!(buf.is_empty());
}

#[test]
fn unknown_field_is_passed_over() {
    let rest = skip_unknown(WireType::Varint, 9, &[0xAC, 0x02, 1]).unwrap();
    assert_eq!(rest, &[1]);
    let rest = skip_unknown(WireType::ThirtyTwoBit, 9, &[1, 2, 3, 4, 5]).unwrap();
    assert_eq!(rest, &[5]);
    let rest = skip_unknown(WireType::SixtyFourBit, 9, &[1, 2, 3, 4, 5, 6, 7, 8, 9]).unwrap();
    assert_eq!(rest, &[9]);
    let rest = skip_unknown(WireType::LengthDelimited, 9, &[2, 7, 7, 3]).unwrap();
    assert_eq!(rest, &[3]);
    // a group of field 9 that holds one varint field and ends with its end key
    let rest = skip_unknown(WireType::StartGroup, 9, &[8, 1, 9 * 8 + 4, 6]).unwrap();
    assert_eq!(rest, &[6]);
}

#[test]
fn unknown_field_that_ends_early_fails() {
    assert_eq!(
        skip_unknown(WireType::ThirtyTwoBit, 9, &[1, 2, 3]),
        Err(DecodeFailure)
    );
    assert_eq!(
        skip_unknown(WireType::LengthDelimited, 9, &[5, 1]),
        Err(DecodeFailure)
    );
    assert_eq!(skip_unknown(WireType::EndGroup, 9, &[]), Err(DecodeFailure));
    assert_eq!(
        skip_unknown(WireType::StartGroup, 9, &[8, 1]),
        Err(DecodeFailure)
    );
}

#[test]
fn texts_are_compared_by_their_characters() {
    assert!(same_text("", ""));
    assert!(same_text("abc", "abc"));
    assert!(!same_text("abc", "abd"));
    assert!(!same_text("abc", "ab"));
    assert!(!same_text("é", "e"));
    assert!(same_text("日本語", "日本語"));
}
