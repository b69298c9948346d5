use rf95modem::hex::{decode_chars, hex_digit_value};
use rf95modem::{hexify, unhexify, ModemError};

#[test]
fn hexify_writes_two_lowercase_digits_per_byte() {
    assert_eq!(hexify(&[0xde, 0xad, 0xbe, 0xef]), "deadbeef");
    assert_eq!(hexify(&[0x00, 0x01, 0x0a, 0x10, 0xff]), "00010a10ff");
    assert_eq!(hexify(&[0x7f]), "7f");
}

#[test]
fn hexify_of_nothing_is_empty() {
    assert_eq!(hexify(&[]), "");
}

#[test]
fn hexify_doubles_the_length() {
    let bytes: Vec<u8> = (0..=255u8).collect();
    let text = hexify(&bytes);
    assert_eq!(text.len(), 512);
    assert!(text.chars().all(|c| c.is_ascii_digit() || ('a'..='f').contains(&c)));
}

#[test]
fn unhexify_reads_both_cases() {
    assert_eq!(unhexify("deadbeef"), Ok(vec![0xde, 0xad, 0xbe, 0xef]));
    assert_eq!(unhexify("DEADBEEF"), Ok(vec![0xde, 0xad, 0xbe, 0xef]));
    assert_eq!(unhexify("00fF"), Ok(vec![0x00, 0xff]));
    assert_eq!(unhexify(""), Ok(vec![]));
}

#[test]
fn unhexify_refuses_odd_length() {
    assert_eq!(unhexify("a"), Err(ModemError::Decode));
    assert_eq!(unhexify("abc"), Err(ModemError::Decode));
    assert_eq!(unhexify("deadbee"), Err(ModemError::Decode));
}

#[test]
fn unhexify_refuses_other_characters() {
    assert_eq!(unhexify("zz"), Err(ModemError::Decode));
    assert_eq!(unhexify("0g"), Err(ModemError::Decode));
    assert_eq!(unhexify("g0"), Err(ModemError::Decode));
    assert_eq!(unhexify("+f"), Err(ModemError::Decode));
    assert_eq!(unhexify("0x12"), Err(ModemError::Decode));
    assert_eq!(unhexify("12 4"), Err(ModemError::Decode));
    assert_eq!(unhexify("\u{e9}\u{e9}"), Err(ModemError::Decode));
}

#[test]
fn decoding_undoes_encoding() {
    let all: Vec<u8> = (0..=255u8).collect();
    assert_eq!(unhexify(&hexify(&all)), Ok(all));
    let some = vec![0x00, 0xff, 0x10, 0x01, 0x80, 0x7f];
    assert_eq!(unhexify(&hexify(&some)), Ok(some));
    assert_eq!(unhexify(&hexify(&[])), Ok(vec![]));
}

#[test]
fn hex_digit_values() {
    assert_eq!(hex_digit_value('0'), Some(0));
    assert_eq!(hex_digit_value('9'), Some(9));
    assert_eq!(hex_digit_value('a'), Some(10));
    assert_eq!(hex_digit_value('f'), Some(15));
    assert_eq!(hex_digit_value('A'), Some(10));
    assert_eq!(hex_digit_value('F'), Some(15));
    assert_eq!(hex_digit_value('g'), None);
    assert_eq!(hex_digit_value('G'), None);
    assert_eq!(hex_digit_value('/'), None);
    assert_eq!(hex_digit_value(':'), None);
    assert_eq!(hex_digit_value('@'), None);
    assert_eq!(hex_digit_value('`'), None);
}

#[test]
fn decode_chars_reads_characters() {
    assert_eq!(decode_chars(&['1', '2', 'a', 'B']), Ok(vec![0x12, 0xab]));
    assert_eq!(decode_chars(&['1', '2', 'a']), Err(ModemError::Decode));
    assert_eq!(decode_chars(&['1', '-']), Err(ModemError::Decode));
}
