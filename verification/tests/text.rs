use rf95modem::text::{is_space, parse_i16, parse_unsigned, split, to_chars, trimmed};

fn chars(s: &str) -> Vec<char> {
    s.chars().collect()
}

#[test]
fn to_chars_keeps_every_character() {
    assert_eq!(to_chars("a,\u{e9}\u{3000}z"), vec!['a', ',', '\u{e9}', '\u{3000}', 'z']);
    assert_eq!(to_chars(""), Vec::<char>::new());
}

#[test]
fn white_space_is_what_std_calls_so() {
    let mut n: u32 = 0;
    while n < 0x11_0000 {
        if let Some(c) = char::from_u32(n) {
            assert_eq!(is_space(c), c.is_whitespace());
        }
        n += 1;
    }
}

#[test]
fn trimmed_takes_white_space_off_both_ends() {
    assert_eq!(trimmed(&chars("  a b \r\n")), chars("a b"));
    assert_eq!(trimmed(&chars("\t\u{a0}x\u{2003}")), chars("x"));
    assert_eq!(trimmed(&chars("abc")), chars("abc"));
    assert_eq!(trimmed(&chars("   ")), chars(""));
    assert_eq!(trimmed(&chars("")), chars(""));
    for s in ["  a b \r\n", "x", " ", "", "\n1,2,3,4\n", "\u{1680}q\u{85}"] {
        assert_eq!(trimmed(&chars(s)), chars(s.trim()));
    }
}

#[test]
fn split_cuts_at_every_comma() {
    assert_eq!(split(&chars("a,b,c")), vec![chars("a"), chars("b"), chars("c")]);
    assert_eq!(split(&chars("abc")), vec![chars("abc")]);
    assert_eq!(split(&chars("")), vec![chars("")]);
    assert_eq!(split(&chars(",")), vec![chars(""), chars("")]);
    assert_eq!(split(&chars(",,,")), vec![chars(""), chars(""), chars(""), chars("")]);
    assert_eq!(split(&chars("4,DEADBEEF,-42,7")), vec![
        chars("4"),
        chars("DEADBEEF"),
        chars("-42"),
        chars("7")
    ]);
    for s in ["a,b,c", ",x,", "", "no comma", "1,,2"] {
        let expected: Vec<Vec<char>> = s.split(',').map(chars).collect();
        assert_eq!(split(&chars(s)), expected);
    }
}

#[test]
fn parse_unsigned_reads_decimal_numbers() {
    assert_eq!(parse_unsigned(&chars("0")), Some(0));
    assert_eq!(parse_unsigned(&chars("4")), Some(4));
    assert_eq!(parse_unsigned(&chars("+17")), Some(17));
    assert_eq!(parse_unsigned(&chars("000255")), Some(255));
    assert_eq!(parse_unsigned(&chars(&usize::MAX.to_string())), Some(usize::MAX));
}

#[test]
fn parse_unsigned_refuses_everything_else() {
    assert_eq!(parse_unsigned(&chars("")), None);
    assert_eq!(parse_unsigned(&chars("+")), None);
    assert_eq!(parse_unsigned(&chars("-1")), None);
    assert_eq!(parse_unsigned(&chars("-0")), None);
    assert_eq!(parse_unsigned(&chars("4 ")), None);
    assert_eq!(parse_unsigned(&chars("0x4")), None);
    assert_eq!(parse_unsigned(&chars("++4")), None);
    assert_eq!(parse_unsigned(&chars("four")), None);
    assert_eq!(parse_unsigned(&chars("340282366920938463463374607431768211456")), None);
    assert_eq!(parse_unsigned(&chars("99999999999999999999999999999999999999999999x")), None);
    let mut above = usize::MAX.to_string();
    above.push('0');
    assert_eq!(parse_unsigned(&chars(&above)), None);
}

#[test]
fn parse_i16_reads_signed_numbers() {
    assert_eq!(parse_i16(&chars("-42")), Some(-42));
    assert_eq!(parse_i16(&chars("7")), Some(7));
    assert_eq!(parse_i16(&chars("+7")), Some(7));
    assert_eq!(parse_i16(&chars("-0")), Some(0));
    assert_eq!(parse_i16(&chars("32767")), Some(32767));
    assert_eq!(parse_i16(&chars("-32768")), Some(-32768));
    assert_eq!(parse_i16(&chars("-0000032768")), Some(-32768));
}

#[test]
fn parse_i16_refuses_everything_else() {
    assert_eq!(parse_i16(&chars("32768")), None);
    assert_eq!(parse_i16(&chars("-32769")), None);
    assert_eq!(parse_i16(&chars("")), None);
    assert_eq!(parse_i16(&chars("-")), None);
    assert_eq!(parse_i16(&chars("+")), None);
    assert_eq!(parse_i16(&chars("+-1")), None);
    assert_eq!(parse_i16(&chars("1.5")), None);
    assert_eq!(parse_i16(&chars(" 1")), None);
    assert_eq!(parse_i16(&chars("99999999999999999999999999")), None);
}

#[test]
fn number_parsing_agrees_with_std() {
    for s in ["0", "+5", "-5", "65535", "32767", "32768", "-32768", "-32769", "", "+", "-", "1a", "007"] {
        assert_eq!(parse_i16(&chars(s)), s.parse::<i16>().ok());
        assert_eq!(parse_unsigned(&chars(s)), s.parse::<usize>().ok());
    }
}
