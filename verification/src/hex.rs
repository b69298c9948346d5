use crate::error::ModemError;
use crate::text::to_chars;
use vstd::prelude::*;

verus! {

/// The lowercase hex digit that stands for a value below 16.
pub open spec fn hex_char(n: int) -> char
    recommends
        0 <= n < 16,
{
    if n < 10 {
        (n + 48) as char
    } else {
        (n + 87) as char
    }
}

/// True for `0`–`9`, `a`–`f` and `A`–`F`.
pub open spec fn is_hex_digit(c: char) -> bool {
    ('0' <= c <= '9') || ('a' <= c <= 'f') || ('A' <= c <= 'F')
}

/// True for `0`–`9` and `a`–`f`.
pub open spec fn is_lower_hex_digit(c: char) -> bool {
    ('0' <= c <= '9') || ('a' <= c <= 'f')
}

/// The value of a hex digit, in either case.
pub open spec fn hex_value(c: char) -> int
    recommends
        is_hex_digit(c),
{
    if '0' <= c <= '9' {
        c as int - 48
    } else if 'a' <= c <= 'f' {
        c as int - 87
    } else {
        c as int - 55
    }
}

/// The byte that two hex digits stand for, the high one first.
pub open spec fn hex_pair(hi: char, lo: char) -> u8
    recommends
        is_hex_digit(hi),
        is_hex_digit(lo),
{
    (hex_value(hi) * 16 + hex_value(lo)) as u8
}

/// The hex text of a byte sequence: two lowercase digits for each byte, the
/// high half first, and nothing else.
pub open spec fn hex_encode(bytes: Seq<u8>) -> Seq<char> {
    Seq::new(
        2 * bytes.len(),
        |i: int|
            if i % 2 == 0 {
                hex_char(bytes[i / 2] as int / 16)
            } else {
                hex_char(bytes[i / 2] as int % 16)
            },
    )
}

/// True for text that stands for a byte sequence: of even length, and of
/// hex digits only.
pub open spec fn is_hex_text(text: Seq<char>) -> bool {
    &&& text.len() % 2 == 0
    &&& forall|i: int| 0 <= i < text.len() ==> is_hex_digit(#[trigger] text[i])
}

/// The byte sequence that a text stands for, taken two digits at a time, or
/// `None` for a text that stands for none.
pub open spec fn hex_decode(text: Seq<char>) -> Option<Seq<u8>> {
    if is_hex_text(text) {
        Some(Seq::new(text.len() / 2, |k: int| hex_pair(text[2 * k], text[2 * k + 1])))
    } else {
        None
    }
}

/// Decoding undoes encoding: the hex text of any byte sequence is accepted,
/// and stands for that byte sequence.
pub proof fn lemma_decode_encode(bytes: Seq<u8>)
    ensures
        is_hex_text(hex_encode(bytes)),
        hex_decode(hex_encode(bytes)) == Some(bytes),
{
    let text = hex_encode(bytes);
    assert forall|i: int| 0 <= i < text.len() implies is_lower_hex_digit(#[trigger] text[i]) by {
        lemma_hex_char(bytes[i / 2] as int / 16);
        lemma_hex_char(bytes[i / 2] as int % 16);
    }
    assert(is_hex_text(text));
    let back = hex_decode(text).unwrap();
    assert forall|k: int| 0 <= k < bytes.len() implies back[k] == bytes[k] by {
        lemma_hex_char(bytes[k] as int / 16);
        lemma_hex_char(bytes[k] as int % 16);
        assert(text[2 * k] == hex_char(bytes[k] as int / 16));
        assert(text[2 * k + 1] == hex_char(bytes[k] as int % 16));
    }
    assert(back =~= bytes);
}

/// Encoding writes lowercase digits only, two for each byte.
pub proof fn lemma_encode_is_lowercase(bytes: Seq<u8>)
    ensures
        hex_encode(bytes).len() == 2 * bytes.len(),
        forall|i: int|
            0 <= i < hex_encode(bytes).len() ==> is_lower_hex_digit(#[trigger] hex_encode(bytes)[i]),
{
    let text = hex_encode(bytes);
    assert forall|i: int| 0 <= i < text.len() implies is_lower_hex_digit(#[trigger] text[i]) by {
        lemma_hex_char(bytes[i / 2] as int / 16);
        lemma_hex_char(bytes[i / 2] as int % 16);
    }
}

/// A text of odd length, or with a character that is no hex digit, stands for
/// no byte sequence; every other text stands for one, of half its length.
pub proof fn lemma_decode_rejects(text: Seq<char>)
    ensures
        text.len() % 2 == 1 ==> hex_decode(text) is None,
        (exists|i: int| 0 <= i < text.len() && !is_hex_digit(text[i])) ==> hex_decode(text) is None,
        hex_decode(text) is None ==> text.len() % 2 == 1 || exists|i: int|
            0 <= i < text.len() && !is_hex_digit(text[i]),
        hex_decode(text) is Some ==> 2 * hex_decode(text).unwrap().len() == text.len(),
{
}

/// A value below 16 and its digit stand for each other.
proof fn lemma_hex_char(n: int)
    requires
        0 <= n < 16,
    ensures
        is_lower_hex_digit(hex_char(n)),
        hex_value(hex_char(n)) == n,
{
}

/// The text of one lowercase hex digit.
fn hex_digit_text(n: u8) -> (t: &'static str)
    requires
        n < 16,
    ensures
        t@ == seq![hex_char(n as int)],
{
    proof {
        reveal_strlit("0");
        reveal_strlit("1");
        reveal_strlit("2");
        reveal_strlit("3");
        reveal_strlit("4");
        reveal_strlit("5");
        reveal_strlit("6");
        reveal_strlit("7");
        reveal_strlit("8");
        reveal_strlit("9");
        reveal_strlit("a");
        reveal_strlit("b");
        reveal_strlit("c");
        reveal_strlit("d");
        reveal_strlit("e");
        reveal_strlit("f");
    }
    let t = match n {
        0 => "0",
        1 => "1",
        2 => "2",
        3 => "3",
        4 => "4",
        5 => "5",
        6 => "6",
        7 => "7",
        8 => "8",
        9 => "9",
        10 => "a",
        11 => "b",
        12 => "c",
        13 => "d",
        14 => "e",
        _ => "f",
    };
    assert(t@ =~= seq![hex_char(n as int)]);
    t
}

/// Writes a byte sequence as hex text: two lowercase digits for each byte, no
/// prefix and no separators.
pub fn hexify(buf: &[u8]) -> (hexstr: String)
    ensures
        hexstr@ == hex_encode(buf@),
        hexstr@.len() == 2 * buf@.len(),
{
    let mut hexstr = String::new();
    let mut i: usize = 0;
    while i < buf.len()
        invariant
            i <= buf@.len(),
            hexstr@ == hex_encode(buf@.subrange(0, i as int)),
        decreases buf@.len() - i,
    {
        let b: u8 = buf[i];
        let ghost before = hexstr@;
        hexstr.append(hex_digit_text(b / 16));
        hexstr.append(hex_digit_text(b % 16));
        proof {
            let shorter = buf@.subrange(0, i as int);
            let longer = buf@.subrange(0, i as int + 1);
            assert(hexstr@ == before + seq![hex_char(b as int / 16)] + seq![hex_char(b as int % 16)]);
            assert forall|j: int| 0 <= j < 2 * longer.len() implies hexstr@[j] == hex_encode(
                longer,
            )[j] by {
                if j < 2 * i {
                    assert(hexstr@[j] == hex_encode(shorter)[j]);
                    assert(shorter[j / 2] == longer[j / 2]);
                }
            }
            assert(hexstr@ =~= hex_encode(longer));
        }
        i += 1;
    }
    assert(buf@.subrange(0, i as int) =~= buf@);
    hexstr
}

/// The value of a hex digit, or `None` for any other character.
pub fn hex_digit_value(c: char) -> (v: Option<u8>)
    ensures
        is_hex_digit(c) ==> v == Some(hex_value(c) as u8) && hex_value(c) < 16,
        !is_hex_digit(c) ==> v is None,
{
    if c >= '0' && c <= '9' {
        Some((c as u32 - 48) as u8)
    } else if c >= 'a' && c <= 'f' {
        Some((c as u32 - 87) as u8)
    } else if c >= 'A' && c <= 'F' {
        Some((c as u32 - 55) as u8)
    } else {
        None
    }
}

/// Reads hex text that is held as characters.
pub fn decode_chars(text: &[char]) -> (r: Result<Vec<u8>, ModemError>)
    ensures
        hex_decode(text@) is Some ==> r is Ok && r.unwrap()@ == hex_decode(text@).unwrap(),
        hex_decode(text@) is None ==> r == Err::<Vec<u8>, ModemError>(ModemError::Decode),
{
    let n = text.len();
    if n % 2 != 0 {
        return Err(ModemError::Decode);
    }
    let mut bytes: Vec<u8> = Vec::new();
    let mut i: usize = 0;
    while i < n
        invariant
            n == text@.len(),
            n % 2 == 0,
            i % 2 == 0,
            i <= n,
            bytes@.len() == i / 2,
            forall|j: int| 0 <= j < i ==> is_hex_digit(#[trigger] text@[j]),
            forall|k: int|
                0 <= k < bytes@.len() ==> #[trigger] bytes@[k] == hex_pair(
                    text@[2 * k],
                    text@[2 * k + 1],
                ),
        decreases n - i,
    {
        let hi = hex_digit_value(text[i]);
        let lo = hex_digit_value(text[i + 1]);
        match (hi, lo) {
            (Some(h), Some(l)) => {
                bytes.push(h * 16 + l);
            },
            _ => {
                assert(!is_hex_digit(text@[i as int]) || !is_hex_digit(text@[i + 1]));
                return Err(ModemError::Decode);
            },
        }
        i += 2;
    }
    assert(bytes@ =~= hex_decode(text@).unwrap());
    Ok(bytes)
}

/// Reads hex text, two digits for each byte, in either case. A text of odd
/// length, or with a character that is no hex digit, is refused.
pub fn unhexify(s: &str) -> (r: Result<Vec<u8>, ModemError>)
    ensures
        hex_decode(s@) is Some ==> r is Ok && r.unwrap()@ == hex_decode(s@).unwrap(),
        hex_decode(s@) is None ==> r == Err::<Vec<u8>, ModemError>(ModemError::Decode),
        r is Err <==> s@.len() % 2 == 1 || exists|i: int|
            0 <= i < s@.len() && !is_hex_digit(s@[i]),
{
    let text = to_chars(s);
    decode_chars(text.as_slice())
}

} // verus!
